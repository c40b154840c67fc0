use foxix::kittens::kitten::KittenResult;
use foxix::notifications::notifications::{notify_send_args, Delivery, Notification, NotificationLevel, NotificationManager};
use foxix::pty_io::io::AsyncIOHandler;
use foxix::terminal::ansi::AnsiParser;
use foxix::ui::selection::{is_in_selection, selected_text};
use foxix::ui::tabs::TabManager;
use foxix::ui_layout::base::{next_index, prev_index, window_position, WindowId};
use foxix::ui_layout::grid::{grid_cell, GridLayout};
use foxix::ui_layout::stack::stack_visibility;

#[test]
fn kitten_messages() {
    assert!(KittenResult::Partial("p".to_string()).is_success());
    assert!(!KittenResult::Exit(0).is_success());
    assert_eq!(KittenResult::Success.message(), "OK");
    assert_eq!(KittenResult::Exit(-3).message(), "Exited with code -3");
    assert_eq!(KittenResult::Exit(i32::MIN).message(), "Exited with code -2147483648");
    assert_eq!(KittenResult::Error("bad".to_string()).message(), "bad");
}

#[test]
fn notification_levels_and_arguments() {
    assert_eq!(NotificationLevel::Error.urgency(), "critical");
    assert_eq!(NotificationLevel::Success.icon(), "dialog-information");
    let n = Notification::new("T".to_string(), "B".to_string(), NotificationLevel::Warning).with_timeout(2);
    assert!(!n.id.is_empty());
    let args = notify_send_args(&n);
    assert_eq!(args, vec!["-u", "normal", "-a", "foxix", "-t", "2000", "-i", "dialog-warning", "T", "B"]);
    let n = n.with_icon("ic".to_string()).with_action("open".to_string());
    assert_eq!(notify_send_args(&n)[7], "ic");
    assert_eq!(n.action.as_deref(), Some("open"));
}

#[test]
fn notification_history() {
    let mut m = NotificationManager::new(true);
    assert_eq!(m.delivery(), Delivery::NotifySend);
    m.set_max_notifications(2);
    for t in ["a", "b", "c"] {
        let mut n = Notification::new(t.to_string(), String::new(), NotificationLevel::Info);
        n.id = t.to_string();
        n.created_at_secs = 100;
        assert_eq!(m.record(n), t);
    }
    let titles: Vec<String> = m.get_notifications().into_iter().map(|n| n.title).collect();
    assert_eq!(titles, vec!["b", "c"]);
    assert!(m.remove_notification("b"));
    assert!(!m.remove_notification("zz"));
    m.cleanup_old(150, 10);
    assert!(m.get_notifications().is_empty());
    assert!(!m.toggle_enabled());
    assert_eq!(m.delivery(), Delivery::Disabled);
    assert_eq!(NotificationManager::new(false).delivery(), Delivery::NoBackend);
}

#[test]
fn io_buffer_stays_bounded() {
    let mut h = AsyncIOHandler::new(4);
    h.absorb(b"abc");
    h.absorb(b"de");
    assert_eq!(h.contents(), b"bcde".to_vec());
    let mut out = Vec::new();
    h.flush_to(&mut out, 3);
    assert_eq!(out, b"bcd".to_vec());
    assert_eq!(h.buffer_len(), 1);
    h.clear();
    assert_eq!(h.buffer_len(), 0);
}

#[test]
fn selection_cells_and_text() {
    assert!(is_in_selection(1, 5, 1, 2, 1, 6));
    assert!(!is_in_selection(1, 7, 1, 2, 1, 6));
    assert!(is_in_selection(2, 3, 1, 2, 3, 4));
    assert!(!is_in_selection(2, 0, 1, 2, 3, 4));
    assert!(!is_in_selection(1, 0, 0, 2, 2, 3));
    assert!(!is_in_selection(4, 3, 1, 2, 3, 4));
    assert!(is_in_selection(3, 4, 1, 2, 3, 4));
    let mut p = AnsiParser::new(3, 6);
    p.parse(b"hello \r\nworld\r\nxy");
    assert_eq!(selected_text(p.screen(), 0, 1, 1, 2), "ello\nwor");
    assert_eq!(selected_text(p.screen(), 0, 0, 9, 9), "hello\nworld\nxy");
}

#[test]
fn tabs_cycle_and_close() {
    let mut t: TabManager<&str> = TabManager::new();
    assert_eq!(t.add_tab("a"), 1);
    assert_eq!(t.add_tab("b"), 2);
    assert_eq!(t.add_tab("c"), 3);
    assert_eq!(t.active_tab(), Some(&"c"));
    t.next_tab();
    assert_eq!(t.active_tab(), Some(&"a"));
    t.prev_tab();
    assert_eq!(t.active_tab(), Some(&"c"));
    assert!(t.close_tab(2));
    assert_eq!(t.active_tab(), Some(&"b"));
    assert!(t.close_active());
    assert!(!t.close_active());
    assert_eq!(t.tab_count(), 0);
}

#[test]
fn layout_indices() {
    let ids = [WindowId(4), WindowId(9), WindowId(2)];
    assert_eq!(window_position(&ids, WindowId(9)), Some(1));
    assert_eq!(window_position(&ids, WindowId(5)), None);
    assert_eq!(next_index(2, 3), 0);
    assert_eq!(prev_index(0, 3), 2);
    let mut g = GridLayout::new();
    assert_eq!(g.shape(5), (2, 3));
    g.set_cols(0);
    assert_eq!(g.cols(), 1);
    assert_eq!(grid_cell(5, 2), (1, 2));
    assert_eq!(stack_visibility(3, 2), vec![false, false, true]);
}

#[test]
fn notification_ids_are_hex_time() {
    assert_eq!(foxix::notifications::notifications::id_from_time(255, 16), "ff10");
    assert_eq!(foxix::notifications::notifications::id_from_time(0, 0), "00");
    let id = foxix::notifications::notifications::uuid_simple();
    assert!(!id.is_empty() && id.chars().all(|c| c.is_ascii_hexdigit()));
}
