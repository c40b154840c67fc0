use foxix::ui_marks::marks::{MarkManager, MarkType};

#[test]
fn created_marks_get_sequential_ids() {
    let mut m = MarkManager::new();
    let a = m.create_mark(MarkType::Jump, "a".to_string(), 3, 1, 7, "ls".to_string()).id.clone();
    let b = m.create_bookmark("b".to_string(), 5, 0, 7, "pwd".to_string()).id.clone();
    assert_eq!(a, "mark_1");
    assert_eq!(b, "mark_2");
    assert_eq!(m.get_mark("mark_2").unwrap().color, [0, 191, 255]);
    assert!(m.get_mark("mark_9").is_none());
}

#[test]
fn marks_are_found_and_removed() {
    let mut m = MarkManager::new();
    m.create_global_mark("g".to_string(), 10, 2, 1, "x".to_string());
    m.create_bookmark("b".to_string(), 20, 4, 1, "y".to_string());
    m.create_bookmark("c".to_string(), 30, 0, 2, "z".to_string());
    assert_eq!(m.get_marks_for_tab(1).len(), 2);
    assert_eq!(m.get_marks_in_range(1, 15, 25).len(), 1);
    assert_eq!(m.find_mark_at(1, 20, 4).unwrap().name, "b");
    assert!(m.remove_mark("mark_1"));
    assert!(!m.remove_mark("mark_1"));
    assert_eq!(m.get_all_marks().len(), 2);
    m.clear_marks_for_tab(1);
    assert_eq!(m.get_all_marks().len(), 1);
    m.clear_all_marks();
    assert!(m.get_all_marks().is_empty());
}

#[test]
fn jumps_go_to_nearest_rows() {
    let mut m = MarkManager::new();
    for (row, col) in [(5usize, 1usize), (12, 2), (9, 3), (2, 4)] {
        m.create_bookmark("m".to_string(), row, col, 0, String::new());
    }
    assert_eq!(m.jump_to_next_mark(0, 6), Some((9, 3)));
    assert_eq!(m.jump_to_prev_mark(0, 6), Some((5, 1)));
    assert_eq!(m.jump_to_next_mark(0, 12), None);
    assert_eq!(m.jump_to_prev_mark(1, 12), None);
}

#[test]
fn auto_marks_follow_the_command_word() {
    let mut m = MarkManager::new();
    assert!(m.should_auto_mark("  cargo build"));
    assert!(!m.should_auto_mark("echo git"));
    let mark = m.auto_mark_output_line("git: error failed", 4, 2, 0).unwrap();
    assert_eq!(mark.mark_type, MarkType::Global);
    assert_eq!(mark.name, "auto_4_2");
    assert!(m.auto_mark_output_line("ls -l", 1, 1, 0).is_none());
    m.set_enabled(false);
    assert!(m.auto_mark_output_line("git status", 1, 1, 0).is_none());
    m.toggle_enabled();
    assert!(m.is_enabled());
}

#[test]
fn mark_can_be_edited_in_place() {
    let mut m = MarkManager::new();
    m.create_bookmark("b".to_string(), 1, 1, 0, String::new());
    m.get_mark_mut("mark_1").unwrap().row = 42;
    assert_eq!(m.get_mark("mark_1").unwrap().row, 42);
    let d = m.get_mark("mark_1").unwrap().clone_mark().with_description("note".to_string());
    assert_eq!(d.description.as_deref(), Some("note"));
}

#[test]
fn mark_ids_are_never_reused() {
    let mut m = MarkManager::new();
    m.create_mark(MarkType::Jump, "a".to_string(), 0, 0, 1, String::new());
    m.create_mark(MarkType::Jump, "b".to_string(), 1, 0, 1, String::new());
    assert!(m.remove_mark("mark_2"));
    let c = m.create_global_mark("c".to_string(), 2, 0, 1, String::new()).id.clone();
    assert_eq!(c, "mark_3");
    assert_eq!(m.get_all_marks().len(), 2);
    assert!(m.get_mark("mark_2").is_none());
}
