use foxix::config::config::{
    default_palette, parse_bool, parse_conf_entries, parse_cursor_shape, parse_hex_color, parse_url_style,
    shell_candidates, CursorShape, UrlStyle,
};
use foxix::shell::bootstrap::{escape_shell_value, ShellBootstrap};
use foxix::shell::shell_integration::{ShellIntegration, ShellType};
use std::path::PathBuf;

#[test]
fn shell_names_ignore_case() {
    assert_eq!(ShellType::from_str("BASH"), Some(ShellType::Bash));
    assert_eq!(ShellType::from_str("FishShell"), Some(ShellType::Fish));
    assert_eq!(ShellType::from_str("ash"), Some(ShellType::Sh));
    assert_eq!(ShellType::from_str("tcsh"), None);
    assert_eq!(ShellType::from_path(&PathBuf::from("/usr/bin/Zsh")), Some(ShellType::Zsh));
    assert_eq!(ShellType::from_path(&PathBuf::from("/")), None);
}

#[test]
fn shell_files() {
    assert_eq!(ShellType::Zsh.name(), "zsh");
    assert_eq!(ShellType::Fish.config_file(), "config.fish");
    assert_eq!(ShellType::Dash.completion_dir(), "");
    assert_eq!(ShellType::default(), ShellType::Bash);
}

#[test]
fn init_scripts() {
    let s = ShellIntegration::new(ShellType::Fish).generate_init_script();
    assert!(s.starts_with("# Foxix Fish Integration\n"));
    assert!(s.contains("set -gx TERM xterm-256color\n"));
    assert_eq!(ShellIntegration::new(ShellType::Sh).generate_init_script(), "");
    assert_eq!(ShellIntegration::new(ShellType::Bash).shell_type(), ShellType::Bash);
}

#[test]
fn shell_values_are_quoted_when_needed() {
    assert_eq!(escape_shell_value(""), "\"\"");
    assert_eq!(escape_shell_value("/usr/bin/fish"), "/usr/bin/fish");
    assert_eq!(escape_shell_value("a b"), "\"a b\"");
    assert_eq!(escape_shell_value("say \"hi\""), "\"say \\\"hi\\\"\"");
}

#[test]
fn bootstrap_environment() {
    let mut b = ShellBootstrap::new(PathBuf::from("/bin/zsh"));
    assert_eq!(b.shell_type(), ShellType::Zsh);
    b.set_env_var("EDITOR".to_string(), "vi".to_string());
    b.set_env_var("EDITOR".to_string(), "nano".to_string());
    b.set_term_program("other".to_string());
    let base = vec![("HOME".to_string(), "/home/u".to_string()), ("TERM".to_string(), "dumb".to_string())];
    let env = b.build_env(&base, Some("3".to_string()), "0.1.0");
    let get = |k: &str| env.iter().find(|(a, _)| a == k).map(|(_, v)| v.clone());
    assert_eq!(get("TERM"), Some("xterm-256color".to_string()));
    assert_eq!(get("HOME"), Some("/home/u".to_string()));
    assert_eq!(get("EDITOR"), Some("nano".to_string()));
    assert_eq!(get("TERM_PROGRAM"), Some("other".to_string()));
    assert_eq!(get("FOXIX_VERSION"), Some("0.1.0".to_string()));
    assert_eq!(get("FOXIX_TERM_VERSION"), Some("3".to_string()));
    assert_eq!(env.iter().filter(|(a, _)| a == "EDITOR").count(), 1);
    let script = b.generate_launch_script(&base, None, "0.1.0");
    assert!(script.starts_with("# Foxix Shell Bootstrap\n# Generated automatically - do not edit\n\n"));
    assert!(script.contains("export HOME=/home/u\n"));
    assert!(script.ends_with("\n\n"));
}

#[test]
fn bootstrap_files_use_first_feature() {
    let mut b = ShellBootstrap::from_shell_name("bash", Some(PathBuf::from("/usr/bin/bash")));
    assert!(b.generate_bash_bootstrap().contains("export TERM=xterm-256color\n"));
    b.add_term_feature("x".to_string());
    assert!(b.generate_zsh_completion().starts_with("#compdef _foxix foxix\n\n"));
    assert!(b.generate_fish_conf().contains("set -gx TERM xterm-256color\n"));
    assert!(b.generate_zsh_bootstrap().starts_with("# Foxix shell integration for Zsh\n"));
}

#[test]
fn config_values() {
    assert!(parse_bool("YES"));
    assert!(parse_bool("on"));
    assert!(!parse_bool("nope"));
    assert_eq!(parse_hex_color("#abc"), Some([0xaa, 0xbb, 0xcc]));
    assert_eq!(parse_hex_color("102030"), Some([0x10, 0x20, 0x30]));
    assert_eq!(parse_hex_color("#12"), None);
    assert_eq!(parse_cursor_shape("BEAM"), CursorShape::Beam);
    assert_eq!(parse_cursor_shape("box"), CursorShape::Block);
    assert_eq!(parse_url_style("none"), UrlStyle::Off);
    assert_eq!(parse_url_style("weird"), UrlStyle::Curly);
    assert_eq!(default_palette()[1], [0xff, 0x55, 0x55]);
}

#[test]
fn config_file_grammar() {
    let text = "# comment\n\nfont_size 14   # big\nshell\t/bin/zsh -l\r\nlonely\ncolor3 #ff0000\n  cursor_shape   beam  ";
    let e = parse_conf_entries(text);
    let e: Vec<(&str, &str)> = e.iter().map(|(k, v)| (k.as_str(), v.as_str())).collect();
    assert_eq!(
        e,
        vec![("font_size", "14"), ("shell", "/bin/zsh -l"), ("color3", "#ff0000"), ("cursor_shape", "beam")]
    );
}

#[test]
fn shell_lookup_candidates() {
    assert!(shell_candidates("/bin/sh").is_empty());
    assert_eq!(
        shell_candidates("zsh"),
        vec!["/usr/bin/zsh".to_string(), "/usr/local/bin/zsh".to_string(), "/bin/zsh".to_string()]
    );
}

#[test]
fn shell_from_file_name_ignores_case() {
    assert_eq!(foxix::shell::shell_integration::ShellType::from_file_name(Some("ZSH")), Some(foxix::shell::shell_integration::ShellType::Zsh));
    assert_eq!(foxix::shell::shell_integration::ShellType::from_file_name(Some("fishshell")), Some(foxix::shell::shell_integration::ShellType::Fish));
    assert_eq!(foxix::shell::shell_integration::ShellType::from_file_name(Some("nu")), None);
    assert_eq!(foxix::shell::shell_integration::ShellType::from_file_name(None), None);
}

#[test]
fn colour_values_keep_their_hash() {
    let text = "font_size 14  # inline comment\n# font_size 20\n\nforeground #102030\nurl_color #0087bd # blue\nx a#b\n";
    let e = parse_conf_entries(text);
    let e: Vec<(&str, &str)> = e.iter().map(|(k, v)| (k.as_str(), v.as_str())).collect();
    assert_eq!(e, vec![("font_size", "14"), ("foreground", "#102030"), ("url_color", "#0087bd"), ("x", "a#b")]);
}

#[test]
fn shell_type_from_path_reads_file_name() {
    assert_eq!(ShellType::from_path(&PathBuf::from("/bin/bash")), Some(ShellType::Bash));
    assert_eq!(ShellType::from_path(&PathBuf::from("/usr/local/bin/Fish")), Some(ShellType::Fish));
    assert_eq!(ShellType::from_path(&PathBuf::from("/usr/bin/nu")), None);
    for t in [ShellType::Bash, ShellType::Zsh, ShellType::Fish, ShellType::Dash, ShellType::Sh] {
        assert_eq!(ShellType::from_path(&PathBuf::from(format!("/bin/{}", t.name()))), Some(t));
    }
}

#[test]
fn bootstrap_shell_type_follows_path() {
    assert_eq!(ShellBootstrap::new(PathBuf::from("/usr/bin/zsh")).shell_type(), ShellType::Zsh);
    assert_eq!(ShellBootstrap::new(PathBuf::from("/opt/unknown")).shell_type(), ShellType::Bash);
}
