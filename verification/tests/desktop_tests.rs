use foxix::config::desktop::{fehbg_paths, is_image_extension, swww_image_path, xft_dpi};

#[test]
fn swww_lines_name_the_image() {
    assert_eq!(
        swww_image_path("HDMI-A-1: 1920x1080, scale: 1, currently displaying: image: /home/u/w.png, x"),
        Some("/home/u/w.png".to_string())
    );
    assert_eq!(swww_image_path("eDP-1: image:  /a b.jpg "), Some("/a b.jpg".to_string()));
    assert_eq!(swww_image_path("eDP-1: color: 000000"), None);
    assert_eq!(swww_image_path("image:/x"), None);
}

#[test]
fn fehbg_words_with_slashes() {
    let content = "#!/bin/sh\nfeh --no-fehbg --bg-fill '/home/u/Pictures/a.jpg' \"/b.png\" plain\n";
    assert_eq!(
        fehbg_paths(content),
        vec!["#!/bin/sh".to_string(), "/home/u/Pictures/a.jpg".to_string(), "/b.png".to_string()]
    );
    assert!(fehbg_paths("   ").is_empty());
    assert_eq!(fehbg_paths("'''/x'''"), vec!["/x".to_string()]);
}

#[test]
fn image_extensions_ignore_case() {
    assert!(is_image_extension("JPG"));
    assert!(is_image_extension("webp"));
    assert!(!is_image_extension("gif"));
    assert!(!is_image_extension("pngx"));
}

#[test]
fn xrdb_dpi_line() {
    assert_eq!(xft_dpi("Xft.dpi:\t144"), Some(144));
    assert_eq!(xft_dpi("Xft.dpi: 96: extra"), Some(96));
    assert_eq!(xft_dpi("Xft.dpi: high"), None);
    assert_eq!(xft_dpi("Xft.antialias: 1"), None);
    assert_eq!(xft_dpi("Xft.dpi: +120"), Some(120));
}
