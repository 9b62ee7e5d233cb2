use screamshot::icon::tray_icon_image;
use screamshot::text::{
    autostart_entry, capture_file_name, launcher_entry, needs_rewrite, notification_body, notification_summary,
};

#[test]
fn autostart_entry_names_the_program() {
    assert_eq!(
        autostart_entry("/usr/bin/screamshot"),
        "[Desktop Entry]\nType=Application\nName=Screamshot\nExec=/usr/bin/screamshot\nIcon=camera-photo\nComment=Region-Based Scrolling Capture\nTerminal=false\n"
    );
}

#[test]
fn launcher_entry_adds_the_category() {
    assert_eq!(
        launcher_entry("/opt/s"),
        "[Desktop Entry]\nType=Application\nName=Screamshot\nExec=/opt/s\nIcon=camera-photo\nComment=Region-Based Scrolling Capture\nTerminal=false\nCategories=Utility;\n"
    );
}

#[test]
fn entries_are_rewritten_only_when_they_differ() {
    let content = launcher_entry("/opt/s");
    assert!(needs_rewrite(&None, &content));
    assert!(!needs_rewrite(&Some(content.clone()), &content));
    assert!(needs_rewrite(&Some(launcher_entry("/opt/t")), &content));
}

#[test]
fn file_names_and_notifications() {
    assert_eq!(capture_file_name("scroll", "20240102_030405"), "scroll_20240102_030405.png");
    assert_eq!(notification_summary("scroll"), "Scrolling Capture Done");
    assert_eq!(notification_summary("screenshot"), "Screen Capture Done");
    assert_eq!(
        notification_body("a.png", true),
        "Image saved to a.png and copied to clipboard!"
    );
    assert_eq!(notification_body("a.png", false), "Image saved to a.png");
}

#[test]
fn tray_icon_is_a_gradient() {
    let icon = tray_icon_image();
    assert_eq!(icon.dimensions(), (32, 32));
    for y in 0..32u32 {
        for x in 0..32u32 {
            let r = (x as f32 / 32.0 * 255.0) as u8;
            let b = (y as f32 / 32.0 * 255.0) as u8;
            assert_eq!(icon.get_pixel(x, y), [r, 0, b, 255]);
        }
    }
}
