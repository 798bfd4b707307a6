use bridgetest::chat::{subtitle_key, ChatState};

#[test]
fn subtitle_keys() {
    assert_eq!(subtitle_key("minecraft:entity.cow.ambient"), "subtitles.entity.cow.ambient");
    assert_eq!(subtitle_key("custom:thing"), "custom:thing");
}

#[test]
fn subtitles_expire_and_refresh() {
    let mut c = ChatState::new();
    assert_eq!(c.refresh_subtitles(0), None);
    c.add_subtitle(String::from("Cow moos"), 1000);
    c.add_subtitle(String::from("Door creaks"), 2000);
    assert_eq!(c.subtitle_text(), "\nCow moos\nDoor creaks");
    assert_eq!(c.refresh_subtitles(500).as_deref(), Some("\nCow moos\nDoor creaks"));
    assert_eq!(c.refresh_subtitles(500), None);
    assert_eq!(c.refresh_subtitles(1000).as_deref(), Some("\nDoor creaks"));
    assert_eq!(c.refresh_subtitles(2500).as_deref(), Some(""));
    assert!(c.subtitles.is_empty());
}
