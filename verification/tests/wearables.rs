use dcl2d::errors::{AvatarMakerError, ScenesIOError};
use dcl2d::wearables::{body_wearable, get_wearables_data, text_le_exec, wearable_type_of_name, SpriteMakerError,
    WearableData, WearableEntry, WearableType};

fn entry(path: &str, ext: Option<&str>, stem: Option<&str>) -> WearableEntry {
    WearableEntry { path: path.to_string(), extension: ext.map(|s| s.to_string()), file_stem: stem.map(|s| s.to_string()) }
}

#[test]
fn wearable_kind_by_name_ending() {
    assert_eq!(wearable_type_of_name("avatar_body"), Some(WearableType::Body));
    assert_eq!(wearable_type_of_name("xheadaccessory"), Some(WearableType::HeadAccesory));
    assert_eq!(wearable_type_of_name("bg"), Some(WearableType::Background));
    assert_eq!(wearable_type_of_name("mybackground"), Some(WearableType::Background));
    assert_eq!(wearable_type_of_name("shoes"), None);
}

#[test]
fn wearables_are_json_files_sorted_by_kind_then_path() {
    let entries = vec![
        entry("w/Hair.json", Some("json"), Some("Hair")),
        entry("w/z_body.json", Some("json"), Some("z_body")),
        entry("w/a_body.json", Some("json"), Some("a_body")),
        entry("w/BG.json", Some("json"), Some("BG")),
        entry("w/upper.png", Some("png"), Some("upper")),
        entry("w/notes", None, Some("notes")),
        entry("w/shoes.json", Some("json"), Some("shoes")),
        entry("w/Feet.json", Some("json"), Some("Feet")),
    ];
    let w = get_wearables_data(&entries);
    let got: Vec<(WearableType, String)> = w.iter().map(|d| (d.wearable_type, d.json_path.clone())).collect();
    assert_eq!(
        got,
        vec![
            (WearableType::Background, "w/BG.json".to_string()),
            (WearableType::Body, "w/a_body.json".to_string()),
            (WearableType::Body, "w/z_body.json".to_string()),
            (WearableType::Feet, "w/Feet.json".to_string()),
            (WearableType::Hair, "w/Hair.json".to_string()),
        ]
    );
}

#[test]
fn body_is_the_last_body_wearable() {
    let w = |t: WearableType, p: &str| WearableData { wearable_type: t, json_path: p.to_string() };
    assert_eq!(body_wearable(&Vec::new()), Err(SpriteMakerError::NoWearables));
    assert_eq!(body_wearable(&vec![w(WearableType::Hair, "h")]), Err(SpriteMakerError::NoBody));
    assert_eq!(
        body_wearable(&vec![w(WearableType::Body, "a"), w(WearableType::Body, "b"), w(WearableType::Hair, "h")]),
        Ok(1)
    );
}

#[test]
fn text_order_is_lexicographic() {
    assert!(text_le_exec("a", "b"));
    assert!(text_le_exec("ab", "ab"));
    assert!(text_le_exec("ab", "abc"));
    assert!(!text_le_exec("abc", "ab"));
    assert!(!text_le_exec("b", "abc"));
    assert!(text_le_exec("", ""));
}

#[test]
fn error_messages() {
    assert_eq!(ScenesIOError::InvalidPath("x/y".to_string()).message(), "Invalid path : x/y");
    assert_eq!(AvatarMakerError::MissingEntityId.message(), "Missing entity ID");
}
