use steam_cleaner::steam::{
    get_library_folders, get_steam_root, join_path, manifest_install_dir, quoted_values,
    steam_root_candidates, unescape_separators,
};

const VDF: &str = "\"libraryfolders\"\n{\n\t\"0\"\n\t{\n\t\t\"path\"\t\t\"C:\\\\Steam\"\n\t\t\"label\"\t\t\"\"\n\t}\n\t\"1\"\n\t{\n\t\t\"PATH\"  \"D:\\\\Games\\\\SteamLibrary\"\n\t}\n}\n";

#[test]
fn library_folders_come_from_the_vdf_once_each() {
    let libs = get_library_folders("C:\\Steam", Some(VDF));
    assert_eq!(
        libs,
        vec![
            "C:\\Steam\\steamapps".to_string(),
            "D:\\Games\\SteamLibrary\\steamapps".to_string(),
        ]
    );
    assert_eq!(get_library_folders("/home/u/.steam", None), vec!["/home/u/.steam/steamapps".to_string()]);
}

#[test]
fn library_folders_are_sorted_in_path_order() {
    let vdf = "\"path\"\t\"A\"\n\"path\"\t\"Z\"\n\"path\" \"Steam-Lib\"";
    assert_eq!(
        get_library_folders("Z", Some(vdf)),
        vec![
            "A/steamapps".to_string(),
            "Steam-Lib/steamapps".to_string(),
            "Z/steamapps".to_string(),
        ]
    );
    let vdf = "\"path\" \"/g/Steam-Lib\" \"path\" \"/g/Steam\"";
    assert_eq!(
        get_library_folders("/g/Steam", Some(vdf)),
        vec!["/g/Steam/steamapps".to_string(), "/g/Steam-Lib/steamapps".to_string()]
    );
}

#[test]
fn unicode_whitespace_parts_key_and_value() {
    assert_eq!(
        quoted_values("\"path\"\u{3000}\u{a0}\"E:\\\\Lib\"", "path"),
        vec!["E:\\\\Lib".to_string()]
    );
}

#[test]
fn quoted_values_are_found_tolerantly() {
    assert_eq!(
        quoted_values("\"path\" \"a\" \"path\"\"b\" \"Path\"\t\"\" \"path\"\n\"c d\"", "path"),
        vec!["a".to_string(), "c d".to_string()]
    );
    assert!(quoted_values("no entries here", "path").is_empty());
}

#[test]
fn manifests_declare_their_install_dir() {
    let text = "\"AppState\"\n{\n\t\"appid\"\t\t\"730\"\n\t\"installdir\"\t\t\"Counter-Strike Global Offensive\"\n}";
    assert_eq!(
        manifest_install_dir(text),
        Some("Counter-Strike Global Offensive".to_string())
    );
    assert_eq!(manifest_install_dir("\"AppState\" {}"), None);
}

#[test]
fn paths_join_with_their_own_separator() {
    assert_eq!(join_path("C:\\Steam", "steamapps"), "C:\\Steam\\steamapps");
    assert_eq!(join_path("/opt/steam", "steamapps"), "/opt/steam/steamapps");
    assert_eq!(join_path("/opt/steam/", "common"), "/opt/steam/common");
    assert_eq!(unescape_separators("D:\\\\Games\\\\x"), "D:\\Games\\x");
    assert_eq!(unescape_separators("\\\\\\"), "\\\\");
}

#[test]
fn steam_root_is_the_first_existing_candidate() {
    let candidates = steam_root_candidates("C:\\Users\\u\\AppData\\Local");
    assert_eq!(candidates[2], "C:\\Users\\u\\AppData\\Local\\Steam");
    assert_eq!(
        get_steam_root(&candidates, &vec![false, true, true]),
        Some("C:\\Program Files\\Steam".to_string())
    );
    assert_eq!(get_steam_root(&candidates, &vec![false, false, false]), None);
}
