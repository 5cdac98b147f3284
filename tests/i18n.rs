use steam_cleaner::i18n::{format_string, Language};
use steam_cleaner::platform::{change_volume_id, clean_cache, gather_system_info, is_elevated};

#[test]
fn templates_are_filled_in_order() {
    assert_eq!(
        format_string("Are you sure you want to delete profile '{0}'?", &["Work"]),
        "Are you sure you want to delete profile 'Work'?"
    );
    assert_eq!(format_string("{1} and {0}, {0}", &["a", "b"]), "b and a, a");
    assert_eq!(format_string("{0}", &["{1}", "x"]), "x");
    assert_eq!(format_string("no placeholders", &[]), "no placeholders");
}

#[test]
fn languages_have_codes_and_names() {
    let all = Language::all();
    assert_eq!(all.len(), 9);
    assert_eq!(all[0], Language::English);
    assert_eq!(Language::German.code(), "de");
    assert_eq!(Language::Japanese.code(), "ja");
    assert_eq!(Language::French.name(), "Français");
    assert_eq!(Language::Chinese.name(), "中文");
}

#[test]
fn platform_units_report_that_they_are_unsupported() {
    assert_eq!(
        clean_cache(false).unwrap(),
        vec!["File cleaning is only supported on Windows.".to_string()]
    );
    assert_eq!(
        clean_cache(true).unwrap(),
        vec!["[Dry Run] Would skip File cleaning: it is only supported on Windows.".to_string()]
    );
    assert_eq!(
        change_volume_id("C", false).unwrap(),
        "Volume ID changing is only supported on Windows."
    );
    assert!(is_elevated());
    assert_eq!(gather_system_info().machine_guid, "Not applicable");
}
