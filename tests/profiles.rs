use steam_cleaner::profiles::{chrono_lite_now, timestamp_text, HardwareProfile, ProfileManager};

#[test]
fn test_profile_names() {
    let mut manager = ProfileManager::default();
    manager.add_or_update_profile(HardwareProfile::new("Profile A".to_string()));
    manager.add_or_update_profile(HardwareProfile::new("Profile B".to_string()));

    let names = manager.profile_names();
    assert!(names.contains(&"Profile A".to_string()));
    assert!(names.contains(&"Profile B".to_string()));
}

#[test]
fn adding_a_profile_of_the_same_name_replaces_it() {
    let mut manager = ProfileManager::default();
    manager.add_or_update_profile(HardwareProfile::new("Profile A".to_string()));
    manager.add_or_update_profile(HardwareProfile::new("Profile B".to_string()));
    let mut updated = HardwareProfile::new("Profile A".to_string());
    updated.machine_guid = Some("test-guid-123".to_string());
    manager.add_or_update_profile(updated);

    assert_eq!(manager.profile_names(), vec!["Profile B".to_string(), "Profile A".to_string()]);
    let found = manager.get_profile("Profile A").unwrap();
    assert_eq!(found.machine_guid, Some("test-guid-123".to_string()));
}

#[test]
fn removing_the_active_profile_clears_it() {
    let mut manager = ProfileManager::default();
    manager.add_or_update_profile(HardwareProfile::new("Profile A".to_string()));
    manager.add_or_update_profile(HardwareProfile::new("Profile B".to_string()));
    manager.active_profile = Some("Profile A".to_string());

    manager.remove_profile("Profile A");
    assert_eq!(manager.profile_names(), vec!["Profile B".to_string()]);
    assert_eq!(manager.active_profile, None);
    assert!(manager.get_profile("Profile A").is_none());

    manager.active_profile = Some("Profile B".to_string());
    manager.remove_profile("Profile C");
    assert_eq!(manager.active_profile, Some("Profile B".to_string()));
    assert_eq!(manager.profile_names().len(), 1);
}

#[test]
fn new_profile_is_empty() {
    let profile = HardwareProfile::new("Test Profile".to_string());
    assert_eq!(profile.name, "Test Profile");
    assert!(profile.machine_guid.is_none());
    assert!(profile.volume_ids.is_empty());
    assert!(profile.mac_addresses.is_empty());
    assert_eq!(profile.created_at.len(), 19);
    let snapshot = HardwareProfile::snapshot_current("Now".to_string()).unwrap();
    assert_eq!(snapshot.name, "Now");
}

#[test]
fn timestamps_render_as_iso_like_text() {
    assert_eq!(timestamp_text(0), "1970-01-01T00:00:00");
    assert_eq!(timestamp_text(86400 * 365 + 3661), "1971-01-01T01:01:01");
    assert_eq!(timestamp_text(86400 * 364 + 59), "1970-12-05T00:00:59");
    assert_eq!(chrono_lite_now().len(), 19);
}
