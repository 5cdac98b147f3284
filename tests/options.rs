use steam_cleaner::options::{
    has_granular_selection, resolve, Action, ActionCategory, CleaningOptions, SteamCacheSteps,
    SystemIdSteps,
};

#[test]
fn nothing_selected_resolves_to_an_empty_plan() {
    let mut o = CleaningOptions::default();
    assert!(resolve(&o).is_empty());
    o.dry_run = true;
    assert!(resolve(&o).is_empty());
    assert!(!has_granular_selection(&o));
}

#[test]
fn umbrella_flag_equals_all_granular_flags() {
    let mut legacy = CleaningOptions::default();
    legacy.spoof_system_ids = true;
    legacy.clean_steam = true;
    legacy.dry_run = true;

    let mut granular = CleaningOptions::default();
    granular.spoof_machine_guid = true;
    granular.spoof_hw_profile_guid = true;
    granular.spoof_windows_nt_info = true;
    granular.spoof_computer_name = true;
    granular.delete_steam_registry = true;
    granular.spoof_hkcu_keys = true;
    granular.stop_steam_processes = true;
    granular.delete_login_files = true;
    granular.delete_sentry_files = true;
    granular.clean_steam_directories = true;
    granular.clean_user_caches = true;
    granular.clean_system_caches = true;
    granular.dry_run = true;

    assert_eq!(resolve(&legacy), resolve(&granular));
    assert_eq!(resolve(&legacy).len(), 2);
    assert!(has_granular_selection(&granular));
    assert!(!has_granular_selection(&legacy));
}

#[test]
fn granular_selection_carries_only_the_chosen_steps() {
    let mut o = CleaningOptions::default();
    o.spoof_computer_name = true;
    o.spoof_mac_adapters = true;
    o.clean_aggressive = true;
    let plan = resolve(&o);
    let ids = SystemIdSteps {
        machine_guid: false,
        hw_profile_guid: false,
        windows_nt_info: false,
        computer_name: true,
        steam_registry: false,
        hkcu_keys: false,
    };
    assert_eq!(
        plan,
        vec![
            ActionCategory { action: Action::SystemIds(ids), dry_run: false },
            ActionCategory { action: Action::MacAddress, dry_run: false },
            ActionCategory { action: Action::AggressiveRegistry, dry_run: false },
        ]
    );
}

#[test]
fn plan_follows_category_order_and_carries_dry_run() {
    let mut o = CleaningOptions::default();
    o.clean_aggressive = true;
    o.clean_user_caches = true;
    o.spoof_volume_id = true;
    o.dry_run = true;
    let plan = resolve(&o);
    let steam = SteamCacheSteps {
        stop_processes: false,
        login_files: false,
        sentry_files: false,
        steam_directories: false,
        user_caches: true,
        system_caches: false,
    };
    assert_eq!(
        plan,
        vec![
            ActionCategory { action: Action::VolumeId, dry_run: true },
            ActionCategory { action: Action::SteamCache(steam), dry_run: true },
            ActionCategory { action: Action::AggressiveRegistry, dry_run: true },
        ]
    );
}
