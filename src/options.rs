use vstd::prelude::*;

verus! {

/// The flat bag of user toggles: one umbrella flag per category, the granular
/// flags that each category is made of, and the simulation switch.
#[derive(Debug, Clone, Copy, Default)]
pub struct CleaningOptions {
    pub spoof_system_ids: bool,
    pub spoof_machine_guid: bool,
    pub spoof_hw_profile_guid: bool,
    pub spoof_windows_nt_info: bool,
    pub spoof_computer_name: bool,
    pub delete_steam_registry: bool,
    pub spoof_hkcu_keys: bool,
    pub spoof_mac: bool,
    pub spoof_mac_adapters: bool,
    pub spoof_volume_id: bool,
    pub spoof_system_volume: bool,
    pub clean_steam: bool,
    pub stop_steam_processes: bool,
    pub delete_login_files: bool,
    pub delete_sentry_files: bool,
    pub clean_steam_directories: bool,
    pub clean_user_caches: bool,
    pub clean_system_caches: bool,
    pub clean_aggressive: bool,
    pub clean_aggressive_keys: bool,
    pub dry_run: bool,
}

/// The sub-actions of the system identifier category that were selected.
#[derive(Debug, Clone, Copy, PartialEq, Eq, Structural)]
pub struct SystemIdSteps {
    pub machine_guid: bool,
    pub hw_profile_guid: bool,
    pub windows_nt_info: bool,
    pub computer_name: bool,
    pub steam_registry: bool,
    pub hkcu_keys: bool,
}

/// The sub-actions of the Steam cache category that were selected.
#[derive(Debug, Clone, Copy, PartialEq, Eq, Structural)]
pub struct SteamCacheSteps {
    pub stop_processes: bool,
    pub login_files: bool,
    pub sentry_files: bool,
    pub steam_directories: bool,
    pub user_caches: bool,
    pub system_caches: bool,
}

/// The identifiers of the categories, in the order in which they are planned.
#[derive(Debug, Clone, Copy, PartialEq, Eq, Structural)]
pub enum CategoryKind {
    SystemIds,
    MacAddress,
    VolumeId,
    SteamCache,
    AggressiveRegistry,
}

/// One independently dispatchable operation, with the sub-actions it covers.
#[derive(Debug, Clone, Copy, PartialEq, Eq, Structural)]
pub enum Action {
    SystemIds(SystemIdSteps),
    MacAddress,
    VolumeId,
    SteamCache(SteamCacheSteps),
    AggressiveRegistry,
    RestoreMacAddresses,
    RestoreVolumeIds,
}

/// An action together with the simulation switch it runs under.
#[derive(Debug, Clone, Copy, PartialEq, Eq, Structural)]
pub struct ActionCategory {
    pub action: Action,
    pub dry_run: bool,
}

pub open spec fn all_system_id_steps() -> SystemIdSteps {
    SystemIdSteps {
        machine_guid: true,
        hw_profile_guid: true,
        windows_nt_info: true,
        computer_name: true,
        steam_registry: true,
        hkcu_keys: true,
    }
}

pub open spec fn all_steam_cache_steps() -> SteamCacheSteps {
    SteamCacheSteps {
        stop_processes: true,
        login_files: true,
        sentry_files: true,
        steam_directories: true,
        user_caches: true,
        system_caches: true,
    }
}

pub open spec fn chosen_system_id_steps(o: CleaningOptions) -> SystemIdSteps {
    SystemIdSteps {
        machine_guid: o.spoof_machine_guid,
        hw_profile_guid: o.spoof_hw_profile_guid,
        windows_nt_info: o.spoof_windows_nt_info,
        computer_name: o.spoof_computer_name,
        steam_registry: o.delete_steam_registry,
        hkcu_keys: o.spoof_hkcu_keys,
    }
}

pub open spec fn chosen_steam_cache_steps(o: CleaningOptions) -> SteamCacheSteps {
    SteamCacheSteps {
        stop_processes: o.stop_steam_processes,
        login_files: o.delete_login_files,
        sentry_files: o.delete_sentry_files,
        steam_directories: o.clean_steam_directories,
        user_caches: o.clean_user_caches,
        system_caches: o.clean_system_caches,
    }
}

pub open spec fn any_system_id_step(s: SystemIdSteps) -> bool {
    s.machine_guid || s.hw_profile_guid || s.windows_nt_info || s.computer_name
        || s.steam_registry || s.hkcu_keys
}

pub open spec fn any_steam_cache_step(s: SteamCacheSteps) -> bool {
    s.stop_processes || s.login_files || s.sentry_files || s.steam_directories || s.user_caches
        || s.system_caches
}

/// Whether the umbrella flag of a category is set.
pub open spec fn legacy_flag(o: CleaningOptions, k: CategoryKind) -> bool {
    match k {
        CategoryKind::SystemIds => o.spoof_system_ids,
        CategoryKind::MacAddress => o.spoof_mac,
        CategoryKind::VolumeId => o.spoof_volume_id,
        CategoryKind::SteamCache => o.clean_steam,
        CategoryKind::AggressiveRegistry => o.clean_aggressive,
    }
}

/// Whether any granular flag of a category is set.
pub open spec fn granular_selected(o: CleaningOptions, k: CategoryKind) -> bool {
    match k {
        CategoryKind::SystemIds => any_system_id_step(chosen_system_id_steps(o)),
        CategoryKind::MacAddress => o.spoof_mac_adapters,
        CategoryKind::VolumeId => o.spoof_system_volume,
        CategoryKind::SteamCache => any_steam_cache_step(chosen_steam_cache_steps(o)),
        CategoryKind::AggressiveRegistry => o.clean_aggressive_keys,
    }
}

/// The logical OR of every granular flag.
pub open spec fn any_granular(o: CleaningOptions) -> bool {
    granular_selected(o, CategoryKind::SystemIds) || granular_selected(o, CategoryKind::MacAddress)
        || granular_selected(o, CategoryKind::VolumeId) || granular_selected(
        o,
        CategoryKind::SteamCache,
    ) || granular_selected(o, CategoryKind::AggressiveRegistry)
}

/// The action a category stands for: the full one under its umbrella flag,
/// else the granular selection.
pub open spec fn category_action(o: CleaningOptions, k: CategoryKind) -> Action {
    match k {
        CategoryKind::SystemIds => Action::SystemIds(
            if o.spoof_system_ids {
                all_system_id_steps()
            } else {
                chosen_system_id_steps(o)
            },
        ),
        CategoryKind::MacAddress => Action::MacAddress,
        CategoryKind::VolumeId => Action::VolumeId,
        CategoryKind::SteamCache => Action::SteamCache(
            if o.clean_steam {
                all_steam_cache_steps()
            } else {
                chosen_steam_cache_steps(o)
            },
        ),
        CategoryKind::AggressiveRegistry => Action::AggressiveRegistry,
    }
}

/// The plan entry of a category: present when its umbrella flag or any of its
/// granular flags is set.
pub open spec fn planned(o: CleaningOptions, k: CategoryKind) -> Seq<ActionCategory> {
    if legacy_flag(o, k) || granular_selected(o, k) {
        seq![ActionCategory { action: category_action(o, k), dry_run: o.dry_run }]
    } else {
        Seq::empty()
    }
}

/// The ordered action plan of a set of toggles.
pub open spec fn resolve_spec(o: CleaningOptions) -> Seq<ActionCategory> {
    planned(o, CategoryKind::SystemIds) + planned(o, CategoryKind::MacAddress) + planned(
        o,
        CategoryKind::VolumeId,
    ) + planned(o, CategoryKind::SteamCache) + planned(o, CategoryKind::AggressiveRegistry)
}

/// The toggles with the umbrella flag of `k` set.
pub open spec fn with_legacy(o: CleaningOptions, k: CategoryKind) -> CleaningOptions {
    match k {
        CategoryKind::SystemIds => CleaningOptions { spoof_system_ids: true, ..o },
        CategoryKind::MacAddress => CleaningOptions { spoof_mac: true, ..o },
        CategoryKind::VolumeId => CleaningOptions { spoof_volume_id: true, ..o },
        CategoryKind::SteamCache => CleaningOptions { clean_steam: true, ..o },
        CategoryKind::AggressiveRegistry => CleaningOptions { clean_aggressive: true, ..o },
    }
}

/// The toggles with the umbrella flag of `k` cleared and every granular flag of
/// `k` set.
pub open spec fn with_all_granular(o: CleaningOptions, k: CategoryKind) -> CleaningOptions {
    match k {
        CategoryKind::SystemIds => CleaningOptions {
            spoof_system_ids: false,
            spoof_machine_guid: true,
            spoof_hw_profile_guid: true,
            spoof_windows_nt_info: true,
            spoof_computer_name: true,
            delete_steam_registry: true,
            spoof_hkcu_keys: true,
            ..o
        },
        CategoryKind::MacAddress => CleaningOptions {
            spoof_mac: false,
            spoof_mac_adapters: true,
            ..o
        },
        CategoryKind::VolumeId => CleaningOptions {
            spoof_volume_id: false,
            spoof_system_volume: true,
            ..o
        },
        CategoryKind::SteamCache => CleaningOptions {
            clean_steam: false,
            stop_steam_processes: true,
            delete_login_files: true,
            delete_sentry_files: true,
            clean_steam_directories: true,
            clean_user_caches: true,
            clean_system_caches: true,
            ..o
        },
        CategoryKind::AggressiveRegistry => CleaningOptions {
            clean_aggressive: false,
            clean_aggressive_keys: true,
            ..o
        },
    }
}

/// Every toggle cleared; only the simulation switch is free.
pub open spec fn nothing_selected(o: CleaningOptions) -> bool {
    &&& !o.spoof_system_ids
    &&& !o.spoof_mac
    &&& !o.spoof_volume_id
    &&& !o.clean_steam
    &&& !o.clean_aggressive
    &&& !any_granular(o)
}

/// Whether any granular flag is set, across all categories.
pub fn has_granular_selection(o: &CleaningOptions) -> (r: bool)
    ensures
        r == any_granular(*o),
{
    o.spoof_machine_guid || o.spoof_hw_profile_guid || o.spoof_windows_nt_info
        || o.spoof_computer_name || o.delete_steam_registry || o.spoof_hkcu_keys
        || o.spoof_mac_adapters || o.spoof_system_volume || o.stop_steam_processes
        || o.delete_login_files || o.delete_sentry_files || o.clean_steam_directories
        || o.clean_user_caches || o.clean_system_caches || o.clean_aggressive_keys
}

/// Turns the toggles into the ordered, duplicate-free list of categories to run.
pub fn resolve(o: &CleaningOptions) -> (plan: Vec<ActionCategory>)
    ensures
        plan@ == resolve_spec(*o),
{
    let mut plan: Vec<ActionCategory> = Vec::new();
    let ids = SystemIdSteps {
        machine_guid: o.spoof_machine_guid,
        hw_profile_guid: o.spoof_hw_profile_guid,
        windows_nt_info: o.spoof_windows_nt_info,
        computer_name: o.spoof_computer_name,
        steam_registry: o.delete_steam_registry,
        hkcu_keys: o.spoof_hkcu_keys,
    };
    let any_ids = ids.machine_guid || ids.hw_profile_guid || ids.windows_nt_info
        || ids.computer_name || ids.steam_registry || ids.hkcu_keys;
    if o.spoof_system_ids {
        let all = SystemIdSteps {
            machine_guid: true,
            hw_profile_guid: true,
            windows_nt_info: true,
            computer_name: true,
            steam_registry: true,
            hkcu_keys: true,
        };
        plan.push(ActionCategory { action: Action::SystemIds(all), dry_run: o.dry_run });
    } else if any_ids {
        plan.push(ActionCategory { action: Action::SystemIds(ids), dry_run: o.dry_run });
    }
    let ghost after_ids = plan@;
    if o.spoof_mac || o.spoof_mac_adapters {
        plan.push(ActionCategory { action: Action::MacAddress, dry_run: o.dry_run });
    }
    let ghost after_mac = plan@;
    if o.spoof_volume_id || o.spoof_system_volume {
        plan.push(ActionCategory { action: Action::VolumeId, dry_run: o.dry_run });
    }
    let ghost after_volume = plan@;
    let steam = SteamCacheSteps {
        stop_processes: o.stop_steam_processes,
        login_files: o.delete_login_files,
        sentry_files: o.delete_sentry_files,
        steam_directories: o.clean_steam_directories,
        user_caches: o.clean_user_caches,
        system_caches: o.clean_system_caches,
    };
    let any_steam = steam.stop_processes || steam.login_files || steam.sentry_files
        || steam.steam_directories || steam.user_caches || steam.system_caches;
    if o.clean_steam {
        let all = SteamCacheSteps {
            stop_processes: true,
            login_files: true,
            sentry_files: true,
            steam_directories: true,
            user_caches: true,
            system_caches: true,
        };
        plan.push(ActionCategory { action: Action::SteamCache(all), dry_run: o.dry_run });
    } else if any_steam {
        plan.push(ActionCategory { action: Action::SteamCache(steam), dry_run: o.dry_run });
    }
    let ghost after_steam = plan@;
    if o.clean_aggressive || o.clean_aggressive_keys {
        plan.push(ActionCategory { action: Action::AggressiveRegistry, dry_run: o.dry_run });
    }
    proof {
        let o = *o;
        assert(after_ids == planned(o, CategoryKind::SystemIds));
        assert(after_mac == after_ids + planned(o, CategoryKind::MacAddress));
        assert(after_volume == after_mac + planned(o, CategoryKind::VolumeId));
        assert(after_steam == after_volume + planned(o, CategoryKind::SteamCache));
        assert(plan@ == after_steam + planned(o, CategoryKind::AggressiveRegistry));
    }
    plan
}

/// Setting the umbrella flag of a category resolves to the same plan as
/// setting every one of that category's granular flags instead.
pub proof fn law_umbrella_equals_all_granular(o: CleaningOptions, k: CategoryKind)
    ensures
        resolve_spec(with_legacy(o, k)) == resolve_spec(with_all_granular(o, k)),
{
    let a = with_legacy(o, k);
    let b = with_all_granular(o, k);
    assert(category_action(a, k) == category_action(b, k));
    assert(planned(a, k) == planned(b, k));
    assert(planned(a, CategoryKind::SystemIds) == planned(b, CategoryKind::SystemIds));
    assert(planned(a, CategoryKind::MacAddress) == planned(b, CategoryKind::MacAddress));
    assert(planned(a, CategoryKind::VolumeId) == planned(b, CategoryKind::VolumeId));
    assert(planned(a, CategoryKind::SteamCache) == planned(b, CategoryKind::SteamCache));
    assert(planned(a, CategoryKind::AggressiveRegistry) == planned(
        b,
        CategoryKind::AggressiveRegistry,
    ));
}

/// With every toggle cleared the plan is empty, whatever the simulation switch.
pub proof fn law_nothing_selected_plans_nothing(o: CleaningOptions)
    requires
        nothing_selected(o),
    ensures
        resolve_spec(o) == Seq::<ActionCategory>::empty(),
{
    assert(resolve_spec(o) =~= Seq::<ActionCategory>::empty());
}

} // verus!
