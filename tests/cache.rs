use steam_cleaner::cache::{
    clean_cache_plan, decide, decide_entry, deletion_line, entry_deletion_line, is_sentry_file,
    missing_directory_line, process_outcome_line, CacheEnv, Decision, ProcessOutcome, TargetKind,
};
use steam_cleaner::options::SteamCacheSteps;
use steam_cleaner::redist::Removal;

fn env() -> CacheEnv {
    CacheEnv {
        steam_root: "C:\\Program Files (x86)\\Steam".to_string(),
        local_app_data: "C:\\Users\\u\\AppData\\Local".to_string(),
        app_data: "C:\\Users\\u\\AppData\\Roaming".to_string(),
        user_profile: "C:\\Users\\u".to_string(),
    }
}

fn only(steps: fn(&mut SteamCacheSteps)) -> SteamCacheSteps {
    let mut s = SteamCacheSteps {
        stop_processes: false,
        login_files: false,
        sentry_files: false,
        steam_directories: false,
        user_caches: false,
        system_caches: false,
    };
    steps(&mut s);
    s
}

#[test]
fn stopping_processes_waits_and_restarts_only_for_real() {
    let steps = only(|s| s.stop_processes = true);
    let plan = clean_cache_plan(&steps, &env(), false);
    assert_eq!(plan.len(), 10);
    assert_eq!(plan[0].kind, TargetKind::StopProcess);
    assert_eq!(plan[0].path, "steam.exe");
    assert_eq!(plan[1].path, "explorer.exe");
    assert_eq!(plan[8].kind, TargetKind::GraceWait);
    assert_eq!(plan[9].kind, TargetKind::RestartShell);

    let simulated = clean_cache_plan(&steps, &env(), true);
    assert_eq!(simulated.len(), 8);
    assert!(simulated.iter().all(|t| t.kind == TargetKind::StopProcess));
}

#[test]
fn login_files_sit_under_the_steam_config() {
    let steps = only(|s| s.login_files = true);
    let plan = clean_cache_plan(&steps, &env(), true);
    let paths: Vec<&str> = plan.iter().map(|t| t.path.as_str()).collect();
    assert_eq!(
        paths,
        vec![
            "C:\\Program Files (x86)\\Steam\\config\\loginusers.vdf",
            "C:\\Program Files (x86)\\Steam\\config\\config.vdf",
            "C:\\Program Files (x86)\\Steam\\config\\localconfig.vdf",
            "C:\\Program Files (x86)\\Steam\\config\\SteamAppData.vdf",
        ]
    );
    assert!(plan.iter().all(|t| t.kind == TargetKind::LoginFile));
}

#[test]
fn every_group_contributes_its_targets() {
    let all = only(|s| {
        s.stop_processes = true;
        s.login_files = true;
        s.sentry_files = true;
        s.steam_directories = true;
        s.user_caches = true;
        s.system_caches = true;
    });
    let plan = clean_cache_plan(&all, &env(), false);
    assert_eq!(plan.len(), 8 + 1 + 4 + 1 + 20 + 23 + 8 + 1);
    assert_eq!(plan[13].kind, TargetKind::SentryFiles);
    assert_eq!(plan[13].path, "C:\\Program Files (x86)\\Steam");
    assert_eq!(plan[14].path, "C:\\Program Files (x86)\\Steam\\steamapps\\libraryfolders.vdf");
    assert_eq!(plan[27].path, "C:\\Users\\u\\AppData\\LocalLow\\Valve\\Steam");
    assert_eq!(plan[34].path, "C:\\Users\\u\\AppData\\Local\\D3DSCache");
    let none = only(|_| {});
    assert!(clean_cache_plan(&none, &env(), false).is_empty());
}

fn report(d: Decision) -> String {
    match d {
        Decision::Report(line) => line,
        Decision::Act(_) => panic!("expected a report"),
    }
}

#[test]
fn simulation_only_reports() {
    assert_eq!(
        report(decide(TargetKind::StopProcess, "steam.exe", true, true)),
        "[Process] Would terminate: steam.exe"
    );
    assert_eq!(
        report(decide(TargetKind::Delete, "C:\\x", true, true)),
        "[File/Dir] Would delete: C:\\x"
    );
    assert_eq!(
        report(decide(TargetKind::Delete, "C:\\x", false, false)),
        "[File/Dir] Not found: C:\\x"
    );
    assert_eq!(
        report(decide(TargetKind::LoginFile, "C:\\c.vdf", false, true)),
        "Steam file not found: C:\\c.vdf"
    );
    assert_eq!(
        report(decide_entry("C:\\Temp\\a", true)),
        "[Directory] Would delete contents of: C:\\Temp\\a"
    );
    assert!(matches!(decide(TargetKind::Delete, "C:\\x", true, false), Decision::Act(None)));
    match decide(TargetKind::StopProcess, "steam.exe", true, false) {
        Decision::Act(Some(line)) => assert_eq!(line, "[Process] Terminating: steam.exe"),
        other => panic!("unexpected {:?}", other),
    }
}

#[test]
fn outcomes_are_reported() {
    assert_eq!(
        process_outcome_line("steam.exe", &ProcessOutcome::Refused("no such process".to_string())),
        "[Process] Failed to terminate steam.exe: no such process"
    );
    assert_eq!(
        process_outcome_line("steam.exe", &ProcessOutcome::Terminated),
        "[Process] Terminated: steam.exe"
    );
    assert_eq!(deletion_line("C:\\x", &Removal::Removed), "[File/Dir] Deleted: C:\\x");
    assert_eq!(deletion_line("C:\\x", &Removal::Missing), "[File/Dir] Not found: C:\\x");
    assert_eq!(
        entry_deletion_line("C:\\T\\a", &Removal::Failed("in use".to_string())),
        "[Directory] Failed to delete C:\\T\\a: in use"
    );
    assert_eq!(
        missing_directory_line("C:\\T"),
        "[Directory] Not found or not a directory: C:\\T"
    );
    assert!(is_sentry_file("ssfn1234"));
    assert!(!is_sentry_file("ssf"));
    assert!(!is_sentry_file("config.vdf"));
}
