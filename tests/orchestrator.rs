use steam_cleaner::options::{Action, ActionCategory, CleaningOptions};
use steam_cleaner::orchestrator::{Run, UnitOutcome};
use steam_cleaner::platform::dispatch;
use steam_cleaner::profiles::HardwareProfile;

fn strings(v: &[&str]) -> Vec<String> {
    v.iter().map(|s| s.to_string()).collect()
}

#[test]
fn nothing_selected_in_simulation_gives_three_lines() {
    let mut o = CleaningOptions::default();
    o.dry_run = true;
    let (run, opening) = Run::start(&o);
    assert_eq!(opening, strings(&["--- SIMULATION MODE (DRY RUN) ---"]));
    assert!(run.plan().is_empty());
    let (log, emitted) = run.finish();
    assert_eq!(
        log,
        strings(&[
            "--- SIMULATION MODE (DRY RUN) ---",
            "[Info] No operations selected.",
            "--- END OF SIMULATION ---",
        ])
    );
    assert_eq!(emitted.len(), 2);
}

#[test]
fn nothing_selected_gives_no_operations_and_success_banner() {
    let o = CleaningOptions::default();
    let (run, opening) = Run::start(&o);
    assert!(opening.is_empty());
    let (log, _) = run.finish();
    assert_eq!(
        log,
        strings(&[
            "[Info] No operations selected.",
            "-----------------------------------",
            "[Success] All tasks completed. A restart is recommended.",
        ])
    );
}

#[test]
fn one_failing_unit_leaves_the_others_whole() {
    let mut o = CleaningOptions::default();
    o.spoof_mac = true;
    o.spoof_volume_id = true;
    o.clean_aggressive = true;
    let (mut run, _) = Run::start(&o);
    assert_eq!(run.plan().len(), 3);
    let emitted = run.record(2, UnitOutcome::Completed(strings(&["agg one", "agg two"])));
    assert_eq!(emitted, strings(&["agg one", "agg two"]));
    let emitted = run.record(0, UnitOutcome::Failed("adapter key missing".to_string()));
    assert_eq!(emitted, strings(&["[Error] Error spoofing MAC addresses: adapter key missing"]));
    assert!(!run.is_done(1));
    run.record(1, UnitOutcome::Completed(strings(&["vol one"])));
    assert!(run.is_done(1));
    let (log, _) = run.finish();
    assert_eq!(
        log,
        strings(&[
            "agg one",
            "agg two",
            "[Error] Error spoofing MAC addresses: adapter key missing",
            "vol one",
            "-----------------------------------",
            "[Success] All tasks completed. A restart is recommended.",
        ])
    );
}

#[test]
fn a_crashed_unit_is_named_in_one_line() {
    let mut o = CleaningOptions::default();
    o.clean_steam = true;
    o.spoof_system_ids = true;
    o.dry_run = true;
    let (mut run, _) = Run::start(&o);
    run.record(1, UnitOutcome::Crashed);
    run.record(0, UnitOutcome::Completed(strings(&["ids"])));
    let (log, _) = run.finish();
    assert_eq!(
        log,
        strings(&[
            "--- SIMULATION MODE (DRY RUN) ---",
            "[Error] Critical error in Steam cleaning task.",
            "ids",
            "--- END OF SIMULATION ---",
        ])
    );
}

#[test]
fn units_that_say_nothing_count_as_no_operations() {
    let mut o = CleaningOptions::default();
    o.spoof_mac = true;
    o.dry_run = true;
    let (mut run, _) = Run::start(&o);
    run.record(0, UnitOutcome::Completed(Vec::new()));
    let (log, _) = run.finish();
    assert_eq!(
        log,
        strings(&[
            "--- SIMULATION MODE (DRY RUN) ---",
            "[Info] No operations selected.",
            "--- END OF SIMULATION ---",
        ])
    );
}

#[test]
fn profile_runs_note_absent_units() {
    let (run, opening) = Run::for_profile(0, 2, false);
    assert_eq!(
        opening,
        strings(&["[Info] The profile holds no MAC addresses; skipping MAC re-application."])
    );
    assert_eq!(
        run.plan().clone(),
        vec![ActionCategory { action: Action::RestoreVolumeIds, dry_run: false }]
    );

    let (run, opening) = Run::for_profile(0, 0, true);
    assert_eq!(opening.len(), 3);
    assert!(run.plan().is_empty());
    let (log, _) = run.finish();
    assert_eq!(
        log,
        strings(&[
            "--- SIMULATION MODE (DRY RUN) ---",
            "[Info] The profile holds no MAC addresses; skipping MAC re-application.",
            "[Info] The profile holds no Volume IDs; skipping Volume ID re-application.",
            "--- END OF SIMULATION ---",
        ])
    );
}

#[test]
fn dispatch_runs_the_units_of_a_category() {
    let mut profile = HardwareProfile::new("P".to_string());
    profile.set_volume_id("C".to_string(), "1234-5678".to_string());
    profile.set_volume_id("D".to_string(), "0000-1111".to_string());
    profile.set_volume_id("C".to_string(), "9999-0000".to_string());
    assert_eq!(profile.volume_ids.len(), 2);
    assert_eq!(profile.volume_ids[0].1, "9999-0000");
    let c = ActionCategory { action: Action::AggressiveRegistry, dry_run: true };
    match dispatch(&c, &profile) {
        UnitOutcome::Completed(lines) => assert_eq!(
            lines,
            strings(&[
                "[Dry Run] Would skip Aggressive registry cleaning: it is only supported on Windows.",
            ])
        ),
        other => panic!("unexpected outcome {:?}", other),
    }
    let c = ActionCategory { action: Action::RestoreVolumeIds, dry_run: false };
    match dispatch(&c, &profile) {
        UnitOutcome::Completed(lines) => assert_eq!(lines.len(), 2),
        other => panic!("unexpected outcome {:?}", other),
    }
    let c = ActionCategory { action: Action::MacAddress, dry_run: true };
    match dispatch(&c, &profile) {
        UnitOutcome::Completed(lines) => assert_eq!(
            lines,
            strings(&["[Dry Run] Would skip MAC spoofing: it is only supported on Windows."])
        ),
        other => panic!("unexpected outcome {:?}", other),
    }
}

#[test]
fn block_of_formats_errors() {
    let c = ActionCategory { action: Action::VolumeId, dry_run: false };
    assert_eq!(
        Run::block_of(&c, &UnitOutcome::Failed("tool missing".to_string())),
        strings(&["[Error] Error changing Volume ID: tool missing"])
    );
    assert_eq!(
        Run::block_of(&c, &UnitOutcome::Crashed),
        strings(&["[Error] Critical error in Volume ID task."])
    );
}
