use steam_cleaner::redist::{
    classify, clean_redistributables, file_name, format_size, removal_line, scan_redistributables,
    CleanStep, FileEntry, RedistCategory, RedistItem, Removal,
};
use steam_cleaner::redist_view::RedistViewState;

fn paths(v: &[&str]) -> Vec<String> {
    v.iter().map(|s| s.to_string()).collect()
}

fn all_categories() -> Vec<RedistCategory> {
    vec![
        RedistCategory::CommonRedist,
        RedistCategory::DirectX,
        RedistCategory::DotNet,
        RedistCategory::VCRedist,
        RedistCategory::Installers,
    ]
}

#[test]
fn nested_match_is_suppressed_but_counted_in_size() {
    let dirs = paths(&[
        "L/common/GameX",
        "L/common/GameX/_CommonRedist",
        "L/common/GameX/_CommonRedist/Redist",
    ]);
    let files = vec![
        FileEntry { path: "L/common/GameX/game.exe".to_string(), size: 7 },
        FileEntry { path: "L/common/GameX/_CommonRedist/a.bin".to_string(), size: 100 },
        FileEntry { path: "L/common/GameX/_CommonRedist/Redist/b.bin".to_string(), size: 50 },
    ];
    let items = scan_redistributables(&dirs, &files, &all_categories());
    assert_eq!(items.len(), 1);
    assert_eq!(items[0].path, "L/common/GameX/_CommonRedist");
    assert_eq!(items[0].category, RedistCategory::CommonRedist);
    assert_eq!(items[0].size, 150);
}

#[test]
fn suppression_keeps_the_topmost_whatever_the_order() {
    let dirs = paths(&[
        "L/common/GameX/_CommonRedist/Redist",
        "L/common/GameX/_CommonRedist",
        "L/common/GameX/_CommonRedist",
    ]);
    let files = vec![FileEntry { path: "L/common/GameX/_CommonRedist/Redist/b.bin".to_string(), size: 5 }];
    let items = scan_redistributables(&dirs, &files, &all_categories());
    assert_eq!(items.len(), 1);
    assert_eq!(items[0].path, "L/common/GameX/_CommonRedist");
    assert_eq!(items[0].size, 5);
}

#[test]
fn inactive_categories_and_sibling_prefixes_are_kept_apart() {
    let dirs = paths(&[
        "L\\common\\G\\DirectX",
        "L\\common\\G\\DirectXExtra\\vcredist",
        "L\\common\\G\\Support",
    ]);
    let files = vec![
        FileEntry { path: "L\\common\\G\\DirectX\\dx.cab".to_string(), size: 10 },
        FileEntry { path: "L\\common\\G\\DirectXExtra\\vcredist\\vc.exe".to_string(), size: 20 },
    ];
    let active = vec![RedistCategory::DirectX, RedistCategory::VCRedist];
    let items = scan_redistributables(&dirs, &files, &active);
    assert_eq!(items.len(), 2);
    assert_eq!(items[0].path, "L\\common\\G\\DirectX");
    assert_eq!(items[0].size, 10);
    assert_eq!(items[1].path, "L\\common\\G\\DirectXExtra\\vcredist");
    assert_eq!(items[1].category, RedistCategory::VCRedist);
    assert_eq!(items[1].size, 20);
}

#[test]
fn folder_names_are_classified_in_any_case() {
    assert_eq!(classify("_commonredist"), Some(RedistCategory::CommonRedist));
    assert_eq!(classify("DXREDIST"), Some(RedistCategory::DirectX));
    assert_eq!(classify("Microsoft.NET Framework 4"), Some(RedistCategory::DotNet));
    assert_eq!(classify("microsoft.net"), None);
    assert_eq!(classify("VcRedist"), Some(RedistCategory::VCRedist));
    assert_eq!(classify("prereq"), Some(RedistCategory::Installers));
    assert_eq!(classify("Saves"), None);
    assert_eq!(file_name("a/b\\_CommonRedist"), "_CommonRedist");
    assert_eq!(file_name("a/b/"), "");
}

#[test]
fn sizes_are_formatted_with_two_decimals() {
    assert_eq!(format_size(0), "0 B");
    assert_eq!(format_size(512), "512 B");
    assert_eq!(format_size(1023), "1023 B");
    assert_eq!(format_size(1024), "1.00 KB");
    assert_eq!(format_size(1536), "1.50 KB");
    assert_eq!(format_size(1152), "1.12 KB");
    assert_eq!(format_size(1048576), "1.00 MB");
    assert_eq!(format_size(1610612736), "1.50 GB");
    assert_eq!(format_size(u64::MAX), "17179869184.00 GB");
}

#[test]
fn cleaning_twice_reports_not_found() {
    let item = RedistItem {
        path: "L/common/G/_CommonRedist".to_string(),
        category: RedistCategory::CommonRedist,
        size: 2048,
    };
    assert_eq!(removal_line(&item, &Removal::Removed), "Deleted: L/common/G/_CommonRedist (2.00 KB)");
    let first = removal_line(&item, &Removal::Missing);
    let second = removal_line(&item, &Removal::Missing);
    assert_eq!(first, "Not found (already removed): L/common/G/_CommonRedist");
    assert_eq!(second, first);
    assert_eq!(
        removal_line(&item, &Removal::Failed("access denied".to_string())),
        "Failed to delete L/common/G/_CommonRedist: access denied"
    );
}

#[test]
fn clean_plan_deletes_nothing_in_simulation() {
    let items = vec![RedistItem {
        path: "L/common/G/DirectX".to_string(),
        category: RedistCategory::DirectX,
        size: 1536,
    }];
    let steps = clean_redistributables(&items, true);
    assert_eq!(steps.len(), 1);
    match &steps[0] {
        CleanStep::Report(line) => {
            assert_eq!(line, "[Dry Run] Would delete directory: L/common/G/DirectX (1.50 KB)")
        }
        CleanStep::Remove(_) => panic!("simulation must not delete"),
    }
    let steps = clean_redistributables(&items, false);
    assert!(matches!(steps[0], CleanStep::Remove(0)));
}

#[test]
fn categories_describe_themselves() {
    assert_eq!(RedistCategory::DotNet.description(), ".NET Framework Installers");
    assert_eq!(
        RedistCategory::Installers.description(),
        "Other Installers (Support, Redist, Prereq)"
    );
}

#[test]
fn view_state_lists_the_chosen_categories() {
    let mut state = RedistViewState::default();
    assert_eq!(
        state.get_active_categories(),
        vec![
            RedistCategory::CommonRedist,
            RedistCategory::DirectX,
            RedistCategory::DotNet,
            RedistCategory::VCRedist,
        ]
    );
    state.category_directx = false;
    state.category_installers = true;
    assert_eq!(
        state.get_active_categories(),
        vec![
            RedistCategory::CommonRedist,
            RedistCategory::DotNet,
            RedistCategory::VCRedist,
            RedistCategory::Installers,
        ]
    );
}
