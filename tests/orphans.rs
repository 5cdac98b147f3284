use steam_cleaner::orphans::{find_orphans, orphans_among};

fn manifest(dir: &str) -> Option<String> {
    Some(format!(
        "\"AppState\"\n{{\n\t\"appid\"\t\t\"10\"\n\t\"installdir\"\t\t\"{}\"\n}}\n",
        dir
    ))
}

fn names(v: &[&str]) -> Vec<String> {
    v.iter().map(|s| s.to_string()).collect()
}

#[test]
fn only_the_undeclared_folder_is_orphaned() {
    let manifests = vec![manifest("GameA"), manifest("gameb")];
    let common = names(&["GameA", "GameB", "GameC"]);
    let scan = find_orphans("C:\\Steam\\steamapps", &manifests, Some(&common), false);
    assert_eq!(scan.orphans, names(&["C:\\Steam\\steamapps\\common\\GameC"]));
    assert_eq!(scan.to_remove, scan.orphans);
    assert_eq!(
        scan.lines,
        names(&["[Orphan] Orphaned folder: C:\\Steam\\steamapps\\common\\GameC"])
    );
}

#[test]
fn no_manifests_flags_every_folder_with_a_warning() {
    let common = names(&["X", "Y"]);
    let scan = find_orphans("/games/steamapps", &Vec::new(), Some(&common), true);
    assert_eq!(
        scan.orphans,
        names(&["/games/steamapps/common/X", "/games/steamapps/common/Y"])
    );
    assert!(scan.to_remove.is_empty());
    assert_eq!(
        scan.lines,
        names(&[
            "[Warning] No app manifests found in /games/steamapps; every folder under 'common' is treated as orphaned.",
            "[Dry Run] Would delete orphaned folder: /games/steamapps/common/X",
            "[Dry Run] Would delete orphaned folder: /games/steamapps/common/Y",
        ])
    );
}

#[test]
fn library_without_common_contributes_nothing() {
    let manifests = vec![manifest("GameA")];
    let scan = find_orphans("/games/steamapps", &manifests, None, false);
    assert!(scan.orphans.is_empty());
    assert!(scan.lines.is_empty());
    assert!(scan.to_remove.is_empty());
}

#[test]
fn unreadable_manifest_is_warned_about() {
    let manifests = vec![None, manifest("GameA"), Some("\"AppState\" { }".to_string())];
    let common = names(&["GameA", "GameB"]);
    let scan = find_orphans("/lib", &manifests, Some(&common), false);
    assert_eq!(scan.orphans, names(&["/lib/common/GameB"]));
    assert_eq!(
        scan.lines,
        names(&[
            "[Warning] Unusable app manifest in /lib; the folder it installs may be reported as orphaned.",
            "[Warning] Unusable app manifest in /lib; the folder it installs may be reported as orphaned.",
            "[Orphan] Orphaned folder: /lib/common/GameB",
        ])
    );
}

#[test]
fn names_are_compared_lower_cased() {
    let manifests = vec![manifest("GAMEA"), manifest("\u{e9}t\u{e9}")];
    let common = names(&["gamea", "\u{c9}T\u{c9}", "Other"]);
    let scan = find_orphans("/lib", &manifests, Some(&common), true);
    assert_eq!(scan.orphans, names(&["/lib/common/Other"]));
    assert_eq!(scan.lines, names(&["[Dry Run] Would delete orphaned folder: /lib/common/Other"]));
}

#[test]
fn orphans_among_uses_the_lowered_values_given() {
    let index = names(&["gamea"]);
    let common = names(&["GameA", "GameB"]);
    let folded = names(&["gamea", "gameb"]);
    let scan = orphans_among("C:\\S\\steamapps", &index, &common, &folded, false);
    assert_eq!(scan.orphans, names(&["C:\\S\\steamapps\\common\\GameB"]));
    assert_eq!(scan.to_remove, scan.orphans);
    assert_eq!(
        scan.lines,
        names(&["[Orphan] Orphaned folder: C:\\S\\steamapps\\common\\GameB"])
    );
}
