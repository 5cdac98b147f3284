use vstd::prelude::*;
use crate::redist::Removal;
use crate::steam::{entry_values, join_path, joined, manifest_install_dir};
use crate::text::{views, join2, join3};

verus! {

/// What the scan of one library found.
#[derive(Debug)]
pub struct OrphanScan {
    /// The orphaned folders, as full paths, in the order in which `common` listed them.
    pub orphans: Vec<String>,
    /// The warnings and the report lines of the scan.
    pub lines: Vec<String>,
    /// The folders to delete: none in simulation mode, else every orphan.
    pub to_remove: Vec<String>,
}

/// The lower-case equivalent of a text, as `str::to_lowercase` gives it.
pub uninterp spec fn lower_of(s: Seq<char>) -> Seq<char>;

/// Relies on `str::to_lowercase`: the lower-case equivalent of the text, which
/// depends on the text alone.
#[verifier::external_body]
fn lowercase(s: &str) -> (r: String)
    ensures
        r@ == lower_of(s@),
{
    s.to_lowercase()
}

/// The install directory that one manifest file contributes to the index: none
/// when it could not be read or declares none.
pub open spec fn declared_dir(m: Option<String>) -> Seq<Seq<char>> {
    match m {
        Some(t) => {
            let v = entry_values(t@, "installdir"@);
            if v.len() > 0 {
                seq![v[0]]
            } else {
                Seq::empty()
            }
        },
        None => Seq::empty(),
    }
}

/// The install directories that the manifests of a library declare.
pub open spec fn manifest_index(m: Seq<Option<String>>) -> Seq<Seq<char>>
    decreases m.len(),
{
    if m.len() == 0 {
        Seq::empty()
    } else {
        manifest_index(m.drop_last()) + declared_dir(m.last())
    }
}

/// Each text lower-cased.
pub open spec fn lowered(s: Seq<Seq<char>>) -> Seq<Seq<char>>
    decreases s.len(),
{
    if s.len() == 0 {
        Seq::empty()
    } else {
        lowered(s.drop_last()).push(lower_of(s.last()))
    }
}

/// The folder names whose lower-cased form (`folded`, one per name) the
/// lower-cased index does not hold, in order.
pub open spec fn unlisted(index: Seq<Seq<char>>, names: Seq<Seq<char>>, folded: Seq<Seq<char>>) -> Seq<
    Seq<char>,
>
    decreases names.len(),
{
    if names.len() == 0 || folded.len() != names.len() {
        Seq::empty()
    } else {
        let o = unlisted(index, names.drop_last(), folded.drop_last());
        if index.contains(folded.last()) {
            o
        } else {
            o.push(names.last())
        }
    }
}

pub open spec fn common_dir(library: Seq<char>) -> Seq<char> {
    joined(library, "common"@)
}

pub open spec fn unusable_manifest_line(library: Seq<char>) -> Seq<char> {
    "[Warning] Unusable app manifest in "@ + library
        + "; the folder it installs may be reported as orphaned."@
}

pub open spec fn no_manifest_line(library: Seq<char>) -> Seq<char> {
    "[Warning] No app manifests found in "@ + library
        + "; every folder under 'common' is treated as orphaned."@
}

pub open spec fn orphan_line(path: Seq<char>, dry_run: bool) -> Seq<char> {
    if dry_run {
        "[Dry Run] Would delete orphaned folder: "@ + path
    } else {
        "[Orphan] Orphaned folder: "@ + path
    }
}

/// One warning for each manifest that yields no install directory.
pub open spec fn manifest_warnings(library: Seq<char>, m: Seq<Option<String>>) -> Seq<Seq<char>>
    decreases m.len(),
{
    if m.len() == 0 {
        Seq::empty()
    } else {
        manifest_warnings(library, m.drop_last()) + (if declared_dir(m.last()).len() == 0 {
            seq![unusable_manifest_line(library)]
        } else {
            Seq::empty()
        })
    }
}

/// The warnings of a scan: one per unusable manifest, and the high-risk one
/// when the library has no manifest at all.
pub open spec fn scan_warnings(library: Seq<char>, m: Seq<Option<String>>) -> Seq<Seq<char>> {
    manifest_warnings(library, m) + (if m.len() == 0 {
        seq![no_manifest_line(library)]
    } else {
        Seq::empty()
    })
}

/// Each name as a path under `dir`.
pub open spec fn paths_under(dir: Seq<char>, names: Seq<Seq<char>>) -> Seq<Seq<char>>
    decreases names.len(),
{
    if names.len() == 0 {
        Seq::empty()
    } else {
        paths_under(dir, names.drop_last()).push(joined(dir, names.last()))
    }
}

/// One report line per orphan path.
pub open spec fn orphan_report(paths: Seq<Seq<char>>, dry_run: bool) -> Seq<Seq<char>>
    decreases paths.len(),
{
    if paths.len() == 0 {
        Seq::empty()
    } else {
        orphan_report(paths.drop_last(), dry_run).push(orphan_line(paths.last(), dry_run))
    }
}

/// The full paths of the orphans of a library.
pub open spec fn orphan_paths(
    library: Seq<char>,
    m: Seq<Option<String>>,
    common: Seq<String>,
) -> Seq<Seq<char>> {
    paths_under(
        common_dir(library),
        unlisted(lowered(manifest_index(m)), views(common), lowered(views(common))),
    )
}

/// Sorts out the orphans of a library from lower-cased values: `index` holds
/// the lower-cased install directories that its manifests declare, `names` the
/// folders under its `common` directory and `folded` their lower-cased names,
/// one per folder. A folder is an orphan when the index does not hold its
/// lower-cased name.
pub fn orphans_among(
    library: &str,
    index: &Vec<String>,
    names: &Vec<String>,
    folded: &Vec<String>,
    dry_run: bool,
) -> (r: OrphanScan)
    requires
        folded@.len() == names@.len(),
    ensures
        ({
            let paths = paths_under(
                common_dir(library@),
                unlisted(views(index@), views(names@), views(folded@)),
            );
            &&& views(r.orphans@) == paths
            &&& views(r.lines@) == orphan_report(paths, dry_run)
            &&& views(r.to_remove@) == if dry_run {
                Seq::empty()
            } else {
                paths
            }
        }),
{
    let mut scan = OrphanScan { orphans: Vec::new(), lines: Vec::new(), to_remove: Vec::new() };
    let base = join_path(library, "common");
    let ghost idx = views(index@);
    let mut j: usize = 0;
    proof {
        assert(views(scan.lines@) =~= Seq::<Seq<char>>::empty());
        assert(views(scan.to_remove@) =~= Seq::<Seq<char>>::empty());
        assert(views(names@).take(0) =~= Seq::<Seq<char>>::empty());
    }
    while j < names.len()
        invariant
            j <= names@.len(),
            folded@.len() == names@.len(),
            base@ == common_dir(library@),
            idx == views(index@),
            views(scan.orphans@) == paths_under(
                common_dir(library@),
                unlisted(idx, views(names@).take(j as int), views(folded@).take(j as int)),
            ),
            views(scan.lines@) == orphan_report(views(scan.orphans@), dry_run),
            views(scan.to_remove@) == if dry_run {
                Seq::empty()
            } else {
                views(scan.orphans@)
            },
        decreases names@.len() - j,
    {
        let mut found = false;
        let mut k: usize = 0;
        while k < index.len()
            invariant
                k <= index@.len(),
                j < folded@.len(),
                idx == views(index@),
                found == exists|m: int| 0 <= m < k && #[trigger] idx[m] == folded@[j as int]@,
            decreases index@.len() - k,
        {
            if index[k] == folded[j] {
                found = true;
            }
            assert(idx[k as int] == index@[k as int]@);
            k = k + 1;
        }
        let ghost tn = views(names@).take(j + 1);
        let ghost tf = views(folded@).take(j + 1);
        proof {
            assert(tn.drop_last() =~= views(names@).take(j as int));
            assert(tf.drop_last() =~= views(folded@).take(j as int));
            assert(tn.last() == names@[j as int]@);
            assert(tf.last() == folded@[j as int]@);
            if found {
                let m = choose|m: int| 0 <= m < k && #[trigger] idx[m] == folded@[j as int]@;
                assert(idx.contains(tf.last()));
            } else {
                assert(!idx.contains(tf.last()));
            }
        }
        if !found {
            let path = join_path(base.as_str(), names[j].as_str());
            let line = if dry_run {
                join2("[Dry Run] Would delete orphaned folder: ", path.as_str())
            } else {
                join2("[Orphan] Orphaned folder: ", path.as_str())
            };
            proof {
                assert(path@ == joined(common_dir(library@), names@[j as int]@));
                assert(line@ == orphan_line(path@, dry_run));
            }
            let ghost prev_orphans = views(scan.orphans@);
            let ghost prev_lines = views(scan.lines@);
            let ghost prev_remove = views(scan.to_remove@);
            if !dry_run {
                scan.to_remove.push(path.clone());
            }
            scan.orphans.push(path);
            scan.lines.push(line);
            proof {
                let on = unlisted(idx, views(names@).take(j as int), views(folded@).take(j as int));
                assert(unlisted(idx, tn, tf) == on.push(names@[j as int]@));
                assert(on.push(names@[j as int]@).drop_last() =~= on);
                assert(views(scan.orphans@) =~= prev_orphans.push(path@));
                assert(views(scan.orphans@).drop_last() =~= prev_orphans);
                assert(views(scan.lines@) =~= prev_lines.push(line@));
                if !dry_run {
                    assert(views(scan.to_remove@) =~= prev_remove.push(path@));
                }
            }
        } else {
            proof {
                assert(unlisted(idx, tn, tf) == unlisted(
                    idx,
                    views(names@).take(j as int),
                    views(folded@).take(j as int),
                ));
            }
        }
        j = j + 1;
    }
    proof {
        assert(views(names@).take(names@.len() as int) =~= views(names@));
        assert(views(folded@).take(folded@.len() as int) =~= views(folded@));
    }
    scan
}

/// Finds the orphaned game folders of one library: the folders under its
/// `common` directory whose lower-cased name is not among the lower-cased
/// install directories that its app manifests declare. `manifests` holds the
/// text of each manifest file (`None` for one that could not be read);
/// `common` the names of the folders under `common`, or `None` where the
/// library has no such directory, which then contributes nothing. A library
/// without any manifest gets an explicit high-risk warning, since every folder
/// of it is then reported.
pub fn find_orphans(
    library: &str,
    manifests: &Vec<Option<String>>,
    common: Option<&Vec<String>>,
    dry_run: bool,
) -> (r: OrphanScan)
    ensures
        common is None ==> r.orphans@.len() == 0 && r.lines@.len() == 0 && r.to_remove@.len()
            == 0,
        common matches Some(c) ==> {
            let paths = orphan_paths(library@, manifests@, c@);
            &&& views(r.orphans@) == paths
            &&& views(r.lines@) == scan_warnings(library@, manifests@) + orphan_report(
                paths,
                dry_run,
            )
            &&& views(r.to_remove@) == if dry_run {
                Seq::empty()
            } else {
                paths
            }
        },
{
    let names = match common {
        None => {
            return OrphanScan { orphans: Vec::new(), lines: Vec::new(), to_remove: Vec::new() };
        },
        Some(c) => c,
    };
    let mut lines: Vec<String> = Vec::new();
    let mut index: Vec<String> = Vec::new();
    let mut i: usize = 0;
    while i < manifests.len()
        invariant
            i <= manifests@.len(),
            views(index@) == lowered(manifest_index(manifests@.take(i as int))),
            views(lines@) == manifest_warnings(library@, manifests@.take(i as int)),
        decreases manifests@.len() - i,
    {
        let ghost prev_index = views(index@);
        let ghost prev_lines = views(lines@);
        let dir = match &manifests[i] {
            Some(t) => manifest_install_dir(t.as_str()),
            None => None,
        };
        proof {
            assert(manifests@.take(i + 1).drop_last() =~= manifests@.take(i as int));
            assert(manifests@.take(i + 1).last() == manifests@[i as int]);
        }
        match dir {
            Some(d) => {
                let low = lowercase(d.as_str());
                index.push(low);
                proof {
                    let before = manifest_index(manifests@.take(i as int));
                    assert(manifest_index(manifests@.take(i + 1)) == before + seq![d@]);
                    assert((before + seq![d@]).drop_last() =~= before);
                    assert(views(index@) =~= prev_index.push(low@));
                }
            },
            None => {
                lines.push(
                    join3(
                        "[Warning] Unusable app manifest in ",
                        library,
                        "; the folder it installs may be reported as orphaned.",
                    ),
                );
                proof {
                    let before = manifest_index(manifests@.take(i as int));
                    assert(manifest_index(manifests@.take(i + 1)) =~= before);
                    assert(views(lines@) =~= prev_lines + seq![unusable_manifest_line(library@)]);
                }
            },
        }
        i = i + 1;
    }
    proof {
        assert(manifests@.take(manifests@.len() as int) =~= manifests@);
    }
    if manifests.len() == 0 {
        let ghost prev_lines = views(lines@);
        lines.push(
            join3(
                "[Warning] No app manifests found in ",
                library,
                "; every folder under 'common' is treated as orphaned.",
            ),
        );
        assert(views(lines@) =~= prev_lines + seq![no_manifest_line(library@)]);
    } else {
        assert(views(lines@) =~= views(lines@) + Seq::<Seq<char>>::empty());
    }
    let mut folded: Vec<String> = Vec::new();
    let mut j: usize = 0;
    while j < names.len()
        invariant
            j <= names@.len(),
            views(folded@) == lowered(views(names@).take(j as int)),
        decreases names@.len() - j,
    {
        let ghost prev = views(folded@);
        let low = lowercase(names[j].as_str());
        folded.push(low);
        proof {
            assert(views(names@).take(j + 1).drop_last() =~= views(names@).take(j as int));
            assert(views(folded@) =~= prev.push(low@));
        }
        j = j + 1;
    }
    proof {
        assert(views(names@).take(names@.len() as int) =~= views(names@));
        assert(views(folded@).len() == names@.len()) by {
            lemma_lowered_len(views(names@));
        }
    }
    let found = orphans_among(library, &index, names, &folded, dry_run);
    let ghost head = views(lines@);
    let mut report = found.lines;
    let ghost tail = views(report@);
    lines.append(&mut report);
    assert(views(lines@) =~= head + tail);
    OrphanScan { orphans: found.orphans, lines, to_remove: found.to_remove }
}

proof fn lemma_lowered_len(s: Seq<Seq<char>>)
    ensures
        lowered(s).len() == s.len(),
    decreases s.len(),
{
    if s.len() > 0 {
        lemma_lowered_len(s.drop_last());
    }
}

pub open spec fn orphan_removal_text(path: Seq<char>, outcome: Removal) -> Seq<char> {
    match outcome {
        Removal::Removed => "[Orphan] Deleted: "@ + path,
        Removal::Missing => "[Orphan] Not found (already removed): "@ + path,
        Removal::Failed(e) => "[Orphan] Failed to delete "@ + path + ": "@ + e@,
    }
}

/// The line that reports what deleting an orphaned folder came to. A folder
/// that is gone already is reported as not found, which is no failure.
pub fn orphan_removal_line(path: &str, outcome: &Removal) -> (r: String)
    ensures
        r@ == orphan_removal_text(path@, *outcome),
{
    match outcome {
        Removal::Removed => join2("[Orphan] Deleted: ", path),
        Removal::Missing => join2("[Orphan] Not found (already removed): ", path),
        Removal::Failed(e) => {
            let mut line = join3("[Orphan] Failed to delete ", path, ": ");
            line.append(e.as_str());
            line
        },
    }
}

} // verus!
