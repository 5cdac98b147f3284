use vstd::prelude::*;
use crate::steam::{chars_of, eq_ignore_ascii_case, same_folded};
use crate::text::{views, join2, join3, decimal, digit_text, digits, digit_char};

verus! {

/// The kinds of redistributable folder that a scan looks for.
#[derive(Debug, Clone, Copy, PartialEq, Eq, Structural)]
pub enum RedistCategory {
    CommonRedist,
    DirectX,
    DotNet,
    VCRedist,
    Installers,
}

/// A folder that a scan accepted, with the bytes of the files under it.
#[derive(Debug)]
pub struct RedistItem {
    pub path: String,
    pub category: RedistCategory,
    pub size: u64,
}

/// A file met by the walk of a game folder, with its length in bytes.
#[derive(Debug)]
pub struct FileEntry {
    pub path: String,
    pub size: u64,
}

/// One step of cleaning a list of accepted folders.
#[derive(Debug)]
pub enum CleanStep {
    /// Report this line; nothing is deleted.
    Report(String),
    /// Delete the folder of the item with this index, if it is still there.
    Remove(usize),
}

/// What deleting one folder came to.
#[derive(Debug)]
pub enum Removal {
    Removed,
    /// The folder was gone already, for instance with a folder that held it.
    Missing,
    Failed(String),
}

pub open spec fn description_text(c: RedistCategory) -> Seq<char> {
    match c {
        RedistCategory::CommonRedist => "Common Redistributables (_CommonRedist)"@,
        RedistCategory::DirectX => "DirectX Installers"@,
        RedistCategory::DotNet => ".NET Framework Installers"@,
        RedistCategory::VCRedist => "Visual C++ Redistributables"@,
        RedistCategory::Installers => "Other Installers (Support, Redist, Prereq)"@,
    }
}

impl RedistCategory {
    /// A description of the category for people.
    pub fn description(&self) -> (r: &'static str)
        ensures
            r@ == description_text(*self),
    {
        match self {
            RedistCategory::CommonRedist => "Common Redistributables (_CommonRedist)",
            RedistCategory::DirectX => "DirectX Installers",
            RedistCategory::DotNet => ".NET Framework Installers",
            RedistCategory::VCRedist => "Visual C++ Redistributables",
            RedistCategory::Installers => "Other Installers (Support, Redist, Prereq)",
        }
    }
}

pub open spec fn is_separator(c: char) -> bool {
    c == '/' || c == '\\'
}

/// The last component of a path: what follows its last separator.
pub open spec fn last_component(p: Seq<char>) -> Seq<char>
    decreases p.len(),
{
    if p.len() == 0 || is_separator(p.last()) {
        Seq::empty()
    } else {
        last_component(p.drop_last()).push(p.last())
    }
}

/// Whether the path `p` lies strictly inside the directory `a`.
pub open spec fn is_under(p: Seq<char>, a: Seq<char>) -> bool {
    &&& a.len() < p.len()
    &&& p.subrange(0, a.len() as int) == a
    &&& is_separator(p[a.len() as int])
}

/// The category that a folder name stands for, if any.
pub open spec fn category_of(name: Seq<char>) -> Option<RedistCategory> {
    if same_folded(name, "_CommonRedist"@) {
        Some(RedistCategory::CommonRedist)
    } else if same_folded(name, "DirectX"@) || same_folded(name, "DXRedist"@) || same_folded(
        name,
        "DirectX9"@,
    ) {
        Some(RedistCategory::DirectX)
    } else if same_folded(name, "DotNet"@) || (name.len() >= 13 && name.subrange(0, 13)
        == "Microsoft.NET"@) {
        Some(RedistCategory::DotNet)
    } else if same_folded(name, "VCRedist"@) {
        Some(RedistCategory::VCRedist)
    } else if same_folded(name, "Installers"@) || same_folded(name, "Support"@) || same_folded(
        name,
        "Redist"@,
    ) || same_folded(name, "Prereq"@) {
        Some(RedistCategory::Installers)
    } else {
        None
    }
}

/// The category of a folder of the walk when its name stands for an active
/// category.
pub open spec fn match_of(d: Seq<char>, active: Seq<RedistCategory>) -> Option<RedistCategory> {
    match category_of(last_component(d)) {
        Some(c) => if active.contains(c) {
            Some(c)
        } else {
            None
        },
        None => None,
    }
}

/// Whether the path lies inside a matching folder of the walk.
pub open spec fn covered(p: Seq<char>, dirs: Seq<Seq<char>>, active: Seq<RedistCategory>) -> bool {
    exists|k: int|
        0 <= k < dirs.len() && match_of(dirs[k], active) is Some && is_under(p, #[trigger] dirs[k])
}

/// Whether a path is among the accepted ones already.
pub open spec fn listed_before(p: Seq<char>, acc: Seq<(Seq<char>, RedistCategory)>) -> bool {
    exists|m: int| 0 <= m < acc.len() && #[trigger] acc[m].0 == p
}

/// The folders accepted among the first `n` of the walk.
pub open spec fn kept(dirs: Seq<Seq<char>>, active: Seq<RedistCategory>, n: int) -> Seq<
    (Seq<char>, RedistCategory),
>
    decreases n,
{
    if n <= 0 || n > dirs.len() {
        Seq::empty()
    } else {
        let acc = kept(dirs, active, n - 1);
        let d = dirs[n - 1];
        if match_of(d, active) is Some && !covered(d, dirs, active) && !listed_before(d, acc) {
            acc.push((d, match_of(d, active)->Some_0))
        } else {
            acc
        }
    }
}

/// The folders that a scan accepts, in walk order, each once: every folder
/// whose name stands for an active category and that lies inside no other such
/// folder of the walk. Of nested matches only the topmost is kept, whatever the
/// order of the walk.
pub open spec fn accepted(dirs: Seq<Seq<char>>, active: Seq<RedistCategory>) -> Seq<
    (Seq<char>, RedistCategory),
> {
    kept(dirs, active, dirs.len() as int)
}

/// The bytes of the files that lie inside the folder `a`.
pub open spec fn bytes_under(files: Seq<FileEntry>, a: Seq<char>) -> nat
    decreases files.len(),
{
    if files.len() == 0 {
        0
    } else {
        bytes_under(files.drop_last(), a) + if is_under(files.last().path@, a) {
            files.last().size as nat
        } else {
            0
        }
    }
}

/// A byte count as it fits in 64 bits.
pub open spec fn capped(n: nat) -> u64 {
    if n > u64::MAX {
        u64::MAX
    } else {
        n as u64
    }
}

fn is_sep(c: char) -> (r: bool)
    ensures
        r == is_separator(c),
{
    c == '/' || c == '\\'
}

/// The last component of a path.
pub fn file_name(p: &str) -> (r: String)
    ensures
        r@ == last_component(p@),
{
    let c = chars_of(p);
    let n = c.len();
    let mut start = n;
    proof {
        assert(p@.subrange(0, n as int) =~= p@);
        assert(last_component(p@) =~= last_component(p@) + p@.subrange(n as int, n as int));
    }
    while start > 0 && !is_sep(c[start - 1])
        invariant
            start <= n,
            n == p@.len(),
            c@ == p@,
            last_component(p@) == last_component(p@.subrange(0, start as int)) + p@.subrange(
                start as int,
                n as int,
            ),
        decreases start,
    {
        proof {
            let q = p@.subrange(0, start as int);
            assert(q.drop_last() =~= p@.subrange(0, start - 1));
            assert(p@.subrange(start - 1, n as int) =~= seq![q.last()] + p@.subrange(
                start as int,
                n as int,
            ));
            assert(last_component(q) =~= last_component(q.drop_last()).push(q.last()));
        }
        start = start - 1;
    }
    proof {
        let q = p@.subrange(0, start as int);
        assert(last_component(q) =~= Seq::<char>::empty());
    }
    let r = p.substring_char(start, n).to_owned();
    assert(r@ =~= last_component(p@));
    r
}

fn starts_with_dotnet(name: &Vec<char>) -> (r: bool)
    ensures
        r == (name@.len() >= 13 && name@.subrange(0, 13) == "Microsoft.NET"@),
{
    let prefix = chars_of("Microsoft.NET");
    proof {
        reveal_strlit("Microsoft.NET");
    }
    if name.len() < 13 {
        return false;
    }
    let mut i: usize = 0;
    while i < 13
        invariant
            name@.len() >= 13,
            prefix@ == "Microsoft.NET"@,
            prefix@.len() == 13,
            i <= 13,
            forall|k: int| 0 <= k < i ==> name@[k] == prefix@[k],
        decreases 13 - i,
    {
        if name[i] != prefix[i] {
            assert(name@.subrange(0, 13)[i as int] != prefix@[i as int]);
            return false;
        }
        i = i + 1;
    }
    assert(name@.subrange(0, 13) =~= prefix@);
    true
}

fn named(name: &Vec<char>, s: &str) -> (r: bool)
    ensures
        r == same_folded(name@, s@),
{
    let t = chars_of(s);
    eq_ignore_ascii_case(name, &t)
}

/// The category that a folder name stands for: names are compared in any
/// ASCII case, but for the `Microsoft.NET` prefix.
pub fn classify(name: &str) -> (r: Option<RedistCategory>)
    ensures
        r == category_of(name@),
{
    let n = chars_of(name);
    if named(&n, "_CommonRedist") {
        Some(RedistCategory::CommonRedist)
    } else if named(&n, "DirectX") || named(&n, "DXRedist") || named(&n, "DirectX9") {
        Some(RedistCategory::DirectX)
    } else if named(&n, "DotNet") || starts_with_dotnet(&n) {
        Some(RedistCategory::DotNet)
    } else if named(&n, "VCRedist") {
        Some(RedistCategory::VCRedist)
    } else if named(&n, "Installers") || named(&n, "Support") || named(&n, "Redist") || named(
        &n,
        "Prereq",
    ) {
        Some(RedistCategory::Installers)
    } else {
        None
    }
}

/// Whether the path `p` lies strictly inside the directory `a`.
pub fn path_is_under(p: &Vec<char>, a: &Vec<char>) -> (r: bool)
    ensures
        r == is_under(p@, a@),
{
    if a.len() >= p.len() {
        return false;
    }
    let mut i: usize = 0;
    while i < a.len()
        invariant
            a@.len() < p@.len(),
            i <= a@.len(),
            forall|k: int| 0 <= k < i ==> p@[k] == a@[k],
        decreases a@.len() - i,
    {
        if p[i] != a[i] {
            assert(p@.subrange(0, a@.len() as int)[i as int] != a@[i as int]);
            return false;
        }
        i = i + 1;
    }
    assert(p@.subrange(0, a@.len() as int) =~= a@);
    is_sep(p[a.len()])
}

fn is_active(active: &Vec<RedistCategory>, c: RedistCategory) -> (r: bool)
    ensures
        r == active@.contains(c),
{
    let mut i: usize = 0;
    while i < active.len()
        invariant
            i <= active@.len(),
            forall|k: int| 0 <= k < i ==> active@[k] != c,
        decreases active@.len() - i,
    {
        if active[i] == c {
            return true;
        }
        i = i + 1;
    }
    false
}

/// The bytes of the files that lie inside `dir`, capped at the largest `u64`.
pub fn size_under(files: &Vec<FileEntry>, dir: &Vec<char>) -> (r: u64)
    ensures
        r == capped(bytes_under(files@, dir@)),
{
    let mut total: u64 = 0;
    let mut i: usize = 0;
    while i < files.len()
        invariant
            i <= files@.len(),
            total == capped(bytes_under(files@.take(i as int), dir@)),
        decreases files@.len() - i,
    {
        proof {
            assert(files@.take(i + 1).drop_last() =~= files@.take(i as int));
        }
        let p = chars_of(files[i].path.as_str());
        if path_is_under(&p, dir) {
            let s = files[i].size;
            if total > u64::MAX - s {
                total = u64::MAX;
            } else {
                total = total + s;
            }
        }
        i = i + 1;
    }
    assert(files@.take(files@.len() as int) =~= files@);
    total
}

/// Scans the walk of the game folders of the libraries: `dirs` holds the
/// folders met, in walk order (the walk stays within a fixed depth); `files`
/// the files under them with their lengths. A folder is accepted, once, when
/// its name stands for one of the `active` categories and it lies inside no
/// other such folder of the walk; its size counts every file inside it, nested
/// folders included.
pub fn scan_redistributables(
    dirs: &Vec<String>,
    files: &Vec<FileEntry>,
    active: &Vec<RedistCategory>,
) -> (r: Vec<RedistItem>)
    ensures
        r@.len() == accepted(views(dirs@), active@).len(),
        forall|i: int|
            0 <= i < r@.len() ==> {
                let (p, c) = #[trigger] accepted(views(dirs@), active@)[i];
                &&& r@[i].path@ == p
                &&& r@[i].category == c
                &&& r@[i].size == capped(bytes_under(files@, p))
            },
{
    let ghost dv = views(dirs@);
    let mut pc: Vec<Vec<char>> = Vec::new();
    let mut cats: Vec<Option<RedistCategory>> = Vec::new();
    let mut i: usize = 0;
    while i < dirs.len()
        invariant
            i <= dirs@.len(),
            dv == views(dirs@),
            pc@.len() == i,
            cats@.len() == i,
            forall|k: int| 0 <= k < i ==> #[trigger] pc@[k]@ == dv[k],
            forall|k: int| 0 <= k < i ==> #[trigger] cats@[k] == match_of(dv[k], active@),
        decreases dirs@.len() - i,
    {
        let name = file_name(dirs[i].as_str());
        let m = match classify(name.as_str()) {
            Some(c) => if is_active(active, c) {
                Some(c)
            } else {
                None
            },
            None => None,
        };
        pc.push(chars_of(dirs[i].as_str()));
        cats.push(m);
        assert(dv[i as int] == dirs@[i as int]@);
        i = i + 1;
    }
    let mut found: Vec<(Vec<char>, RedistCategory)> = Vec::new();
    let mut origin: Vec<usize> = Vec::new();
    let mut i: usize = 0;
    while i < dirs.len()
        invariant
            i <= dirs@.len(),
            dv == views(dirs@),
            pc@.len() == dirs@.len(),
            cats@.len() == dirs@.len(),
            forall|k: int| 0 <= k < dirs@.len() ==> #[trigger] pc@[k]@ == dv[k],
            forall|k: int| 0 <= k < dirs@.len() ==> #[trigger] cats@[k] == match_of(dv[k], active@),
            found@.map_values(|e: (Vec<char>, RedistCategory)| (e.0@, e.1)) == kept(
                dv,
                active@,
                i as int,
            ),
            origin@.len() == found@.len(),
            forall|m: int|
                0 <= m < origin@.len() ==> #[trigger] origin@[m] < dirs@.len() && dirs@[origin@[m] as int]@
                    == found@[m].0@,
        decreases dirs@.len() - i,
    {
        let ghost acc = found@.map_values(|e: (Vec<char>, RedistCategory)| (e.0@, e.1));
        let ghost d = dv[i as int];
        if let Some(c) = cats[i] {
            let mut inside = false;
            let mut k: usize = 0;
            while k < dirs.len()
                invariant
                    k <= dirs@.len(),
                    i < dirs@.len(),
                    pc@.len() == dirs@.len(),
                    cats@.len() == dirs@.len(),
                    forall|q: int| 0 <= q < dirs@.len() ==> #[trigger] pc@[q]@ == dv[q],
                    forall|q: int|
                        0 <= q < dirs@.len() ==> #[trigger] cats@[q] == match_of(dv[q], active@),
                    inside == exists|q: int|
                        0 <= q < k && match_of(dv[q], active@) is Some && is_under(
                            d,
                            #[trigger] dv[q],
                        ),
                    d == dv[i as int],
                decreases dirs@.len() - k,
            {
                if cats[k].is_some() && path_is_under(&pc[i], &pc[k]) {
                    inside = true;
                }
                assert(pc@[k as int]@ == dv[k as int] && pc@[i as int]@ == d);
                k = k + 1;
            }
            let mut twice = false;
            let mut m: usize = 0;
            while m < found.len()
                invariant
                    m <= found@.len(),
                    i < dirs@.len(),
                    d == dv[i as int],
                    dv == views(dirs@),
                    acc == found@.map_values(|e: (Vec<char>, RedistCategory)| (e.0@, e.1)),
                    origin@.len() == found@.len(),
                    forall|q: int|
                        0 <= q < origin@.len() ==> #[trigger] origin@[q] < dirs@.len()
                            && dirs@[origin@[q] as int]@ == found@[q].0@,
                    twice == exists|q: int| 0 <= q < m && #[trigger] acc[q].0 == d,
                decreases found@.len() - m,
            {
                if dirs[origin[m]] == dirs[i] {
                    twice = true;
                }
                assert(acc[m as int].0 == found@[m as int].0@);
                assert(origin@[m as int] < dirs@.len());
                m = m + 1;
            }
            proof {
                assert(dirs@[i as int]@ == d);
                assert(inside == covered(d, dv, active@));
                assert(twice == listed_before(d, acc));
                assert(match_of(d, active@) == Some(c));
            }
            if !inside && !twice {
                let p = chars_of(dirs[i].as_str());
                found.push((p, c));
                origin.push(i);
                assert(found@.map_values(|e: (Vec<char>, RedistCategory)| (e.0@, e.1)) =~= acc.push(
                    (d, c),
                ));
            }
        }
        i = i + 1;
    }
    assert(dv == views(dirs@));
    let ghost all = accepted(views(dirs@), active@);
    let mut r: Vec<RedistItem> = Vec::new();
    let mut j: usize = 0;
    while j < found.len()
        invariant
            j <= found@.len(),
            all == found@.map_values(|e: (Vec<char>, RedistCategory)| (e.0@, e.1)),
            origin@.len() == found@.len(),
            forall|m: int|
                0 <= m < origin@.len() ==> #[trigger] origin@[m] < dirs@.len() && dirs@[origin@[m] as int]@
                    == found@[m].0@,
            r@.len() == j,
            forall|m: int|
                0 <= m < j ==> {
                    let (p, c) = #[trigger] all[m];
                    &&& r@[m].path@ == p
                    &&& r@[m].category == c
                    &&& r@[m].size == capped(bytes_under(files@, p))
                },
        decreases found@.len() - j,
    {
        let size = size_under(files, &found[j].0);
        let path = dirs[origin[j]].clone();
        assert(all[j as int] == (found@[j as int].0@, found@[j as int].1));
        r.push(RedistItem { path, category: found[j].1, size });
        j = j + 1;
    }
    r
}

pub open spec fn kib() -> nat {
    1024
}

pub open spec fn mib() -> nat {
    1024 * 1024
}

pub open spec fn gib() -> nat {
    1024 * 1024 * 1024
}

/// `bytes / unit` in hundredths, rounded to the nearest, ties to even.
pub open spec fn hundredths(bytes: nat, unit: nat) -> nat
    recommends
        unit > 0,
{
    let q = (bytes * 100) / unit;
    let rem = (bytes * 100) % unit;
    if 2 * rem > unit || (2 * rem == unit && q % 2 == 1) {
        q + 1
    } else {
        q
    }
}

/// A number of hundredths with two decimals.
pub open spec fn two_decimals(h: nat) -> Seq<char> {
    digits(h / 100) + "."@ + seq![digit_char((h % 100) / 10), digit_char(h % 10)]
}

/// A byte count for people: in the largest of GB, MB and KB that it reaches,
/// with two decimals, else in bytes.
pub open spec fn size_text(bytes: nat) -> Seq<char> {
    if bytes >= gib() {
        two_decimals(hundredths(bytes, gib())) + " GB"@
    } else if bytes >= mib() {
        two_decimals(hundredths(bytes, mib())) + " MB"@
    } else if bytes >= kib() {
        two_decimals(hundredths(bytes, kib())) + " KB"@
    } else {
        digits(bytes) + " B"@
    }
}

#[verifier::spinoff_prover]
#[verifier::rlimit(40)]
fn scaled(bytes: u64, unit: u64, suffix: &str) -> (r: String)
    requires
        unit == kib() || unit == mib() || unit == gib(),
    ensures
        r@ == two_decimals(hundredths(bytes as nat, unit as nat)) + suffix@,
{
    let wide: u128 = (bytes as u128) * 100;
    let q: u128 = wide / (unit as u128);
    let rem: u128 = wide % (unit as u128);
    let h: u128 = if 2 * rem > unit as u128 || (2 * rem == unit as u128 && q % 2 == 1) {
        q + 1
    } else {
        q
    };
    assert(h == hundredths(bytes as nat, unit as nat));
    assert(q <= wide) by (nonlinear_arith)
        requires
            q == wide / (unit as u128),
            unit >= 1,
    ;
    assert(h <= u64::MAX as u128 * 100 + 1);
    let whole: u64 = (h / 100) as u64;
    let frac: u64 = (h % 100) as u64;
    let mut r = decimal(whole);
    r.append(".");
    r.append(digit_text(frac / 10));
    r.append(digit_text(frac % 10));
    r.append(suffix);
    proof {
        reveal_strlit(".");
        assert(r@ =~= two_decimals(h as nat) + suffix@);
    }
    r
}

/// A byte count for people, such as `1.50 KB` or `512 B`.
pub fn format_size(bytes: u64) -> (r: String)
    ensures
        r@ == size_text(bytes as nat),
{
    if bytes >= 1024 * 1024 * 1024 {
        scaled(bytes, 1024 * 1024 * 1024, " GB")
    } else if bytes >= 1024 * 1024 {
        scaled(bytes, 1024 * 1024, " MB")
    } else if bytes >= 1024 {
        scaled(bytes, 1024, " KB")
    } else {
        join2(decimal(bytes).as_str(), " B")
    }
}

pub open spec fn would_delete_line(item: RedistItem) -> Seq<char> {
    "[Dry Run] Would delete directory: "@ + item.path@ + " ("@ + size_text(item.size as nat)
        + ")"@
}

/// The step that cleans the item with index `i`: a report line in simulation
/// mode, else its deletion.
pub open spec fn planned_step(step: CleanStep, item: RedistItem, i: int, dry_run: bool) -> bool {
    if dry_run {
        step matches CleanStep::Report(line) && line@ == would_delete_line(item)
    } else {
        step matches CleanStep::Remove(k) && k == i
    }
}

/// The steps that clean the accepted folders: in simulation mode one report
/// line per folder and no deletion; else one deletion per folder, in order.
pub fn clean_redistributables(items: &Vec<RedistItem>, dry_run: bool) -> (r: Vec<CleanStep>)
    ensures
        r@.len() == items@.len(),
        forall|i: int| 0 <= i < r@.len() ==> planned_step(#[trigger] r@[i], items@[i], i, dry_run),
{
    let mut r: Vec<CleanStep> = Vec::new();
    let mut i: usize = 0;
    while i < items.len()
        invariant
            i <= items@.len(),
            r@.len() == i,
            forall|m: int| 0 <= m < i ==> planned_step(#[trigger] r@[m], items@[m], m, dry_run),
        decreases items@.len() - i,
    {
        if dry_run {
            let item = &items[i];
            let mut line = join3(
                "[Dry Run] Would delete directory: ",
                item.path.as_str(),
                " (",
            );
            line.append(format_size(item.size).as_str());
            line.append(")");
            r.push(CleanStep::Report(line));
        } else {
            r.push(CleanStep::Remove(i));
        }
        i = i + 1;
    }
    r
}

pub open spec fn removal_text(item: RedistItem, outcome: Removal) -> Seq<char> {
    match outcome {
        Removal::Removed => "Deleted: "@ + item.path@ + " ("@ + size_text(item.size as nat) + ")"@,
        Removal::Missing => "Not found (already removed): "@ + item.path@,
        Removal::Failed(e) => "Failed to delete "@ + item.path@ + ": "@ + e@,
    }
}

/// The line that reports what deleting the folder of an item came to. A folder
/// that is gone already is reported as not found, which is no failure.
pub fn removal_line(item: &RedistItem, outcome: &Removal) -> (r: String)
    ensures
        r@ == removal_text(*item, *outcome),
{
    match outcome {
        Removal::Removed => {
            let mut line = join3("Deleted: ", item.path.as_str(), " (");
            line.append(format_size(item.size).as_str());
            line.append(")");
            line
        },
        Removal::Missing => join2("Not found (already removed): ", item.path.as_str()),
        Removal::Failed(e) => {
            let mut line = join3("Failed to delete ", item.path.as_str(), ": ");
            line.append(e.as_str());
            line
        },
    }
}

/// In simulation mode a clean deletes nothing: every planned step is a report
/// line that says what would be deleted.
pub proof fn law_simulation_only_reports(step: CleanStep, item: RedistItem, i: int)
    requires
        planned_step(step, item, i, true),
    ensures
        step matches CleanStep::Report(line) && exists|rest: Seq<char>|
            line@ == "[Dry Run] Would delete directory: "@ + rest,
{
    let rest = item.path@ + " ("@ + size_text(item.size as nat) + ")"@;
    if let CleanStep::Report(line) = step {
        assert(line@ =~= "[Dry Run] Would delete directory: "@ + rest);
    }
}

proof fn lemma_kept(dirs: Seq<Seq<char>>, active: Seq<RedistCategory>, n: int)
    requires
        0 <= n <= dirs.len(),
    ensures
        forall|i: int|
            0 <= i < kept(dirs, active, n).len() ==> {
                let e = #[trigger] kept(dirs, active, n)[i];
                &&& match_of(e.0, active) is Some
                &&& !covered(e.0, dirs, active)
                &&& exists|k: int| 0 <= k < n && dirs[k] == e.0
            },
        forall|i: int, j: int|
            0 <= i < j < kept(dirs, active, n).len() ==> (#[trigger] kept(dirs, active, n)[i]).0
                != (#[trigger] kept(dirs, active, n)[j]).0,
        forall|k: int|
            0 <= k < n && match_of(#[trigger] dirs[k], active) is Some && !covered(
                dirs[k],
                dirs,
                active,
            ) ==> listed_before(dirs[k], kept(dirs, active, n)),
    decreases n,
{
    if n > 0 {
        lemma_kept(dirs, active, n - 1);
        let acc = kept(dirs, active, n - 1);
        let now = kept(dirs, active, n);
        let d = dirs[n - 1];
        assert forall|i: int| 0 <= i < now.len() implies {
            let e = #[trigger] now[i];
            &&& match_of(e.0, active) is Some
            &&& !covered(e.0, dirs, active)
            &&& exists|k: int| 0 <= k < n && dirs[k] == e.0
        } by {
            if i < acc.len() {
                assert(now[i] == acc[i]);
                let e = acc[i];
                let k = choose|k: int| 0 <= k < n - 1 && dirs[k] == e.0;
                assert(dirs[k] == e.0);
            } else {
                assert(now[i].0 == d);
                assert(dirs[n - 1] == d);
            }
        }
        assert forall|i: int, j: int| 0 <= i < j < now.len() implies (#[trigger] now[i]).0 != (
        #[trigger] now[j]).0 by {
            if j < acc.len() {
                assert(now[i] == acc[i] && now[j] == acc[j]);
            } else {
                assert(now[j].0 == d && now[i] == acc[i]);
                assert(!listed_before(d, acc));
            }
        }
        assert forall|k: int|
            0 <= k < n && match_of(#[trigger] dirs[k], active) is Some && !covered(
                dirs[k],
                dirs,
                active,
            ) implies listed_before(dirs[k], now) by {
            if k < n - 1 {
                let m = choose|m: int| 0 <= m < acc.len() && #[trigger] acc[m].0 == dirs[k];
                assert(now[m] == acc[m]);
            } else if listed_before(d, acc) {
                let m = choose|m: int| 0 <= m < acc.len() && #[trigger] acc[m].0 == d;
                assert(now[m] == acc[m]);
            } else {
                assert(now[acc.len() as int].0 == d);
            }
        }
    }
}

/// Suppression holds for every pair of accepted folders: none equals or lies
/// inside another, so nothing is counted or deleted twice.
pub proof fn law_accepted_folders_never_nest(
    dirs: Seq<Seq<char>>,
    active: Seq<RedistCategory>,
    i: int,
    j: int,
)
    requires
        0 <= i < accepted(dirs, active).len(),
        0 <= j < accepted(dirs, active).len(),
        i != j,
    ensures
        !is_under(accepted(dirs, active)[j].0, accepted(dirs, active)[i].0),
        accepted(dirs, active)[i].0 != accepted(dirs, active)[j].0,
{
    lemma_kept(dirs, active, dirs.len() as int);
    let acc = accepted(dirs, active);
    let a = acc[i];
    let b = acc[j];
    let k = choose|k: int| 0 <= k < dirs.len() && dirs[k] == a.0;
    if is_under(b.0, a.0) {
        assert(is_under(b.0, dirs[k]));
        assert(covered(b.0, dirs, active));
    }
    if i < j {
        assert(acc[i].0 != acc[j].0);
    } else {
        assert(acc[j].0 != acc[i].0);
    }
}

/// Of nested matches the topmost is kept: every folder of the walk whose name
/// stands for an active category, and that lies inside no other such folder,
/// is accepted, wherever the walk met it.
pub proof fn law_topmost_matches_kept(dirs: Seq<Seq<char>>, active: Seq<RedistCategory>, k: int)
    requires
        0 <= k < dirs.len(),
        match_of(dirs[k], active) is Some,
        !covered(dirs[k], dirs, active),
    ensures
        listed_before(dirs[k], accepted(dirs, active)),
{
    lemma_kept(dirs, active, dirs.len() as int);
}

/// Cleaning an item whose folder is already gone, as a second clean of it
/// does, plans its deletion as usual, and the report of that deletion is a
/// "not found" line, not a failure.
pub proof fn law_clean_of_a_removed_folder_is_not_found(step: CleanStep, item: RedistItem, i: int)
    requires
        planned_step(step, item, i, false),
    ensures
        step matches CleanStep::Remove(k) && k == i,
        removal_text(item, Removal::Missing) == "Not found (already removed): "@ + item.path@,
{
}

} // verus!
