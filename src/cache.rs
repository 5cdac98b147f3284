use vstd::prelude::*;
use crate::options::SteamCacheSteps;
use crate::redist::Removal;
use crate::steam::{chars_of, join_path, joined};
use crate::text::{owned, join2, join3};

verus! {

/// The folders that the Steam cache clean works under.
#[derive(Debug)]
pub struct CacheEnv {
    pub steam_root: String,
    pub local_app_data: String,
    pub app_data: String,
    pub user_profile: String,
}

/// What one target of the Steam cache clean does.
#[derive(Debug, Clone, Copy, PartialEq, Eq, Structural)]
pub enum TargetKind {
    /// Terminate the process whose image name is the target's path.
    StopProcess,
    /// Pause so that terminated processes have closed.
    GraceWait,
    /// Delete a Steam login file, which may be absent.
    LoginFile,
    /// Delete the `ssfn*` sentry files that the Steam root holds.
    SentryFiles,
    /// Delete a file or directory.
    Delete,
    /// Delete everything that a directory holds.
    EmptyDirectory,
    /// Start the shell again.
    RestartShell,
}

/// One target of the Steam cache clean.
#[derive(Debug)]
pub struct CacheTarget {
    pub kind: TargetKind,
    pub path: String,
}

/// Whether to act on a target, or only report.
#[derive(Debug)]
pub enum Decision {
    /// Report this line and change nothing.
    Report(String),
    /// Log this line, if any, then act.
    Act(Option<String>),
}

/// How terminating a process ended.
#[derive(Debug)]
pub enum ProcessOutcome {
    Terminated,
    /// The tool ran and refused, with what it wrote to its error stream.
    Refused(String),
    /// The tool could not be run.
    Error(String),
}

/// The seconds that the clean waits after terminating processes.
pub const GRACE_SECONDS: u64 = 10;

pub type TargetView = (TargetKind, Seq<char>);

pub open spec fn target_view(t: CacheTarget) -> TargetView {
    (t.kind, t.path@)
}

pub open spec fn targets_view(v: Seq<CacheTarget>) -> Seq<TargetView> {
    v.map_values(|t: CacheTarget| target_view(t))
}

pub open spec fn at(kind: TargetKind, base: Seq<char>, rel: Seq<char>) -> TargetView {
    (kind, joined(base, rel))
}

/// The Steam processes, each followed by the shell, which holds files open too.
pub open spec fn process_targets() -> Seq<TargetView> {
    seq![
        (TargetKind::StopProcess, "steam.exe"@),
        (TargetKind::StopProcess, "explorer.exe"@),
        (TargetKind::StopProcess, "steamwebhelper.exe"@),
        (TargetKind::StopProcess, "explorer.exe"@),
        (TargetKind::StopProcess, "GameOverlayUI.exe"@),
        (TargetKind::StopProcess, "explorer.exe"@),
        (TargetKind::StopProcess, "steamerrorreporter.exe"@),
        (TargetKind::StopProcess, "explorer.exe"@),
    ]
}

/// The login files under the Steam configuration folder.
pub open spec fn login_targets(root: Seq<char>) -> Seq<TargetView> {
    let config = joined(root, "config"@);
    seq![
        at(TargetKind::LoginFile, config, "loginusers.vdf"@),
        at(TargetKind::LoginFile, config, "config.vdf"@),
        at(TargetKind::LoginFile, config, "localconfig.vdf"@),
        at(TargetKind::LoginFile, config, "SteamAppData.vdf"@),
    ]
}

/// The Steam folders that keep account traces.
pub open spec fn steam_directory_targets(
    root: Seq<char>,
    local: Seq<char>,
    app_data: Seq<char>,
    user: Seq<char>,
) -> Seq<TargetView> {
    seq![
        at(TargetKind::Delete, root, "steamapps\\libraryfolders.vdf"@),
        at(TargetKind::Delete, root, "userdata"@),
        at(TargetKind::Delete, root, "config"@),
        at(TargetKind::Delete, root, "logs"@),
        at(TargetKind::Delete, root, "appcache"@),
        at(TargetKind::Delete, root, "dump"@),
        at(TargetKind::Delete, root, "shadercache"@),
        at(TargetKind::Delete, root, "appcache\\shadercache"@),
        at(TargetKind::Delete, root, "depotcache"@),
        at(TargetKind::Delete, app_data, "Steam"@),
        at(TargetKind::Delete, local, "Steam\\htmlcache"@),
        at(TargetKind::Delete, local, "Steam\\cefdata"@),
        at(TargetKind::Delete, local, "Steam\\logged_in_user"@),
        at(TargetKind::Delete, user, "AppData\\LocalLow\\Valve\\Steam"@),
        at(TargetKind::EmptyDirectory, root, "appcache"@),
        at(TargetKind::EmptyDirectory, root, "logs"@),
        at(TargetKind::EmptyDirectory, root, "dump"@),
        at(TargetKind::EmptyDirectory, root, "shadercache"@),
        at(TargetKind::EmptyDirectory, root, "userdata"@),
        at(TargetKind::EmptyDirectory, root, "config"@),
    ]
}

/// The caches and recent-file lists of the user.
pub open spec fn user_cache_targets(local: Seq<char>, user: Seq<char>) -> Seq<TargetView> {
    seq![
        at(TargetKind::Delete, local, "D3DSCache"@),
        at(TargetKind::Delete, local, "Temp"@),
        at(TargetKind::Delete, user, "AppData\\Roaming\\Microsoft\\Windows\\Recent"@),
        at(TargetKind::Delete, user, "AppData\\Local\\CrashDumps"@),
        at(TargetKind::Delete, user, "AppData\\LocalLow\\Temp"@),
        at(TargetKind::Delete, user, "AppData\\Local\\Microsoft\\Windows\\WebCache"@),
        at(TargetKind::Delete, user, "AppData\\Local\\Microsoft\\Windows\\INetCache"@),
        at(TargetKind::Delete, user, "Tracing"@),
        at(TargetKind::Delete, user, "AppData\\Local\\Temp"@),
        at(TargetKind::Delete, user, "AppData\\Local\\Packages"@),
        at(TargetKind::Delete, user, "AppData\\Local\\Microsoft\\Windows\\Caches"@),
        at(TargetKind::Delete, user, "AppData\\Local\\Microsoft\\Windows\\Explorer"@),
        at(TargetKind::Delete, user, "Documents\\My Games"@),
        at(TargetKind::EmptyDirectory, local, "Temp"@),
        at(TargetKind::EmptyDirectory, user, "AppData\\Local\\Temp"@),
        at(TargetKind::EmptyDirectory, user, "AppData\\LocalLow\\Temp"@),
        at(TargetKind::EmptyDirectory, user, "AppData\\Local\\Microsoft\\Windows\\INetCache"@),
        at(TargetKind::EmptyDirectory, user, "AppData\\Local\\Microsoft\\Windows\\WebCache"@),
        at(TargetKind::EmptyDirectory, user, "AppData\\Local\\Microsoft\\Windows\\Caches"@),
        at(TargetKind::EmptyDirectory, user, "AppData\\Local\\Microsoft\\Windows\\Explorer"@),
        at(TargetKind::EmptyDirectory, user, "AppData\\Local\\CrashDumps"@),
        at(TargetKind::EmptyDirectory, user, "AppData\\Roaming\\Microsoft\\Windows\\Recent"@),
        at(TargetKind::EmptyDirectory, user, "Tracing"@),
    ]
}

/// The machine-wide caches, shader caches and anti-cheat data.
pub open spec fn system_cache_targets() -> Seq<TargetView> {
    seq![
        (TargetKind::Delete, "C:\\ProgramData\\NVIDIA Corporation\\NV_Cache"@),
        (TargetKind::Delete, "C:\\Windows\\Prefetch"@),
        (TargetKind::Delete, "C:\\ProgramData\\EasyAntiCheat"@),
        (TargetKind::Delete, "C:\\ProgramData\\BattlEye"@),
        (TargetKind::Delete, "C:\\ProgramData\\Faceit"@),
        (TargetKind::EmptyDirectory, "C:\\Windows\\Temp"@),
        (TargetKind::EmptyDirectory, "C:\\ProgramData\\Microsoft\\Windows\\Caches"@),
        (TargetKind::EmptyDirectory, "C:\\ProgramData\\NVIDIA Corporation\\NV_Cache"@),
    ]
}

pub open spec fn when(on: bool, s: Seq<TargetView>) -> Seq<TargetView> {
    if on {
        s
    } else {
        Seq::empty()
    }
}

/// The targets of a Steam cache clean, in order, for the chosen sub-actions.
/// The pause after terminating processes, and the restart of the shell, happen
/// only outside simulation mode.
pub open spec fn cache_plan(s: SteamCacheSteps, env: CacheEnv, dry_run: bool) -> Seq<TargetView> {
    let root = env.steam_root@;
    when(s.stop_processes, process_targets()) + when(
        s.stop_processes && !dry_run,
        seq![(TargetKind::GraceWait, Seq::empty())],
    ) + when(s.login_files, login_targets(root)) + when(
        s.sentry_files,
        seq![(TargetKind::SentryFiles, root)],
    ) + when(
        s.steam_directories,
        steam_directory_targets(root, env.local_app_data@, env.app_data@, env.user_profile@),
    ) + when(s.user_caches, user_cache_targets(env.local_app_data@, env.user_profile@)) + when(
        s.system_caches,
        system_cache_targets(),
    ) + when(s.stop_processes && !dry_run, seq![(TargetKind::RestartShell, Seq::empty())])
}

fn target(kind: TargetKind, path: String) -> (r: CacheTarget)
    ensures
        target_view(r) == (kind, path@),
{
    CacheTarget { kind, path }
}

fn under(kind: TargetKind, base: &str, rel: &str) -> (r: CacheTarget)
    ensures
        target_view(r) == at(kind, base@, rel@),
{
    CacheTarget { kind, path: join_path(base, rel) }
}

/// Appends the targets of `more` to `plan`.
fn extend(plan: &mut Vec<CacheTarget>, more: Vec<CacheTarget>)
    ensures
        targets_view(final(plan)@) == targets_view(old(plan)@) + targets_view(more@),
{
    let ghost before = plan@;
    let ghost added = more@;
    let mut more = more;
    plan.append(&mut more);
    assert(targets_view(plan@) =~= targets_view(before) + targets_view(added));
}

fn processes() -> (r: Vec<CacheTarget>)
    ensures
        targets_view(r@) == process_targets(),
{
    let r = vec![
        target(TargetKind::StopProcess, owned("steam.exe")),
        target(TargetKind::StopProcess, owned("explorer.exe")),
        target(TargetKind::StopProcess, owned("steamwebhelper.exe")),
        target(TargetKind::StopProcess, owned("explorer.exe")),
        target(TargetKind::StopProcess, owned("GameOverlayUI.exe")),
        target(TargetKind::StopProcess, owned("explorer.exe")),
        target(TargetKind::StopProcess, owned("steamerrorreporter.exe")),
        target(TargetKind::StopProcess, owned("explorer.exe")),
    ];
    assert(targets_view(r@) =~= process_targets());
    r
}

fn login_files(root: &str) -> (r: Vec<CacheTarget>)
    ensures
        targets_view(r@) == login_targets(root@),
{
    let config = join_path(root, "config");
    let c = config.as_str();
    let r = vec![
        under(TargetKind::LoginFile, c, "loginusers.vdf"),
        under(TargetKind::LoginFile, c, "config.vdf"),
        under(TargetKind::LoginFile, c, "localconfig.vdf"),
        under(TargetKind::LoginFile, c, "SteamAppData.vdf"),
    ];
    assert(targets_view(r@) =~= login_targets(root@));
    r
}

fn steam_directories(env: &CacheEnv) -> (r: Vec<CacheTarget>)
    ensures
        targets_view(r@) == steam_directory_targets(
            env.steam_root@,
            env.local_app_data@,
            env.app_data@,
            env.user_profile@,
        ),
{
    let root = env.steam_root.as_str();
    let local = env.local_app_data.as_str();
    let user = env.user_profile.as_str();
    let r = vec![
        under(TargetKind::Delete, root, "steamapps\\libraryfolders.vdf"),
        under(TargetKind::Delete, root, "userdata"),
        under(TargetKind::Delete, root, "config"),
        under(TargetKind::Delete, root, "logs"),
        under(TargetKind::Delete, root, "appcache"),
        under(TargetKind::Delete, root, "dump"),
        under(TargetKind::Delete, root, "shadercache"),
        under(TargetKind::Delete, root, "appcache\\shadercache"),
        under(TargetKind::Delete, root, "depotcache"),
        under(TargetKind::Delete, env.app_data.as_str(), "Steam"),
        under(TargetKind::Delete, local, "Steam\\htmlcache"),
        under(TargetKind::Delete, local, "Steam\\cefdata"),
        under(TargetKind::Delete, local, "Steam\\logged_in_user"),
        under(TargetKind::Delete, user, "AppData\\LocalLow\\Valve\\Steam"),
        under(TargetKind::EmptyDirectory, root, "appcache"),
        under(TargetKind::EmptyDirectory, root, "logs"),
        under(TargetKind::EmptyDirectory, root, "dump"),
        under(TargetKind::EmptyDirectory, root, "shadercache"),
        under(TargetKind::EmptyDirectory, root, "userdata"),
        under(TargetKind::EmptyDirectory, root, "config"),
    ];
    assert(targets_view(r@) =~= steam_directory_targets(
        env.steam_root@,
        env.local_app_data@,
        env.app_data@,
        env.user_profile@,
    ));
    r
}

fn user_caches(env: &CacheEnv) -> (r: Vec<CacheTarget>)
    ensures
        targets_view(r@) == user_cache_targets(env.local_app_data@, env.user_profile@),
{
    let local = env.local_app_data.as_str();
    let user = env.user_profile.as_str();
    let r = vec![
        under(TargetKind::Delete, local, "D3DSCache"),
        under(TargetKind::Delete, local, "Temp"),
        under(TargetKind::Delete, user, "AppData\\Roaming\\Microsoft\\Windows\\Recent"),
        under(TargetKind::Delete, user, "AppData\\Local\\CrashDumps"),
        under(TargetKind::Delete, user, "AppData\\LocalLow\\Temp"),
        under(TargetKind::Delete, user, "AppData\\Local\\Microsoft\\Windows\\WebCache"),
        under(TargetKind::Delete, user, "AppData\\Local\\Microsoft\\Windows\\INetCache"),
        under(TargetKind::Delete, user, "Tracing"),
        under(TargetKind::Delete, user, "AppData\\Local\\Temp"),
        under(TargetKind::Delete, user, "AppData\\Local\\Packages"),
        under(TargetKind::Delete, user, "AppData\\Local\\Microsoft\\Windows\\Caches"),
        under(TargetKind::Delete, user, "AppData\\Local\\Microsoft\\Windows\\Explorer"),
        under(TargetKind::Delete, user, "Documents\\My Games"),
        under(TargetKind::EmptyDirectory, local, "Temp"),
        under(TargetKind::EmptyDirectory, user, "AppData\\Local\\Temp"),
        under(TargetKind::EmptyDirectory, user, "AppData\\LocalLow\\Temp"),
        under(TargetKind::EmptyDirectory, user, "AppData\\Local\\Microsoft\\Windows\\INetCache"),
        under(TargetKind::EmptyDirectory, user, "AppData\\Local\\Microsoft\\Windows\\WebCache"),
        under(TargetKind::EmptyDirectory, user, "AppData\\Local\\Microsoft\\Windows\\Caches"),
        under(TargetKind::EmptyDirectory, user, "AppData\\Local\\Microsoft\\Windows\\Explorer"),
        under(TargetKind::EmptyDirectory, user, "AppData\\Local\\CrashDumps"),
        under(TargetKind::EmptyDirectory, user, "AppData\\Roaming\\Microsoft\\Windows\\Recent"),
        under(TargetKind::EmptyDirectory, user, "Tracing"),
    ];
    assert(targets_view(r@) =~= user_cache_targets(env.local_app_data@, env.user_profile@));
    r
}

fn system_caches() -> (r: Vec<CacheTarget>)
    ensures
        targets_view(r@) == system_cache_targets(),
{
    let r = vec![
        target(TargetKind::Delete, owned("C:\\ProgramData\\NVIDIA Corporation\\NV_Cache")),
        target(TargetKind::Delete, owned("C:\\Windows\\Prefetch")),
        target(TargetKind::Delete, owned("C:\\ProgramData\\EasyAntiCheat")),
        target(TargetKind::Delete, owned("C:\\ProgramData\\BattlEye")),
        target(TargetKind::Delete, owned("C:\\ProgramData\\Faceit")),
        target(TargetKind::EmptyDirectory, owned("C:\\Windows\\Temp")),
        target(TargetKind::EmptyDirectory, owned("C:\\ProgramData\\Microsoft\\Windows\\Caches")),
        target(
            TargetKind::EmptyDirectory,
            owned("C:\\ProgramData\\NVIDIA Corporation\\NV_Cache"),
        ),
    ];
    assert(targets_view(r@) =~= system_cache_targets());
    r
}

fn single(kind: TargetKind, path: String) -> (r: Vec<CacheTarget>)
    ensures
        targets_view(r@) == seq![(kind, path@)],
{
    let r = vec![target(kind, path)];
    assert(targets_view(r@) =~= seq![(kind, path@)]);
    r
}

/// The targets of a Steam cache clean for the chosen sub-actions, in order.
pub fn clean_cache_plan(steps: &SteamCacheSteps, env: &CacheEnv, dry_run: bool) -> (r: Vec<
    CacheTarget,
>)
    ensures
        targets_view(r@) == cache_plan(*steps, *env, dry_run),
{
    let mut plan: Vec<CacheTarget> = Vec::new();
    let ghost empty = targets_view(plan@);
    assert(empty =~= Seq::<TargetView>::empty());
    if steps.stop_processes {
        extend(&mut plan, processes());
    }
    let ghost after_processes = targets_view(plan@);
    if steps.stop_processes && !dry_run {
        extend(&mut plan, single(TargetKind::GraceWait, String::new()));
    }
    let ghost after_wait = targets_view(plan@);
    if steps.login_files {
        extend(&mut plan, login_files(env.steam_root.as_str()));
    }
    let ghost after_login = targets_view(plan@);
    if steps.sentry_files {
        extend(&mut plan, single(TargetKind::SentryFiles, env.steam_root.clone()));
    }
    let ghost after_sentry = targets_view(plan@);
    if steps.steam_directories {
        extend(&mut plan, steam_directories(env));
    }
    let ghost after_dirs = targets_view(plan@);
    if steps.user_caches {
        extend(&mut plan, user_caches(env));
    }
    let ghost after_user = targets_view(plan@);
    if steps.system_caches {
        extend(&mut plan, system_caches());
    }
    let ghost after_system = targets_view(plan@);
    if steps.stop_processes && !dry_run {
        extend(&mut plan, single(TargetKind::RestartShell, String::new()));
    }
    proof {
        let s = *steps;
        let root = env.steam_root@;
        assert(after_processes =~= when(s.stop_processes, process_targets()));
        assert(after_wait =~= after_processes + when(
            s.stop_processes && !dry_run,
            seq![(TargetKind::GraceWait, Seq::empty())],
        ));
        assert(after_login =~= after_wait + when(s.login_files, login_targets(root)));
        assert(after_sentry =~= after_login + when(s.sentry_files, seq![(TargetKind::SentryFiles, root)]));
        assert(after_dirs =~= after_sentry + when(
            s.steam_directories,
            steam_directory_targets(root, env.local_app_data@, env.app_data@, env.user_profile@),
        ));
        assert(after_user =~= after_dirs + when(
            s.user_caches,
            user_cache_targets(env.local_app_data@, env.user_profile@),
        ));
        assert(after_system =~= after_user + when(s.system_caches, system_cache_targets()));
        assert(targets_view(plan@) =~= after_system + when(
            s.stop_processes && !dry_run,
            seq![(TargetKind::RestartShell, Seq::empty())],
        ));
    }
    plan
}

/// A decision as plain values: whether to act, and the line to log first.
pub open spec fn decision_view(d: Decision) -> (bool, Option<Seq<char>>) {
    match d {
        Decision::Report(line) => (false, Some(line@)),
        Decision::Act(None) => (true, None),
        Decision::Act(Some(line)) => (true, Some(line@)),
    }
}

/// Whether a target kind changes the machine when acted on.
pub open spec fn mutating(kind: TargetKind) -> bool {
    kind == TargetKind::StopProcess || kind == TargetKind::GraceWait || kind
        == TargetKind::LoginFile || kind == TargetKind::Delete
}

/// What to do with a target that is a process, the pause, a login file or a
/// path to delete: in simulation mode only report what would happen; a path
/// that is absent is reported as not found.
pub open spec fn decision_of(kind: TargetKind, path: Seq<char>, present: bool, dry_run: bool) -> (
    bool,
    Option<Seq<char>>,
) {
    match kind {
        TargetKind::StopProcess => if dry_run {
            (false, Some("[Process] Would terminate: "@ + path))
        } else {
            (true, Some("[Process] Terminating: "@ + path))
        },
        TargetKind::GraceWait => if dry_run {
            (false, Some("[Dry Run] Would wait for the processes to close."@))
        } else {
            (true, Some("Waiting 10 seconds to ensure processes are closed..."@))
        },
        TargetKind::LoginFile => if !present {
            (false, Some("Steam file not found: "@ + path))
        } else if dry_run {
            (false, Some("[File/Dir] Would delete: "@ + path))
        } else {
            (true, None)
        },
        _ => if !present {
            (false, Some("[File/Dir] Not found: "@ + path))
        } else if dry_run {
            (false, Some("[File/Dir] Would delete: "@ + path))
        } else {
            (true, None)
        },
    }
}

/// Decides on one target: a process, the pause, a login file or a path to
/// delete. `present` tells whether the path exists.
pub fn decide(kind: TargetKind, path: &str, present: bool, dry_run: bool) -> (r: Decision)
    requires
        mutating(kind),
    ensures
        decision_view(r) == decision_of(kind, path@, present, dry_run),
{
    match kind {
        TargetKind::StopProcess => if dry_run {
            Decision::Report(join2("[Process] Would terminate: ", path))
        } else {
            Decision::Act(Some(join2("[Process] Terminating: ", path)))
        },
        TargetKind::GraceWait => if dry_run {
            Decision::Report(owned("[Dry Run] Would wait for the processes to close."))
        } else {
            Decision::Act(Some(owned("Waiting 10 seconds to ensure processes are closed...")))
        },
        TargetKind::LoginFile => if !present {
            Decision::Report(join2("Steam file not found: ", path))
        } else if dry_run {
            Decision::Report(join2("[File/Dir] Would delete: ", path))
        } else {
            Decision::Act(None)
        },
        _ => if !present {
            Decision::Report(join2("[File/Dir] Not found: ", path))
        } else if dry_run {
            Decision::Report(join2("[File/Dir] Would delete: ", path))
        } else {
            Decision::Act(None)
        },
    }
}

pub open spec fn entry_decision(entry: Seq<char>, dry_run: bool) -> (bool, Option<Seq<char>>) {
    if dry_run {
        (false, Some("[Directory] Would delete contents of: "@ + entry))
    } else {
        (true, None)
    }
}

/// Decides on one entry of a directory whose contents are deleted.
pub fn decide_entry(entry: &str, dry_run: bool) -> (r: Decision)
    ensures
        decision_view(r) == entry_decision(entry@, dry_run),
{
    if dry_run {
        Decision::Report(join2("[Directory] Would delete contents of: ", entry))
    } else {
        Decision::Act(None)
    }
}

pub open spec fn missing_directory_text(path: Seq<char>) -> Seq<char> {
    "[Directory] Not found or not a directory: "@ + path
}

/// The line for a directory to empty that is absent or no directory.
pub fn missing_directory_line(path: &str) -> (r: String)
    ensures
        r@ == missing_directory_text(path@),
{
    join2("[Directory] Not found or not a directory: ", path)
}

pub open spec fn process_outcome_text(name: Seq<char>, o: ProcessOutcome) -> Seq<char> {
    match o {
        ProcessOutcome::Terminated => "[Process] Terminated: "@ + name,
        ProcessOutcome::Refused(err) => "[Process] Failed to terminate "@ + name + ": "@ + err@,
        ProcessOutcome::Error(e) => "[Process] Error terminating "@ + name + ": "@ + e@,
    }
}

/// The line that reports how terminating a process ended.
pub fn process_outcome_line(name: &str, outcome: &ProcessOutcome) -> (r: String)
    ensures
        r@ == process_outcome_text(name@, *outcome),
{
    match outcome {
        ProcessOutcome::Terminated => join2("[Process] Terminated: ", name),
        ProcessOutcome::Refused(err) => {
            let mut line = join3("[Process] Failed to terminate ", name, ": ");
            line.append(err.as_str());
            line
        },
        ProcessOutcome::Error(e) => {
            let mut line = join3("[Process] Error terminating ", name, ": ");
            line.append(e.as_str());
            line
        },
    }
}

pub open spec fn deletion_text(path: Seq<char>, o: Removal) -> Seq<char> {
    match o {
        Removal::Removed => "[File/Dir] Deleted: "@ + path,
        Removal::Missing => "[File/Dir] Not found: "@ + path,
        Removal::Failed(e) => "[File/Dir] Failed to delete "@ + path + ": "@ + e@,
    }
}

/// The line that reports what deleting a file or directory came to; a path
/// that another task removed first is reported as not found.
pub fn deletion_line(path: &str, outcome: &Removal) -> (r: String)
    ensures
        r@ == deletion_text(path@, *outcome),
{
    match outcome {
        Removal::Removed => join2("[File/Dir] Deleted: ", path),
        Removal::Missing => join2("[File/Dir] Not found: ", path),
        Removal::Failed(e) => {
            let mut line = join3("[File/Dir] Failed to delete ", path, ": ");
            line.append(e.as_str());
            line
        },
    }
}

pub open spec fn entry_deletion_text(entry: Seq<char>, o: Removal) -> Seq<char> {
    match o {
        Removal::Removed => "[Directory] Deleted contents of: "@ + entry,
        Removal::Missing => "[Directory] Not found: "@ + entry,
        Removal::Failed(e) => "[Directory] Failed to delete "@ + entry + ": "@ + e@,
    }
}

/// The line that reports what deleting one entry of a directory came to.
pub fn entry_deletion_line(entry: &str, outcome: &Removal) -> (r: String)
    ensures
        r@ == entry_deletion_text(entry@, *outcome),
{
    match outcome {
        Removal::Removed => join2("[Directory] Deleted contents of: ", entry),
        Removal::Missing => join2("[Directory] Not found: ", entry),
        Removal::Failed(e) => {
            let mut line = join3("[Directory] Failed to delete ", entry, ": ");
            line.append(e.as_str());
            line
        },
    }
}

pub open spec fn restart_text() -> Seq<char> {
    "Cache cleanup complete."@
}

/// The line logged once the shell was started again.
pub fn restart_line() -> (r: String)
    ensures
        r@ == restart_text(),
{
    owned("Cache cleanup complete.")
}

/// Whether a file name is that of a Steam sentry file: it starts with `ssfn`.
pub fn is_sentry_file(name: &str) -> (r: bool)
    ensures
        r == (name@.len() >= 4 && name@.subrange(0, 4) == "ssfn"@),
{
    let c = chars_of(name);
    proof {
        reveal_strlit("ssfn");
    }
    if c.len() < 4 {
        return false;
    }
    let r = c[0] == 's' && c[1] == 's' && c[2] == 'f' && c[3] == 'n';
    if r {
        assert(name@.subrange(0, 4) =~= "ssfn"@);
    } else {
        assert(name@.subrange(0, 4) != "ssfn"@) by {
            if name@.subrange(0, 4) == "ssfn"@ {
                let head = name@.subrange(0, 4);
                assert(head[0] == "ssfn"@[0] && head[1] == "ssfn"@[1]);
                assert(head[2] == "ssfn"@[2] && head[3] == "ssfn"@[3]);
            }
        }
    }
    r
}

/// In simulation mode the Steam cache clean changes nothing: its plan holds
/// neither the pause nor the restart of the shell, and every decision on a
/// process, a path or a directory entry is a report line.
pub proof fn law_simulation_changes_nothing(
    steps: SteamCacheSteps,
    env: CacheEnv,
    kind: TargetKind,
    path: Seq<char>,
    present: bool,
)
    ensures
        forall|i: int|
            0 <= i < cache_plan(steps, env, true).len() ==> {
                let k = (#[trigger] cache_plan(steps, env, true)[i]).0;
                k != TargetKind::GraceWait && k != TargetKind::RestartShell
            },
        !decision_of(kind, path, present, true).0,
        !entry_decision(path, true).0,
{
    let root = env.steam_root@;
    let plan = cache_plan(steps, env, true);
    let parts = seq![
        when(steps.stop_processes, process_targets()),
        when(steps.login_files, login_targets(root)),
        when(steps.sentry_files, seq![(TargetKind::SentryFiles, root)]),
        when(
            steps.steam_directories,
            steam_directory_targets(root, env.local_app_data@, env.app_data@, env.user_profile@),
        ),
        when(steps.user_caches, user_cache_targets(env.local_app_data@, env.user_profile@)),
        when(steps.system_caches, system_cache_targets()),
    ];
    assert forall|i: int| 0 <= i < plan.len() implies {
        let k = (#[trigger] plan[i]).0;
        k != TargetKind::GraceWait && k != TargetKind::RestartShell
    } by {
        assert(plan =~= parts[0] + parts[1] + parts[2] + parts[3] + parts[4] + parts[5]);
    }
}

} // verus!
