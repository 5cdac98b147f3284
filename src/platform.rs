//! The action units of this platform. Registry, network adapter and volume
//! serial changes exist on Windows only; here each unit reports as much in a
//! single line and changes nothing.
use vstd::prelude::*;
use crate::options::{Action, ActionCategory};
use crate::orchestrator::{
    UnitOutcome, banner, body, block, final_log, nothing_to_do, simulation_end, simulation_start,
};
use crate::profiles::HardwareProfile;
use crate::text::{views, owned, join3};

verus! {

/// What the inspector shows of the machine.
#[derive(Debug)]
pub struct SystemInfo {
    pub machine_guid: String,
    pub product_id: String,
    pub computer_name: String,
    pub volume_id: String,
    pub network_adapters: Vec<(String, String)>,
    pub steam_login_files: Vec<String>,
}

pub open spec fn not_applicable() -> Seq<char> {
    "Not applicable"@
}

/// The identifiers of this machine, as far as this platform can read them.
pub fn gather_system_info() -> (r: SystemInfo)
    ensures
        r.machine_guid@ == not_applicable(),
        r.product_id@ == not_applicable(),
        r.computer_name@ == not_applicable(),
        r.volume_id@ == not_applicable(),
        r.network_adapters@.len() == 0,
        r.steam_login_files@.len() == 0,
{
    SystemInfo {
        machine_guid: owned("Not applicable"),
        product_id: owned("Not applicable"),
        computer_name: owned("Not applicable"),
        volume_id: owned("Not applicable"),
        network_adapters: Vec::new(),
        steam_login_files: Vec::new(),
    }
}

/// Whether the process runs with the rights the units need: on this platform
/// no elevation is asked for.
pub fn is_elevated() -> (r: bool)
    ensures
        r,
{
    true
}

/// The notice that elevation is missing: never needed on this platform.
pub fn show_admin_error_dialog() {
}

/// A line of simulation mode: it starts with `[Dry Run] `.
pub open spec fn simulated(line: Seq<char>) -> bool {
    exists|rest: Seq<char>| line == "[Dry Run] "@ + rest
}

/// Every line of a list is one of simulation mode.
pub open spec fn all_simulated(lines: Seq<Seq<char>>) -> bool {
    forall|k: int| 0 <= k < lines.len() ==> simulated(#[trigger] lines[k])
}

/// The line of a unit that this platform lacks: in simulation mode, what it
/// would skip.
pub open spec fn unsupported_line(what: Seq<char>, dry_run: bool) -> Seq<char> {
    if dry_run {
        "[Dry Run] "@ + "Would skip "@ + what + ": it is only supported on Windows."@
    } else {
        what + " is only supported on Windows."@
    }
}

pub open spec fn only_on_windows(what: Seq<char>, dry_run: bool) -> Seq<Seq<char>> {
    seq![unsupported_line(what, dry_run)]
}

fn unsupported_text(what: &str, dry_run: bool) -> (r: String)
    ensures
        r@ == unsupported_line(what@, dry_run),
{
    if dry_run {
        let mut line = join3("[Dry Run] ", "Would skip ", what);
        line.append(": it is only supported on Windows.");
        line
    } else {
        let mut line = owned(what);
        line.append(" is only supported on Windows.");
        line
    }
}

proof fn lemma_skip_is_simulated(what: Seq<char>)
    ensures
        simulated(unsupported_line(what, true)),
{
    let rest = "Would skip "@ + what + ": it is only supported on Windows."@;
    assert(unsupported_line(what, true) =~= "[Dry Run] "@ + rest);
}

fn unsupported(what: &str, dry_run: bool) -> (r: Vec<String>)
    ensures
        views(r@) == only_on_windows(what@, dry_run),
{
    let r = vec![unsupported_text(what, dry_run)];
    assert(views(r@) =~= only_on_windows(what@, dry_run));
    r
}

/// Steam cache cleaning.
pub fn clean_cache(dry_run: bool) -> (r: Result<Vec<String>, String>)
    ensures
        r matches Ok(lines) && views(lines@) == only_on_windows("File cleaning"@, dry_run),
{
    Ok(unsupported("File cleaning", dry_run))
}

/// Spoofing the MAC address of every physical adapter.
pub fn spoof_mac_all(dry_run: bool) -> (r: Result<Vec<String>, String>)
    ensures
        r matches Ok(lines) && views(lines@) == only_on_windows("MAC spoofing"@, dry_run),
{
    Ok(unsupported("MAC spoofing", dry_run))
}

/// Setting the MAC addresses that a profile stored, by adapter key.
pub fn spoof_mac_from_profile(_adapter_macs: &Vec<(String, String)>, dry_run: bool) -> (r: Result<
    Vec<String>,
    String,
>)
    ensures
        r matches Ok(lines) && views(lines@) == only_on_windows("MAC spoofing"@, dry_run),
{
    Ok(unsupported("MAC spoofing", dry_run))
}

/// Spoofing the machine identifiers in the registry.
pub fn clean_registry(dry_run: bool) -> (r: Result<Vec<String>, String>)
    ensures
        r matches Ok(lines) && views(lines@) == only_on_windows("Registry cleaning"@, dry_run),
{
    Ok(unsupported("Registry cleaning", dry_run))
}

/// Deleting further tracking keys from the registry.
pub fn clean_aggressive_registry(dry_run: bool) -> (r: Result<Vec<String>, String>)
    ensures
        r matches Ok(lines) && views(lines@) == only_on_windows("Aggressive registry cleaning"@, dry_run),
{
    Ok(unsupported("Aggressive registry cleaning", dry_run))
}

/// Spoofing the identifiers under the current user's registry hive.
pub fn spoof_hkcu(dry_run: bool) -> (r: Result<Vec<String>, String>)
    ensures
        r matches Ok(lines) && views(lines@) == only_on_windows("HKCU spoofing"@, dry_run),
{
    Ok(unsupported("HKCU spoofing", dry_run))
}

pub open spec fn volume_line(dry_run: bool) -> Seq<char> {
    unsupported_line("Volume ID changing"@, dry_run)
}

/// Giving a drive a new random volume serial.
pub fn change_volume_id(_drive_letter: &str, dry_run: bool) -> (r: Result<String, String>)
    ensures
        r matches Ok(line) && line@ == volume_line(dry_run),
{
    Ok(unsupported_text("Volume ID changing", dry_run))
}

/// Giving a drive the volume serial `volume_id`.
pub fn change_volume_id_to_specific(_drive_letter: &str, _volume_id: &str, dry_run: bool) -> (r:
    Result<String, String>)
    ensures
        r matches Ok(line) && line@ == volume_line(dry_run),
{
    Ok(unsupported_text("Volume ID changing", dry_run))
}

/// `n` copies of a line.
pub open spec fn repeated(line: Seq<char>, n: nat) -> Seq<Seq<char>>
    decreases n,
{
    if n == 0 {
        Seq::empty()
    } else {
        repeated(line, (n - 1) as nat).push(line)
    }
}

/// Appends the lines of a unit, or hands its error on.
fn gather(acc: &mut Vec<String>, r: Result<Vec<String>, String>) -> (err: Option<String>)
    ensures
        r matches Ok(lines) ==> err is None && views(final(acc)@) == views(old(acc)@) + views(
            lines@,
        ),
        r matches Err(e) ==> err == Some(e),
{
    match r {
        Ok(mut lines) => {
            let ghost before = acc@;
            let ghost added = lines@;
            acc.append(&mut lines);
            assert(views(acc@) =~= views(before) + views(added));
            None
        },
        Err(e) => Some(e),
    }
}

/// The lines that the units of a category produce on this platform.
pub open spec fn unit_lines(a: Action, volume_entries: nat, dry_run: bool) -> Seq<Seq<char>> {
    match a {
        Action::SystemIds(_) => only_on_windows("Registry cleaning"@, dry_run) + only_on_windows(
            "HKCU spoofing"@,
            dry_run,
        ),
        Action::MacAddress => only_on_windows("MAC spoofing"@, dry_run),
        Action::VolumeId => seq![volume_line(dry_run)],
        Action::SteamCache(_) => only_on_windows("File cleaning"@, dry_run),
        Action::AggressiveRegistry => only_on_windows("Aggressive registry cleaning"@, dry_run),
        Action::RestoreMacAddresses => only_on_windows("MAC spoofing"@, dry_run),
        Action::RestoreVolumeIds => repeated(volume_line(dry_run), volume_entries),
    }
}

/// Runs the units of one category: the handler that each action is
/// registered with. The profile supplies what the re-application units
/// restore. An error of a unit ends the category with that error.
pub fn dispatch(c: &ActionCategory, profile: &HardwareProfile) -> (r: UnitOutcome)
    ensures
        r matches UnitOutcome::Completed(lines) && views(lines@) == unit_lines(
            c.action,
            profile.volume_ids@.len() as nat,
            c.dry_run,
        ) && (c.dry_run ==> all_simulated(views(lines@))),
{
    let dry_run = c.dry_run;
    let mut lines: Vec<String> = Vec::new();
    match c.action {
        Action::SystemIds(_) => {
            if let Some(e) = gather(&mut lines, clean_registry(dry_run)) {
                return UnitOutcome::Failed(e);
            }
            if let Some(e) = gather(&mut lines, spoof_hkcu(dry_run)) {
                return UnitOutcome::Failed(e);
            }
        },
        Action::MacAddress => {
            if let Some(e) = gather(&mut lines, spoof_mac_all(dry_run)) {
                return UnitOutcome::Failed(e);
            }
        },
        Action::VolumeId => {
            match change_volume_id("C", dry_run) {
                Ok(line) => lines.push(line),
                Err(e) => {
                    return UnitOutcome::Failed(e);
                },
            }
        },
        Action::SteamCache(_) => {
            if let Some(e) = gather(&mut lines, clean_cache(dry_run)) {
                return UnitOutcome::Failed(e);
            }
        },
        Action::AggressiveRegistry => {
            if let Some(e) = gather(&mut lines, clean_aggressive_registry(dry_run)) {
                return UnitOutcome::Failed(e);
            }
        },
        Action::RestoreMacAddresses => {
            if let Some(e) = gather(
                &mut lines,
                spoof_mac_from_profile(&profile.mac_addresses, dry_run),
            ) {
                return UnitOutcome::Failed(e);
            }
        },
        Action::RestoreVolumeIds => {
            let mut i: usize = 0;
            while i < profile.volume_ids.len()
                invariant
                    i <= profile.volume_ids@.len(),
                    views(lines@) == repeated(volume_line(dry_run), i as nat),
                    dry_run == c.dry_run,
                    dry_run ==> all_simulated(views(lines@)),
                decreases profile.volume_ids@.len() - i,
            {
                let entry = &profile.volume_ids[i];
                match change_volume_id_to_specific(entry.0.as_str(), entry.1.as_str(), dry_run) {
                    Ok(line) => {
                        let ghost before = views(lines@);
                        lines.push(line);
                        assert(views(lines@) =~= before.push(line@));
                        proof {
                            if dry_run {
                                lemma_skip_is_simulated("Volume ID changing"@);
                                assert forall|k: int| 0 <= k < views(lines@).len() implies simulated(
                                    #[trigger] views(lines@)[k],
                                ) by {
                                    if k < before.len() {
                                        assert(views(lines@)[k] == before[k]);
                                    }
                                }
                            }
                        }
                    },
                    Err(e) => {
                        return UnitOutcome::Failed(e);
                    },
                }
                i = i + 1;
            }
        },
    }
    proof {
        match c.action {
            Action::SystemIds(_) => {
                assert(views(lines@) =~= unit_lines(c.action, profile.volume_ids@.len() as nat, c.dry_run));
            },
            Action::VolumeId => {
                assert(views(lines@) =~= seq![volume_line(c.dry_run)]);
            },
            Action::RestoreVolumeIds => {},
            _ => {
                assert(views(lines@) =~= unit_lines(c.action, profile.volume_ids@.len() as nat, c.dry_run));
            },
        }
        if c.dry_run {
            lemma_skip_is_simulated("Registry cleaning"@);
            lemma_skip_is_simulated("HKCU spoofing"@);
            lemma_skip_is_simulated("MAC spoofing"@);
            lemma_skip_is_simulated("Volume ID changing"@);
            lemma_skip_is_simulated("File cleaning"@);
            lemma_skip_is_simulated("Aggressive registry cleaning"@);
            match c.action {
                Action::RestoreVolumeIds => {},
                _ => {
                    assert(all_simulated(views(lines@)));
                },
            }
        }
    }
    UnitOutcome::Completed(lines)
}

/// A unit that ran to completion and said only what it would do.
pub open spec fn completed_simulated(o: UnitOutcome) -> bool {
    o matches UnitOutcome::Completed(lines) && all_simulated(views(lines@))
}

proof fn lemma_body_simulated(recorded: Seq<(ActionCategory, UnitOutcome)>)
    requires
        forall|i: int| 0 <= i < recorded.len() ==> completed_simulated(#[trigger] recorded[i].1),
    ensures
        all_simulated(body(recorded)),
    decreases recorded.len(),
{
    if recorded.len() > 0 {
        let rest = recorded.drop_last();
        assert forall|i: int| 0 <= i < rest.len() implies completed_simulated(
            #[trigger] rest[i].1,
        ) by {
            assert(rest[i] == recorded[i]);
        }
        lemma_body_simulated(rest);
        let last = recorded.last();
        assert(completed_simulated(recorded[recorded.len() - 1].1));
        let b = block(last.0, last.1);
        let all = body(recorded);
        assert(all == body(rest) + b);
        assert forall|k: int| 0 <= k < all.len() implies simulated(#[trigger] all[k]) by {
            if k < body(rest).len() {
                assert(all[k] == body(rest)[k]);
            } else {
                assert(all[k] == b[k - body(rest).len()]);
            }
        }
    }
}

/// In simulation mode, when every unit ran to completion saying only what it
/// would do (as `dispatch` guarantees on this platform), the log of the run
/// opens and closes with the simulation banners, and every line between them
/// is a simulated statement or the "no operations selected" line.
pub proof fn law_simulation_run_lines(recorded: Seq<(ActionCategory, UnitOutcome)>)
    requires
        forall|i: int| 0 <= i < recorded.len() ==> completed_simulated(#[trigger] recorded[i].1),
    ensures
        ({
            let log = final_log(true, banner(true), recorded);
            &&& log.len() >= 2
            &&& log[0] == simulation_start()
            &&& log.last() == simulation_end()
            &&& forall|k: int|
                0 < k < log.len() - 1 ==> simulated(#[trigger] log[k]) || log[k] == nothing_to_do()
        }),
{
    lemma_body_simulated(recorded);
    let b = body(recorded);
    let log = final_log(true, banner(true), recorded);
    let so_far = banner(true) + b;
    assert forall|k: int| 0 < k < log.len() - 1 implies simulated(#[trigger] log[k]) || log[k]
        == nothing_to_do() by {
        if k < so_far.len() {
            assert(log[k] == so_far[k]);
            assert(so_far[k] == b[k - 1]);
        }
    }
}

} // verus!
