use vstd::prelude::*;
use crate::options::{
    Action, ActionCategory, CleaningOptions, resolve, resolve_spec, nothing_selected,
    law_nothing_selected_plans_nothing,
};
use crate::text::{views, owned, join3, extend_lines};

verus! {

/// How one dispatched unit ended.
#[derive(Debug)]
pub enum UnitOutcome {
    /// The unit ran to completion and produced these lines.
    Completed(Vec<String>),
    /// The unit reported an application error.
    Failed(String),
    /// The unit crashed before it could report anything.
    Crashed,
}

pub open spec fn simulation_start() -> Seq<char> {
    "--- SIMULATION MODE (DRY RUN) ---"@
}

pub open spec fn simulation_end() -> Seq<char> {
    "--- END OF SIMULATION ---"@
}

pub open spec fn separator() -> Seq<char> {
    "-----------------------------------"@
}

pub open spec fn success_line() -> Seq<char> {
    "[Success] All tasks completed. A restart is recommended."@
}

pub open spec fn nothing_to_do() -> Seq<char> {
    "[Info] No operations selected."@
}

pub open spec fn no_mac_entries() -> Seq<char> {
    "[Info] The profile holds no MAC addresses; skipping MAC re-application."@
}

pub open spec fn no_volume_entries() -> Seq<char> {
    "[Info] The profile holds no Volume IDs; skipping Volume ID re-application."@
}

/// The opening banner: printed only in simulation mode.
pub open spec fn banner(dry_run: bool) -> Seq<Seq<char>> {
    if dry_run {
        seq![simulation_start()]
    } else {
        Seq::empty()
    }
}

/// The closing banner.
pub open spec fn closing(dry_run: bool) -> Seq<Seq<char>> {
    if dry_run {
        seq![simulation_end()]
    } else {
        seq![separator(), success_line()]
    }
}

/// What an application error of a unit is reported as.
pub open spec fn error_label(a: Action) -> Seq<char> {
    match a {
        Action::SystemIds(_) => "Error spoofing System IDs"@,
        Action::MacAddress => "Error spoofing MAC addresses"@,
        Action::VolumeId => "Error changing Volume ID"@,
        Action::SteamCache(_) => "Error cleaning Steam"@,
        Action::AggressiveRegistry => "Error with aggressive registry cleaning"@,
        Action::RestoreMacAddresses => "Error restoring MAC addresses"@,
        Action::RestoreVolumeIds => "Error restoring Volume IDs"@,
    }
}

/// The name of a unit's task, used when the unit crashed.
pub open spec fn task_name(a: Action) -> Seq<char> {
    match a {
        Action::SystemIds(_) => "System ID spoofing"@,
        Action::MacAddress => "MAC spoofing"@,
        Action::VolumeId => "Volume ID"@,
        Action::SteamCache(_) => "Steam cleaning"@,
        Action::AggressiveRegistry => "aggressive registry cleaning"@,
        Action::RestoreMacAddresses => "MAC restore"@,
        Action::RestoreVolumeIds => "Volume ID restore"@,
    }
}

/// The contiguous block of lines that one finished unit contributes.
pub open spec fn block(c: ActionCategory, o: UnitOutcome) -> Seq<Seq<char>> {
    match o {
        UnitOutcome::Completed(lines) => views(lines@),
        UnitOutcome::Failed(e) => seq!["[Error] "@ + error_label(c.action) + ": "@ + e@],
        UnitOutcome::Crashed => seq!["[Error] Critical error in "@ + task_name(c.action) + " task."@],
    }
}

/// The blocks of the finished units, in the order in which they finished.
pub open spec fn body(recorded: Seq<(ActionCategory, UnitOutcome)>) -> Seq<Seq<char>>
    decreases recorded.len(),
{
    if recorded.len() == 0 {
        Seq::empty()
    } else {
        body(recorded.drop_last()) + block(recorded.last().0, recorded.last().1)
    }
}

/// The whole log of a run: its head (the banner and any notes), the blocks,
/// the "no operations" line when nothing else was said, and the closing banner.
pub open spec fn final_log(
    dry_run: bool,
    head: Seq<Seq<char>>,
    recorded: Seq<(ActionCategory, UnitOutcome)>,
) -> Seq<Seq<char>> {
    let so_far = head + body(recorded);
    so_far + (if so_far == banner(dry_run) {
        seq![nothing_to_do()]
    } else {
        Seq::empty()
    }) + closing(dry_run)
}

/// The plan of a profile re-application.
pub open spec fn profile_plan(has_macs: bool, has_volumes: bool, dry_run: bool) -> Seq<
    ActionCategory,
> {
    (if has_macs {
        seq![ActionCategory { action: Action::RestoreMacAddresses, dry_run }]
    } else {
        Seq::empty()
    }) + (if has_volumes {
        seq![ActionCategory { action: Action::RestoreVolumeIds, dry_run }]
    } else {
        Seq::empty()
    })
}

/// The informational lines of a profile re-application: one per absent unit.
pub open spec fn profile_notes(has_macs: bool, has_volumes: bool) -> Seq<Seq<char>> {
    (if has_macs {
        Seq::empty()
    } else {
        seq![no_mac_entries()]
    }) + (if has_volumes {
        Seq::empty()
    } else {
        seq![no_volume_entries()]
    })
}

/// The decisions of one run: which units to dispatch, and how their outcomes
/// are joined into one ordered log. The caller performs the units and hands
/// each outcome back; every line returned by a step is appended to the log.
pub struct Run {
    dry_run: bool,
    plan: Vec<ActionCategory>,
    done: Vec<bool>,
    log: Vec<String>,
    head: Ghost<Seq<Seq<char>>>,
    recorded: Ghost<Seq<(ActionCategory, UnitOutcome)>>,
    slots: Ghost<Seq<int>>,
}

impl Run {
    pub closed spec fn dry_run_of(&self) -> bool {
        self.dry_run
    }

    pub closed spec fn plan_of(&self) -> Seq<ActionCategory> {
        self.plan@
    }

    pub closed spec fn done_of(&self) -> Seq<bool> {
        self.done@
    }

    pub closed spec fn head_of(&self) -> Seq<Seq<char>> {
        self.head@
    }

    pub closed spec fn recorded_of(&self) -> Seq<(ActionCategory, UnitOutcome)> {
        self.recorded@
    }

    /// Everything emitted so far, in order.
    pub closed spec fn lines_of(&self) -> Seq<Seq<char>> {
        views(self.log@)
    }

    pub closed spec fn wf(&self) -> bool {
        &&& self.done@.len() == self.plan@.len()
        &&& views(self.log@) == self.head@ + body(self.recorded@)
        &&& self.head@.len() >= banner(self.dry_run).len()
        &&& self.head@.subrange(0, banner(self.dry_run).len() as int) == banner(self.dry_run)
        &&& self.slots@.len() == self.recorded@.len()
        &&& forall|i: int|
            0 <= i < self.slots@.len() ==> 0 <= #[trigger] self.slots@[i] < self.plan@.len()
                && self.done@[self.slots@[i]]
                && self.recorded@[i].0 == self.plan@[self.slots@[i]]
    }

    fn opening(dry_run: bool) -> (r: Vec<String>)
        ensures
            views(r@) == banner(dry_run),
    {
        let mut r: Vec<String> = Vec::new();
        if dry_run {
            r.push(owned("--- SIMULATION MODE (DRY RUN) ---"));
            assert(views(r@) =~= banner(dry_run));
        } else {
            assert(views(r@) =~= banner(dry_run));
        }
        r
    }

    fn not_done(n: usize) -> (r: Vec<bool>)
        ensures
            r@.len() == n,
            forall|i: int| 0 <= i < n ==> !#[trigger] r@[i],
    {
        let mut r: Vec<bool> = Vec::new();
        let mut i: usize = 0;
        while i < n
            invariant
                i <= n,
                r@.len() == i,
                forall|j: int| 0 <= j < i ==> !#[trigger] r@[j],
            decreases n - i,
        {
            r.push(false);
            i = i + 1;
        }
        r
    }

    /// Starts a run over the plan that the toggles resolve to. Returns the run
    /// and the lines it emitted: the opening banner.
    pub fn start(options: &CleaningOptions) -> (r: (Run, Vec<String>))
        ensures
            r.0.wf(),
            r.0.dry_run_of() == options.dry_run,
            r.0.plan_of() == resolve_spec(*options),
            r.0.done_of().len() == r.0.plan_of().len(),
            forall|i: int| 0 <= i < r.0.plan_of().len() ==> !#[trigger] r.0.done_of()[i],
            r.0.head_of() == banner(options.dry_run),
            r.0.recorded_of() == Seq::<(ActionCategory, UnitOutcome)>::empty(),
            r.0.lines_of() == views(r.1@),
            views(r.1@) == banner(options.dry_run),
    {
        let plan = resolve(options);
        let done = Self::not_done(plan.len());
        let log = Self::opening(options.dry_run);
        let emitted = log.clone();
        proof {
            assert(emitted@ == log@);
            assert(body(Seq::<(ActionCategory, UnitOutcome)>::empty()) == Seq::<Seq<char>>::empty());
            assert(views(log@) =~= views(log@) + Seq::<Seq<char>>::empty());
            let b = banner(options.dry_run);
            assert(b.subrange(0, b.len() as int) =~= b);
        }
        let run = Run {
            dry_run: options.dry_run,
            plan,
            done,
            log,
            head: Ghost(banner(options.dry_run)),
            recorded: Ghost(Seq::empty()),
            slots: Ghost(Seq::empty()),
        };
        (run, emitted)
    }

    /// Starts the re-application of a stored hardware profile: one unit for
    /// its MAC addresses when it holds any, one for its Volume IDs when it
    /// holds any, and an informational line for each unit left out.
    pub fn for_profile(mac_entries: usize, volume_entries: usize, dry_run: bool) -> (r: (
        Run,
        Vec<String>,
    ))
        ensures
            r.0.wf(),
            r.0.dry_run_of() == dry_run,
            r.0.plan_of() == profile_plan(mac_entries > 0, volume_entries > 0, dry_run),
            r.0.done_of().len() == r.0.plan_of().len(),
            forall|i: int| 0 <= i < r.0.plan_of().len() ==> !#[trigger] r.0.done_of()[i],
            r.0.head_of() == banner(dry_run) + profile_notes(mac_entries > 0, volume_entries > 0),
            r.0.recorded_of() == Seq::<(ActionCategory, UnitOutcome)>::empty(),
            r.0.lines_of() == views(r.1@),
            views(r.1@) == r.0.head_of(),
    {
        let mut plan: Vec<ActionCategory> = Vec::new();
        let mut log = Self::opening(dry_run);
        if mac_entries > 0 {
            plan.push(ActionCategory { action: Action::RestoreMacAddresses, dry_run });
        } else {
            log.push(
                owned("[Info] The profile holds no MAC addresses; skipping MAC re-application."),
            );
        }
        let ghost after_macs = plan@;
        let ghost lines_after_macs = views(log@);
        if volume_entries > 0 {
            plan.push(ActionCategory { action: Action::RestoreVolumeIds, dry_run });
        } else {
            log.push(
                owned("[Info] The profile holds no Volume IDs; skipping Volume ID re-application."),
            );
        }
        let ghost head = banner(dry_run) + profile_notes(mac_entries > 0, volume_entries > 0);
        proof {
            assert(plan@ =~= profile_plan(mac_entries > 0, volume_entries > 0, dry_run));
            assert(lines_after_macs =~= banner(dry_run) + (if mac_entries > 0 {
                Seq::empty()
            } else {
                seq![no_mac_entries()]
            }));
            assert(views(log@) =~= head);
            assert(body(Seq::<(ActionCategory, UnitOutcome)>::empty()) == Seq::<Seq<char>>::empty());
            assert(views(log@) =~= head + Seq::<Seq<char>>::empty());
            assert(head.subrange(0, banner(dry_run).len() as int) =~= banner(dry_run));
        }
        let done = Self::not_done(plan.len());
        let emitted = log.clone();
        let run = Run {
            dry_run,
            plan,
            done,
            log,
            head: Ghost(head),
            recorded: Ghost(Seq::empty()),
            slots: Ghost(Seq::empty()),
        };
        (run, emitted)
    }

    /// The units to dispatch, one per category.
    pub fn plan(&self) -> (r: &Vec<ActionCategory>)
        ensures
            r@ == self.plan_of(),
    {
        &self.plan
    }

    /// Whether the unit in `slot` has reported.
    pub fn is_done(&self, slot: usize) -> (r: bool)
        requires
            self.wf(),
            slot < self.plan_of().len(),
        ensures
            r == self.done_of()[slot as int],
    {
        self.done[slot]
    }

    fn error_label(a: &Action) -> (r: &'static str)
        ensures
            r@ == error_label(*a),
    {
        match a {
            Action::SystemIds(_) => "Error spoofing System IDs",
            Action::MacAddress => "Error spoofing MAC addresses",
            Action::VolumeId => "Error changing Volume ID",
            Action::SteamCache(_) => "Error cleaning Steam",
            Action::AggressiveRegistry => "Error with aggressive registry cleaning",
            Action::RestoreMacAddresses => "Error restoring MAC addresses",
            Action::RestoreVolumeIds => "Error restoring Volume IDs",
        }
    }

    fn task_name(a: &Action) -> (r: &'static str)
        ensures
            r@ == task_name(*a),
    {
        match a {
            Action::SystemIds(_) => "System ID spoofing",
            Action::MacAddress => "MAC spoofing",
            Action::VolumeId => "Volume ID",
            Action::SteamCache(_) => "Steam cleaning",
            Action::AggressiveRegistry => "aggressive registry cleaning",
            Action::RestoreMacAddresses => "MAC restore",
            Action::RestoreVolumeIds => "Volume ID restore",
        }
    }

    /// The lines one finished unit contributes.
    pub fn block_of(c: &ActionCategory, outcome: &UnitOutcome) -> (r: Vec<String>)
        ensures
            views(r@) == block(*c, *outcome),
    {
        match outcome {
            UnitOutcome::Completed(lines) => {
                let mut r: Vec<String> = Vec::new();
                extend_lines(&mut r, lines);
                assert(views(r@) =~= views(lines@));
                r
            },
            UnitOutcome::Failed(e) => {
                let mut line = join3("[Error] ", Self::error_label(&c.action), ": ");
                line.append(e.as_str());
                let r = vec![line];
                assert(views(r@) =~= block(*c, *outcome));
                r
            },
            UnitOutcome::Crashed => {
                let line = join3(
                    "[Error] Critical error in ",
                    Self::task_name(&c.action),
                    " task.",
                );
                let r = vec![line];
                assert(views(r@) =~= block(*c, *outcome));
                r
            },
        }
    }

    /// Joins the outcome of the unit in `slot`: its block is appended to the
    /// log as one contiguous piece, and returned as the lines emitted.
    pub fn record(&mut self, slot: usize, outcome: UnitOutcome) -> (emitted: Vec<String>)
        requires
            old(self).wf(),
            slot < old(self).plan_of().len(),
            !old(self).done_of()[slot as int],
        ensures
            final(self).wf(),
            final(self).dry_run_of() == old(self).dry_run_of(),
            final(self).plan_of() == old(self).plan_of(),
            final(self).head_of() == old(self).head_of(),
            final(self).done_of() == old(self).done_of().update(slot as int, true),
            final(self).done_of().len() == final(self).plan_of().len(),
            final(self).recorded_of() == old(self).recorded_of().push(
                (old(self).plan_of()[slot as int], outcome),
            ),
            views(emitted@) == block(old(self).plan_of()[slot as int], outcome),
            final(self).lines_of() == old(self).lines_of() + views(emitted@),
    {
        let ghost prev = *self;
        let c = self.plan[slot];
        let emitted = Self::block_of(&c, &outcome);
        let mut copy = emitted.clone();
        assert(copy@ == emitted@);
        let ghost before = self.log@;
        self.log.append(&mut copy);
        self.done.set(slot, true);
        let ghost entry = (c, outcome);
        self.recorded = Ghost(self.recorded@.push(entry));
        self.slots = Ghost(self.slots@.push(slot as int));
        proof {
            assert(self.log@ == before + emitted@);
            assert(views(self.log@) =~= views(before) + views(emitted@));
            assert(self.recorded@.drop_last() =~= prev.recorded@);
            assert(body(self.recorded@) == body(prev.recorded@) + block(c, outcome));
            assert(views(self.log@) =~= self.head@ + body(self.recorded@));
            assert forall|i: int| 0 <= i < self.slots@.len() implies 0 <= #[trigger] self.slots@[i]
                < self.plan@.len() && self.done@[self.slots@[i]] && self.recorded@[i].0
                == self.plan@[self.slots@[i]] by {
                if i < prev.slots@.len() {
                    assert(self.slots@[i] == prev.slots@[i]);
                    assert(self.recorded@[i] == prev.recorded@[i]);
                }
            }
        }
        emitted
    }

    /// Closes the run once every unit has reported. Returns the whole log and
    /// the lines emitted by this step.
    pub fn finish(self) -> (r: (Vec<String>, Vec<String>))
        requires
            self.wf(),
            forall|i: int| 0 <= i < self.plan_of().len() ==> #[trigger] self.done_of()[i],
        ensures
            views(r.0@) == final_log(self.dry_run_of(), self.head_of(), self.recorded_of()),
            views(r.0@) == self.lines_of() + views(r.1@),
            self.plan_of().len() == 0 ==> self.recorded_of() == Seq::<
                (ActionCategory, UnitOutcome),
            >::empty(),
    {
        let ghost dry = self.dry_run;
        let ghost so_far = views(self.log@);
        let mut emitted: Vec<String> = Vec::new();
        let banner_len: usize = if self.dry_run {
            1
        } else {
            0
        };
        let only_banner = self.log.len() == banner_len;
        proof {
            if self.plan@.len() == 0 {
                if self.recorded@.len() > 0 {
                    assert(0 <= self.slots@[0] < self.plan@.len());
                }
                assert(self.recorded@ =~= Seq::<(ActionCategory, UnitOutcome)>::empty());
            }
            let b = banner(dry);
            if only_banner {
                assert(so_far.len() == b.len());
                assert(so_far.subrange(0, b.len() as int) =~= self.head@.subrange(0, b.len() as int));
                assert(so_far =~= b);
            }
            assert(only_banner == (so_far == b));
        }
        if only_banner {
            emitted.push(owned("[Info] No operations selected."));
        }
        if self.dry_run {
            emitted.push(owned("--- END OF SIMULATION ---"));
        } else {
            emitted.push(owned("-----------------------------------"));
            emitted.push(owned("[Success] All tasks completed. A restart is recommended."));
        }
        let mut log = self.log;
        let mut copy = emitted.clone();
        assert(copy@ == emitted@);
        let ghost before = log@;
        log.append(&mut copy);
        proof {
            assert(log@ == before + emitted@);
            assert(views(log@) =~= views(before) + views(emitted@));
            assert(views(emitted@) =~= (if so_far == banner(dry) {
                seq![nothing_to_do()]
            } else {
                Seq::empty()
            }) + closing(dry));
        }
        (log, emitted)
    }
}

/// The blocks up to `k` keep the block of `j` whole, at the place where it
/// was appended.
proof fn lemma_block_stays(recorded: Seq<(ActionCategory, UnitOutcome)>, j: int, k: int)
    requires
        0 <= j < k <= recorded.len(),
    ensures
        ({
            let off = body(recorded.take(j)).len() as int;
            let b = block(recorded[j].0, recorded[j].1);
            &&& off + b.len() <= body(recorded.take(k)).len()
            &&& body(recorded.take(k)).subrange(off, off + b.len()) == b
        }),
    decreases k - j,
{
    let off = body(recorded.take(j)).len() as int;
    let b = block(recorded[j].0, recorded[j].1);
    if k == j + 1 {
        assert(recorded.take(k).drop_last() =~= recorded.take(j));
        assert(body(recorded.take(k)) == body(recorded.take(j)) + b);
        assert(body(recorded.take(k)).subrange(off, off + b.len()) =~= b);
    } else {
        lemma_block_stays(recorded, j, k - 1);
        assert(recorded.take(k).drop_last() =~= recorded.take(k - 1));
        let prev = body(recorded.take(k - 1));
        let last = block(recorded[k - 1].0, recorded[k - 1].1);
        assert(body(recorded.take(k)) == prev + last);
        assert(body(recorded.take(k)).subrange(off, off + b.len()) =~= prev.subrange(
            off,
            off + b.len(),
        ));
    }
}

/// With every toggle cleared nothing is dispatched, and the log of the run is
/// exactly the opening banner (in simulation mode only), the "no operations
/// selected" line and the closing banner.
pub proof fn law_nothing_selected_log(o: CleaningOptions)
    requires
        nothing_selected(o),
    ensures
        resolve_spec(o) == Seq::<ActionCategory>::empty(),
        final_log(o.dry_run, banner(o.dry_run), Seq::empty()) == banner(o.dry_run) + seq![
            nothing_to_do(),
        ] + closing(o.dry_run),
{
    law_nothing_selected_plans_nothing(o);
    let e = Seq::<(ActionCategory, UnitOutcome)>::empty();
    assert(body(e) == Seq::<Seq<char>>::empty());
    assert(banner(o.dry_run) + body(e) =~= banner(o.dry_run));
}

/// Whatever the other units did, the block of every finished unit stands whole
/// and contiguous in the final log; so a unit that completed keeps every line
/// it produced even when another unit failed or crashed.
pub proof fn law_blocks_kept_whole(
    dry_run: bool,
    head: Seq<Seq<char>>,
    recorded: Seq<(ActionCategory, UnitOutcome)>,
    j: int,
)
    requires
        0 <= j < recorded.len(),
    ensures
        ({
            let off = head.len() + body(recorded.take(j)).len() as int;
            let b = block(recorded[j].0, recorded[j].1);
            &&& off + b.len() <= final_log(dry_run, head, recorded).len()
            &&& final_log(dry_run, head, recorded).subrange(off, off + b.len()) == b
        }),
        recorded[j].1 is Completed ==> block(recorded[j].0, recorded[j].1) == views(
            recorded[j].1->Completed_0@,
        ),
{
    lemma_block_stays(recorded, j, recorded.len() as int);
    assert(recorded.take(recorded.len() as int) =~= recorded);
    let off = head.len() + body(recorded.take(j)).len() as int;
    let b = block(recorded[j].0, recorded[j].1);
    let all = final_log(dry_run, head, recorded);
    assert(all.subrange(off, off + b.len()) =~= body(recorded).subrange(off - head.len() as int, off
        - head.len() as int + b.len()));
}

/// A run in simulation mode opens with the simulation banner and closes with
/// the end-of-simulation banner, whatever its units reported.
pub proof fn law_simulation_banners(
    head: Seq<Seq<char>>,
    recorded: Seq<(ActionCategory, UnitOutcome)>,
)
    requires
        head.len() >= 1,
        head[0] == simulation_start(),
    ensures
        final_log(true, head, recorded)[0] == simulation_start(),
        final_log(true, head, recorded).last() == simulation_end(),
{
}

} // verus!
