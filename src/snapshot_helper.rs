use vstd::prelude::*;

use crate::app_config::VmConfig;
use crate::bash_shell::{exec, exec_without_log, nonzero_exit_message, CommandResult, ShellRequest};
use crate::errors::CustomError;
use crate::retention::{copy_snapshot, is_deletion_set, select_for_deletion};
use crate::snapshot::{listing_snapshots, parse_snapshot_listing, views, VmSnapshot};

verus! {

pub open spec fn list_command_text(vm_name: Seq<char>) -> Seq<char> {
    "virsh snapshot-list --domain "@ + vm_name + " --internal"@
}

pub open spec fn delete_command_text(vm_name: Seq<char>, snapshot_name: Seq<char>) -> Seq<char> {
    "virsh snapshot-delete --domain "@ + vm_name + " --snapshotname "@ + snapshot_name
}

pub open spec fn create_command_text(vm_name: Seq<char>, snapshot_name: Seq<char>) -> Seq<char> {
    "virsh snapshot-create-as "@ + vm_name + " --name "@ + snapshot_name
}

pub open spec fn deleting_message(snapshot_name: Seq<char>) -> Seq<char> {
    "Deleting snapshot `"@ + snapshot_name + "` ..."@
}

/// The command that lists the internal snapshots of a machine.
pub fn list_command(vm_name: &str) -> (r: String)
    ensures
        r@ == list_command_text(vm_name@),
{
    let mut s = String::from_str("virsh snapshot-list --domain ");
    s.append(vm_name);
    s.append(" --internal");
    s
}

/// The command that deletes one snapshot of a machine.
pub fn delete_command(vm_name: &str, snapshot_name: &str) -> (r: String)
    ensures
        r@ == delete_command_text(vm_name@, snapshot_name@),
{
    let mut s = String::from_str("virsh snapshot-delete --domain ");
    s.append(vm_name);
    s.append(" --snapshotname ");
    s.append(snapshot_name);
    s
}

/// The command that creates a snapshot of a machine under the given name.
pub fn create_command(vm_name: &str, snapshot_name: &str) -> (r: String)
    ensures
        r@ == create_command_text(vm_name@, snapshot_name@),
{
    let mut s = String::from_str("virsh snapshot-create-as ");
    s.append(vm_name);
    s.append(" --name ");
    s.append(snapshot_name);
    s
}

fn deleting_text(snapshot_name: &str) -> (r: String)
    ensures
        r@ == deleting_message(snapshot_name@),
{
    let mut s = String::from_str("Deleting snapshot `");
    s.append(snapshot_name);
    s.append("` ...");
    s
}

/// The snapshots of a listing command's result; a failure when the command failed.
pub fn list_snapshots(listing: CommandResult) -> (r: Result<Vec<VmSnapshot>, CustomError>)
    ensures
        listing.success ==> (r matches Ok(v) && views(v@) == listing_snapshots(listing.stdout@)),
        !listing.success ==> (r matches Err(e) && e.kind is ErrorMessage && e.kind.spec_message()
            == nonzero_exit_message(listing.command@)),
{
    let ps = listing.as_result()?;
    Ok(parse_snapshot_listing(ps.stdout.as_str()))
}

/// Where a pruning run stands.
#[derive(Debug, Clone, Copy, PartialEq, Eq)]
pub enum ClearCachePhase {
    /// Waiting for the listing of the machine's snapshots.
    Listing,
    /// Waiting for the log line that announces deletion number `i`.
    Announcing(usize),
    /// Waiting for the result of deletion number `i`.
    Deleting(usize),
    /// Waiting for the final listing.
    Probing,
    Finished,
}

/// What the driver of a pruning run is to do next.
#[derive(Debug)]
pub enum ClearCacheAction {
    /// Run this request and hand its result to `on_command`.
    RunCommand(ShellRequest),
    /// Log this line and hand the outcome to `on_logged`.
    Log(String),
    /// The run is over, with this outcome.
    Finish(Result<(), CustomError>),
}

/// A pruning run for one machine: list its snapshots, delete the oldest
/// beyond the retained minimum one by one, stop the deletions at the first
/// failure, and list once more at the end, after an aborted deletion too.
pub struct ClearCache {
    pub vm_name: String,
    pub min_snapshot_count: i32,
    pub phase: ClearCachePhase,
    pub to_delete: Vec<VmSnapshot>,
    /// The failure that aborted the deletions, reported once the final listing is done.
    pub pending_error: Option<CustomError>,
    /// The commands the run has asked for, in order.
    pub issued: Ghost<Seq<Seq<char>>>,
    /// What the first listing printed.
    pub listing: Ghost<Seq<char>>,
    /// How many deletions the run has asked for.
    pub deletions: Ghost<nat>,
}

/// The deletion commands of the given snapshots, in order.
pub open spec fn delete_texts(s: Seq<VmSnapshot>) -> Seq<Seq<char>> {
    s.map_values(|r: VmSnapshot| delete_command_text(r.vm_name@, r.snapsnot_name@))
}

impl ClearCache {
    /// The listing was read: what is deleted is its deletion set.
    pub open spec fn listed(&self) -> bool {
        is_deletion_set(listing_snapshots(self.listing@), self.min_snapshot_count as int, views(self.to_delete@))
    }

    /// The final listing was asked for, after the first `deletions` deletions.
    pub open spec fn probed(&self) -> bool {
        let list = list_command_text(self.vm_name@);
        &&& self.listed()
        &&& self.deletions@ <= self.to_delete.len()
        &&& self.issued@ == seq![list] + delete_texts(self.to_delete@.take(self.deletions@ as int)) + seq![list]
    }

    /// The commands asked for so far: the listing, then the first `deletions`
    /// deletions of the deletion set, then (from the final listing on) the listing again.
    pub open spec fn history(&self) -> bool {
        let list = list_command_text(self.vm_name@);
        let dels = delete_texts(self.to_delete@.take(self.deletions@ as int));
        let probed = self.probed();
        match self.phase {
            ClearCachePhase::Listing => self.issued@ == seq![list] && self.deletions@ == 0,
            ClearCachePhase::Announcing(i) => self.listed() && self.deletions@ == i && self.issued@ == seq![list]
                + dels,
            ClearCachePhase::Deleting(i) => self.listed() && self.deletions@ == i + 1 && self.issued@ == seq![list]
                + dels,
            ClearCachePhase::Probing => probed && (self.pending_error is None ==> self.deletions@ == self.to_delete.len()),
            ClearCachePhase::Finished => self.issued@ == seq![list] || probed,
        }
    }

    pub open spec fn wf(&self) -> bool {
        &&& self.history()
        &&& match self.phase {
            ClearCachePhase::Announcing(i) => i < self.to_delete.len(),
            ClearCachePhase::Deleting(i) => i < self.to_delete.len(),
            _ => true,
        }
        &&& !(self.phase is Probing || self.phase is Finished) ==> self.pending_error is None
    }

    pub open spec fn awaits_command(&self) -> bool {
        self.phase is Listing || self.phase is Deleting || self.phase is Probing
    }

    pub open spec fn awaits_log(&self) -> bool {
        self.phase is Announcing
    }

    /// Whether the run waits for the result of a command.
    pub fn is_awaiting_command(&self) -> (r: bool)
        ensures
            r == self.awaits_command(),
    {
        match self.phase {
            ClearCachePhase::Listing | ClearCachePhase::Deleting(_) | ClearCachePhase::Probing => true,
            _ => false,
        }
    }

    /// Whether the run waits for the outcome of a log line.
    pub fn is_awaiting_log(&self) -> (r: bool)
        ensures
            r == self.awaits_log(),
    {
        match self.phase {
            ClearCachePhase::Announcing(_) => true,
            _ => false,
        }
    }

    /// The final listing, whose output the run does not read.
    pub open spec fn is_probe(&self, a: ClearCacheAction) -> bool {
        a matches ClearCacheAction::RunCommand(q) && !q.log_output && q.command@ == list_command_text(
            self.vm_name@,
        )
    }

    /// The announcement of deletion number `i`.
    pub open spec fn is_announcement(&self, i: int, a: ClearCacheAction) -> bool {
        a matches ClearCacheAction::Log(l) && l@ == deleting_message(self.to_delete@[i].snapsnot_name@)
    }

    /// After the deletions before number `i`: announce number `i`, or probe when none is left.
    pub open spec fn continues_at(&self, i: int, a: ClearCacheAction) -> bool {
        if i < self.to_delete.len() {
            self.phase == ClearCachePhase::Announcing(i as usize) && self.is_announcement(i, a)
        } else {
            self.phase == ClearCachePhase::Probing && self.is_probe(a)
        }
    }

    /// Aborted by `e`: the deletions stop, the final listing is asked for.
    pub open spec fn aborts_with(&self, e: CustomError, a: ClearCacheAction) -> bool {
        self.phase == ClearCachePhase::Probing && self.is_probe(a) && self.pending_error == Some(e)
    }

    fn continue_at(&mut self, i: usize) -> (a: ClearCacheAction)
        requires
            i <= old(self).to_delete.len(),
            old(self).pending_error is None,
            old(self).listed(),
            old(self).deletions@ == i,
            old(self).issued@ == seq![list_command_text(old(self).vm_name@)] + delete_texts(
                old(self).to_delete@.take(i as int),
            ),
        ensures
            final(self).listing == old(self).listing,
            final(self).deletions == old(self).deletions,
            final(self).vm_name == old(self).vm_name,
            final(self).min_snapshot_count == old(self).min_snapshot_count,
            final(self).to_delete == old(self).to_delete,
            final(self).pending_error is None,
            final(self).wf(),
            final(self).continues_at(i as int, a),
    {
        if i < self.to_delete.len() {
            self.phase = ClearCachePhase::Announcing(i);
            ClearCacheAction::Log(deleting_text(self.to_delete[i].snapsnot_name.as_str()))
        } else {
            self.phase = ClearCachePhase::Probing;
            self.issued = Ghost(self.issued@.push(list_command_text(self.vm_name@)));
            assert(self.issued@ =~= seq![list_command_text(self.vm_name@)] + delete_texts(
                self.to_delete@.take(self.deletions@ as int),
            ) + seq![list_command_text(self.vm_name@)]);
            ClearCacheAction::RunCommand(exec_without_log(list_command(self.vm_name.as_str()).as_str()))
        }
    }

    fn abort(&mut self, e: CustomError) -> (a: ClearCacheAction)
        requires
            old(self).wf(),
            old(self).phase is Announcing || old(self).phase is Deleting,
        ensures
            final(self).listing == old(self).listing,
            final(self).deletions == old(self).deletions,
            final(self).issued@ == old(self).issued@.push(list_command_text(old(self).vm_name@)),
            final(self).vm_name == old(self).vm_name,
            final(self).min_snapshot_count == old(self).min_snapshot_count,
            final(self).to_delete == old(self).to_delete,
            final(self).wf(),
            final(self).aborts_with(e, a),
    {
        self.pending_error = Some(e);
        self.phase = ClearCachePhase::Probing;
        self.issued = Ghost(self.issued@.push(list_command_text(self.vm_name@)));
        assert(self.issued@ =~= seq![list_command_text(self.vm_name@)] + delete_texts(
            self.to_delete@.take(self.deletions@ as int),
        ) + seq![list_command_text(self.vm_name@)]);
        ClearCacheAction::RunCommand(exec_without_log(list_command(self.vm_name.as_str()).as_str()))
    }

    fn finish(&mut self, outcome: Result<(), CustomError>) -> (a: ClearCacheAction)
        requires
            (old(self).phase is Listing && old(self).issued@ == seq![list_command_text(old(self).vm_name@)])
                || (old(self).phase is Probing && old(self).probed()),
        ensures
            final(self).wf(),
            final(self).listing == old(self).listing,
            final(self).deletions == old(self).deletions,
            final(self).issued == old(self).issued,
            old(self).phase is Probing ==> final(self).probed(),
            final(self).vm_name == old(self).vm_name,
            final(self).min_snapshot_count == old(self).min_snapshot_count,
            final(self).to_delete == old(self).to_delete,
            final(self).phase == ClearCachePhase::Finished,
            a == ClearCacheAction::Finish(outcome),
    {
        self.phase = ClearCachePhase::Finished;
        ClearCacheAction::Finish(outcome)
    }

    /// Takes the result of the command the run asked for.
    pub fn on_command(&mut self, result: Result<CommandResult, CustomError>) -> (a: ClearCacheAction)
        requires
            old(self).wf(),
            old(self).awaits_command(),
        ensures
            final(self).wf(),
            final(self).vm_name == old(self).vm_name,
            final(self).min_snapshot_count == old(self).min_snapshot_count,
            !(old(self).phase is Listing) ==> final(self).listing == old(self).listing && final(self).deletions
                == old(self).deletions && final(self).to_delete == old(self).to_delete,
            // the final listing done after every deletion, or after the aborted one
            old(self).phase is Probing ==> final(self).probed() && (a == ClearCacheAction::Finish(
                Ok::<(), CustomError>(()),
            ) ==> final(self).deletions@ == final(self).to_delete.len()),
            old(self).phase is Deleting ==> (!(result matches Ok(c) && c.success) ==> final(self).issued@
                == old(self).issued@.push(list_command_text(old(self).vm_name@))),
            // the first listing: a failure ends the run, a success fixes what is deleted
            old(self).phase is Listing ==> (result matches Err(e) ==> final(self).phase
                == ClearCachePhase::Finished && a == ClearCacheAction::Finish(Err::<(), CustomError>(e))),
            old(self).phase is Listing ==> (result matches Ok(c) ==> (!c.success ==> final(self).phase
                == ClearCachePhase::Finished && (a matches ClearCacheAction::Finish(Err(e))
                && e.kind is ErrorMessage && e.kind.spec_message() == nonzero_exit_message(c.command@)))),
            old(self).phase is Listing ==> (result matches Ok(c) ==> (c.success ==> is_deletion_set(
                listing_snapshots(c.stdout@),
                old(self).min_snapshot_count as int,
                views(final(self).to_delete@),
            ) && final(self).continues_at(0, a))),
            // a deletion done, the next one is announced, or the final listing asked for
            old(self).phase is Deleting ==> (result matches Ok(c) ==> (c.success ==> final(self).to_delete
                == old(self).to_delete && final(self).continues_at(old(self).phase->Deleting_0 + 1, a))),
            // a deletion failed: the rest are abandoned, the final listing is asked for
            old(self).phase is Deleting ==> (result matches Err(e) ==> final(self).aborts_with(e, a)),
            old(self).phase is Deleting ==> (result matches Ok(c) ==> (!c.success ==> final(self).phase
                == ClearCachePhase::Probing && final(self).is_probe(a) && (final(self).pending_error matches Some(e)
                && e.kind is ErrorMessage && e.kind.spec_message() == nonzero_exit_message(c.command@)))),
            // the final listing done: the failure that aborted the deletions, if any, ends the run
            old(self).phase is Probing ==> final(self).phase == ClearCachePhase::Finished,
            old(self).phase is Probing ==> (old(self).pending_error matches Some(e) ==> a
                == ClearCacheAction::Finish(Err::<(), CustomError>(e))),
            old(self).phase is Probing && old(self).pending_error is None ==> (result matches Err(e) ==> a
                == ClearCacheAction::Finish(Err::<(), CustomError>(e))),
            old(self).phase is Probing && old(self).pending_error is None ==> (result matches Ok(c) ==> (
            !c.success ==> (a matches ClearCacheAction::Finish(Err(e)) && e.kind is ErrorMessage
                && e.kind.spec_message() == nonzero_exit_message(c.command@)))),
            old(self).phase is Probing && old(self).pending_error is None ==> (result matches Ok(c) ==> (
            c.success ==> a == ClearCacheAction::Finish(Ok::<(), CustomError>(())))),
    {
        match self.phase {
            ClearCachePhase::Listing => match result {
                Err(e) => self.finish(Err(e)),
                Ok(c) => match c.as_result() {
                    Err(e) => self.finish(Err(e)),
                    Ok(c) => {
                        let snapshots = parse_snapshot_listing(c.stdout.as_str());
                        self.to_delete = select_for_deletion(&snapshots, self.min_snapshot_count);
                        self.listing = Ghost(c.stdout@);
                        assert(delete_texts(self.to_delete@.take(0)) =~= Seq::<Seq<char>>::empty());
                        assert(self.issued@ =~= seq![list_command_text(self.vm_name@)] + delete_texts(
                            self.to_delete@.take(0),
                        ));
                        self.continue_at(0)
                    },
                },
            },
            ClearCachePhase::Deleting(i) => match result {
                Err(e) => self.abort(e),
                Ok(c) => match c.as_result() {
                    Err(e) => self.abort(e),
                    Ok(_) => self.continue_at(i + 1),
                },
            },
            _ => {
                let outcome = match result {
                    Err(e) => Err(e),
                    Ok(c) => match c.as_result() {
                        Err(e) => Err(e),
                        Ok(_) => Ok(()),
                    },
                };
                match self.pending_error.take() {
                    Some(e) => self.finish(Err(e)),
                    None => self.finish(outcome),
                }
            },
        }
    }

    /// Takes the outcome of the log line the run asked for.
    pub fn on_logged(&mut self, outcome: Result<(), CustomError>) -> (a: ClearCacheAction)
        requires
            old(self).wf(),
            old(self).awaits_log(),
        ensures
            final(self).wf(),
            final(self).vm_name == old(self).vm_name,
            final(self).min_snapshot_count == old(self).min_snapshot_count,
            final(self).to_delete == old(self).to_delete,
            final(self).listing == old(self).listing,
            outcome is Ok ==> final(self).deletions@ == old(self).deletions@ + 1,
            outcome is Err ==> final(self).deletions == old(self).deletions,
            // a failed announcement aborts the deletions too
            outcome matches Err(e) ==> final(self).aborts_with(e, a),
            // announced, the snapshot is deleted, with its output logged
            outcome is Ok ==> ({
                let i = old(self).phase->Announcing_0;
                let s = old(self).to_delete@[i as int];
                &&& final(self).phase == ClearCachePhase::Deleting(i)
                &&& final(self).pending_error is None
                &&& a matches ClearCacheAction::RunCommand(q)
                &&& q.log_output
                &&& q.command@ == delete_command_text(s.vm_name@, s.snapsnot_name@)
            }),
    {
        match outcome {
            Err(e) => self.abort(e),
            Ok(()) => {
                let i = match self.phase {
                    ClearCachePhase::Announcing(i) => i,
                    _ => 0,
                };
                self.phase = ClearCachePhase::Deleting(i);
                let s = &self.to_delete[i];
                let ghost t = delete_command_text(s.vm_name@, s.snapsnot_name@);
                assert(delete_texts(self.to_delete@.take(i + 1)) =~= delete_texts(self.to_delete@.take(i as int)).push(t));
                self.issued = Ghost(self.issued@.push(t));
                self.deletions = Ghost((i + 1) as nat);
                assert(self.issued@ =~= seq![list_command_text(self.vm_name@)] + delete_texts(
                    self.to_delete@.take(i + 1),
                ));
                ClearCacheAction::RunCommand(
                    exec(delete_command(s.vm_name.as_str(), s.snapsnot_name.as_str()).as_str()),
                )
            },
        }
    }
}

/// Starts pruning the snapshots of a machine: the run first asks for their listing.
pub fn clear_cache(config: &VmConfig) -> (r: (ClearCache, ClearCacheAction))
    ensures
        r.0.wf(),
        r.0.vm_name@ == config.vm_name@,
        r.0.min_snapshot_count == config.min_snapshot_count,
        r.0.phase == ClearCachePhase::Listing,
        r.1 matches ClearCacheAction::RunCommand(q) && !q.log_output && q.command@ == list_command_text(
            config.vm_name@,
        ),
{
    let run = ClearCache {
        vm_name: config.vm_name.clone(),
        min_snapshot_count: config.min_snapshot_count,
        phase: ClearCachePhase::Listing,
        to_delete: Vec::new(),
        pending_error: None,
        issued: Ghost(Seq::empty().push(list_command_text(config.vm_name@))),
        listing: Ghost(Seq::empty()),
        deletions: Ghost(0),
    };
    let a = ClearCacheAction::RunCommand(exec_without_log(list_command(config.vm_name.as_str()).as_str()));
    (run, a)
}

/// What a pruning run asked for once its final listing is requested: the
/// listing, then the deletions of the first `deletions` snapshots of the
/// listing's deletion set, oldest first, then the listing again. When no
/// deletion failed, that is every snapshot of the deletion set,
/// `max(0, N - min_snapshot_count)` of them for a listing of `N` records;
/// when one failed, it is the last deletion asked for.
pub proof fn lemma_run_commands(run: ClearCache)
    requires
        run.probed(),
    ensures
        ({
            let list = list_command_text(run.vm_name@);
            let set = run.to_delete@;
            &&& run.issued@.len() == run.deletions@ + 2
            &&& run.issued@[0] == list && run.issued@.last() == list
            &&& forall|k: int| 0 <= k < run.deletions@ ==> #[trigger] run.issued@[k + 1] == delete_command_text(
                set[k].vm_name@,
                set[k].snapsnot_name@,
            )
            &&& is_deletion_set(listing_snapshots(run.listing@), run.min_snapshot_count as int, views(set))
            &&& run.deletions@ == set.len() ==> run.deletions@ == crate::retention::deletable_count(
                listing_snapshots(run.listing@).len() as int,
                run.min_snapshot_count as int,
            )
        }),
{
    let list = list_command_text(run.vm_name@);
    let dels = delete_texts(run.to_delete@.take(run.deletions@ as int));
    assert forall|k: int| 0 <= k < run.deletions@ implies #[trigger] run.issued@[k + 1] == delete_command_text(
        run.to_delete@[k].vm_name@,
        run.to_delete@[k].snapsnot_name@,
    ) by {
        assert(run.issued@[k + 1] == dels[k]);
    }
}

} // verus!
