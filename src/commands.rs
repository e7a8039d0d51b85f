use vstd::prelude::*;

use crate::app_config::{configured_vm, find_vm_config, not_configured_message, AppConfig, VmConfig};
use crate::bash_shell::{exec, exec_without_log, ShellRequest};
use crate::errors::CustomError;
use crate::bash_shell::{nonzero_exit_message, CommandResult};
use crate::snapshot::{listing_snapshots, snapshot_of_id, views, SnapshotModel, VmSnapshot};
use crate::snapshot_helper::list_snapshots;
use crate::snapshot_helper::{
    clear_cache, create_command, create_command_text, list_command, list_command_text, ClearCache,
    ClearCacheAction, ClearCachePhase,
};
use crate::text::{push_signed_decimal, signed_decimal};

verus! {

pub uninterp spec fn utc_display(secs: int) -> Option<Seq<char>>;

/// Relies on chrono::DateTime::from_timestamp and its `Display`: the UTC
/// time `secs` seconds after the Unix epoch, as `YYYY-MM-DD hh:mm:ss UTC`,
/// or `None` outside the range chrono represents.
#[verifier::external_body]
fn format_utc(secs: i64) -> (r: Option<String>)
    ensures
        crate::stacktrace::opt_view(r) == utc_display(secs as int),
{
    match chrono::DateTime::from_timestamp(secs, 0) {
        Some(d) => Some(d.to_string()),
        None => None,
    }
}

/// The `clear-cache` command: prune the snapshots of the machine configured
/// under `vm_name`.
pub fn clear_cache_command(config: &AppConfig, vm_name: &str) -> (r: Result<(ClearCache, ClearCacheAction), CustomError>)
    ensures
        configured_vm(*config, vm_name@) is None ==> (r matches Err(e) && e.kind is ErrorMessage
            && e.kind.spec_message() == not_configured_message(vm_name@)),
        configured_vm(*config, vm_name@) matches Some(c) ==> (r matches Ok(p) && p.0.wf() && p.0.phase
            == ClearCachePhase::Listing && p.0.vm_name@ == c.vm_name@ && p.0.min_snapshot_count
            == c.min_snapshot_count && (p.1 matches ClearCacheAction::RunCommand(q) && !q.log_output
            && q.command@ == list_command_text(c.vm_name@))),
{
    let vm = find_vm_config(config, vm_name)?;
    Ok(clear_cache(&vm))
}

/// The `list` command: the listing request for the machine configured under `vm_name`.
pub fn list_shapshot_command(config: &AppConfig, vm_name: &str) -> (r: Result<ShellRequest, CustomError>)
    ensures
        configured_vm(*config, vm_name@) is None ==> (r matches Err(e) && e.kind is ErrorMessage
            && e.kind.spec_message() == not_configured_message(vm_name@)),
        configured_vm(*config, vm_name@) matches Some(c) ==> (r matches Ok(q) && !q.log_output
            && q.command@ == list_command_text(c.vm_name@)),
{
    let vm = find_vm_config(config, vm_name)?;
    Ok(exec_without_log(list_command(vm.vm_name.as_str()).as_str()))
}

/// The line that shows one listed snapshot: machine, then creation time in
/// UTC (the epoch seconds when chrono cannot represent that time).
pub open spec fn listed_line(s: SnapshotModel) -> Seq<char> {
    s.vm_name + " "@ + match utc_display(s.date) {
        Some(t) => t,
        None => signed_decimal(s.date),
    }
}

/// The line that shows one listed snapshot.
pub fn snapshot_line(s: &VmSnapshot) -> (r: String)
    ensures
        r@ == listed_line(s@),
{
    let mut l = s.vm_name.clone();
    l.append(" ");
    match format_utc(s.date) {
        Some(t) => l.append(t.as_str()),
        None => push_signed_decimal(&mut l, s.date),
    }
    l
}

/// What the `list` command logs for the result of its listing request: one
/// line per record, in listing order; a failure when the listing failed.
pub fn list_shapshot_lines(listing: CommandResult) -> (r: Result<Vec<String>, CustomError>)
    ensures
        listing.success ==> (r matches Ok(v) && v@.len() == listing_snapshots(listing.stdout@).len() && forall|i: int|
            0 <= i < v@.len() ==> #[trigger] v@[i]@ == listed_line(listing_snapshots(listing.stdout@)[i])),
        !listing.success ==> (r matches Err(e) && e.kind is ErrorMessage && e.kind.spec_message()
            == nonzero_exit_message(listing.command@)),
{
    let ghost stdout = listing.stdout@;
    let snapshots = list_snapshots(listing)?;
    let mut lines: Vec<String> = Vec::new();
    let mut i: usize = 0;
    while i < snapshots.len()
        invariant
            i <= snapshots.len(),
            views(snapshots@) == listing_snapshots(stdout),
            lines@.len() == i,
            forall|j: int| 0 <= j < i ==> #[trigger] lines@[j]@ == listed_line(listing_snapshots(stdout)[j]),
        decreases snapshots.len() - i,
    {
        let l = snapshot_line(&snapshots[i]);
        assert(snapshots@[i as int]@ == views(snapshots@)[i as int]);
        lines.push(l);
        i = i + 1;
    }
    Ok(lines)
}

/// The name of a snapshot taken at `epoch_secs`, whose local time reads
/// `local_time`: `{vm}.{local time}.{epoch seconds}`.
pub open spec fn snapshot_name_text(vm_name: Seq<char>, local_time: Seq<char>, epoch_secs: int) -> Seq<char> {
    vm_name + "."@ + local_time + "."@ + signed_decimal(epoch_secs)
}

pub fn snapshot_name(vm_name: &str, local_time: &str, epoch_secs: i64) -> (r: String)
    ensures
        r@ == snapshot_name_text(vm_name@, local_time@, epoch_secs as int),
{
    let mut s = String::from_str(vm_name);
    s.append(".");
    s.append(local_time);
    s.append(".");
    push_signed_decimal(&mut s, epoch_secs);
    s
}

/// The `create` command: the policy of the machine configured under
/// `vm_name`, and the request that snapshots it under a name made of the
/// start time of the run.
pub fn create_shapshot_command(config: &AppConfig, vm_name: &str, local_time: &str, epoch_secs: i64) -> (r: Result<(VmConfig, ShellRequest), CustomError>)
    ensures
        configured_vm(*config, vm_name@) is None ==> (r matches Err(e) && e.kind is ErrorMessage
            && e.kind.spec_message() == not_configured_message(vm_name@)),
        configured_vm(*config, vm_name@) matches Some(c) ==> (r matches Ok(p) && p.0.vm_name@ == c.vm_name@
            && p.0.min_snapshot_count == c.min_snapshot_count && p.1.log_output && p.1.command@
            == create_command_text(c.vm_name@, snapshot_name_text(c.vm_name@, local_time@, epoch_secs as int))),
{
    let vm = find_vm_config(config, vm_name)?;
    let name = snapshot_name(vm.vm_name.as_str(), local_time, epoch_secs);
    let request = exec(create_command(vm.vm_name.as_str(), name.as_str()).as_str());
    Ok((vm, request))
}

/// A snapshot made by `create` is read back by a listing as its machine and
/// its epoch seconds, when neither the machine name nor the local time holds a `.`.
pub proof fn lemma_created_name_lists_back(vm_name: Seq<char>, local_time: Seq<char>, epoch_secs: i64)
    requires
        forall|i: int| 0 <= i < vm_name.len() ==> vm_name[i] != '.',
        forall|i: int| 0 <= i < local_time.len() ==> local_time[i] != '.',
    ensures
        snapshot_of_id(snapshot_name_text(vm_name, local_time, epoch_secs as int)) == Some(
            SnapshotModel {
                vm_name,
                date: epoch_secs as int,
                id: snapshot_name_text(vm_name, local_time, epoch_secs as int),
            },
        ),
{
    let e = signed_decimal(epoch_secs as int);
    let id = snapshot_name_text(vm_name, local_time, epoch_secs as int);
    crate::text::lemma_signed_decimal_reads_back(epoch_secs as int);
    reveal_strlit(".");
    let a = vm_name.len() as int;
    let b = a + 1 + local_time.len();
    assert(id =~= vm_name + seq!['.'] + local_time + seq!['.'] + e);
    assert(id[a] == '.');
    assert(id[b] == '.');
    assert forall|j: int| b < j < id.len() implies id[j] != '.' by {
        assert(id[j] == e[j - b - 1]);
    }
    crate::text::lemma_last_index_is(id, '.', b);
    assert forall|j: int| 0 <= j < a implies id[j] != '.' by {
        assert(id[j] == vm_name[j]);
    }
    crate::text::lemma_index_from_is(id, '.', 0, a);
    assert(id.subrange(b + 1, id.len() as int) =~= e);
    assert(id.take(a) =~= vm_name);
}

} // verus!
