use vstd::prelude::*;

use crate::errors::{CustomError, CustomErrorKind};

verus! {

/// Where and how failure reports are mailed.
#[derive(Debug, Clone)]
pub struct EmailConfig {
    pub notification_emails: Vec<String>,
    pub smtp_username: String,
    pub smtp_password: String,
    pub smtp_host: String,
    pub smtp_port: u16,
}

/// The retention policy of one virtual machine.
#[derive(Debug, Clone)]
pub struct VmConfig {
    pub vm_name: String,
    pub min_snapshot_count: i32,
}

/// The application's configuration; `snapshot_config` maps a name given on
/// the command line to the policy of a machine.
#[derive(Debug, Clone)]
pub struct AppConfig {
    pub hostname: String,
    pub sentry_dsn: String,
    pub email_config: EmailConfig,
    pub snapshot_config: Option<Vec<(String, VmConfig)>>,
}

impl AppConfig {
    /// Each policy is configured under a name of its own.
    pub open spec fn wf(&self) -> bool {
        self.snapshot_config matches Some(v) ==> forall|i: int, j: int|
            0 <= i < j < v@.len() ==> (#[trigger] v@[i]).0@ != (#[trigger] v@[j]).0@
    }

    /// Whether no name is configured twice.
    pub fn has_unique_names(&self) -> (r: bool)
        ensures
            r == self.wf(),
    {
        match &self.snapshot_config {
            None => true,
            Some(v) => {
                let mut j: usize = 0;
                while j < v.len()
                    invariant
                        j <= v.len(),
                        self.snapshot_config == Some(*v),
                        forall|a: int, b: int| 0 <= a < b < j ==> (#[trigger] v@[a]).0@ != (#[trigger] v@[b]).0@,
                    decreases v.len() - j,
                {
                    let mut i: usize = 0;
                    while i < j
                        invariant
                            i <= j < v.len(),
                            self.snapshot_config == Some(*v),
                            forall|a: int| 0 <= a < i ==> (#[trigger] v@[a]).0@ != v@[j as int].0@,
                        decreases j - i,
                    {
                        if v[i].0 == v[j].0 {
                            proof {
                                let w = self.snapshot_config->Some_0;
                                assert(w@[i as int].0@ == w@[j as int].0@);
                                assert(!self.wf());
                            }
                            return false;
                        }
                        i = i + 1;
                    }
                    j = j + 1;
                }
                true
            },
        }
    }
}

/// The policy configured under `name`: the entry with that key (the first,
/// should a name be configured twice).
pub open spec fn lookup_vm(entries: Seq<(String, VmConfig)>, name: Seq<char>) -> Option<VmConfig>
    decreases entries.len(),
{
    if entries.len() == 0 {
        None
    } else if entries[0].0@ == name {
        Some(entries[0].1)
    } else {
        lookup_vm(entries.skip(1), name)
    }
}

pub open spec fn configured_vm(config: AppConfig, name: Seq<char>) -> Option<VmConfig> {
    match config.snapshot_config {
        Some(entries) => lookup_vm(entries@, name),
        None => None,
    }
}

pub open spec fn not_configured_message(name: Seq<char>) -> Seq<char> {
    "``xdxd-snapshot-rotator` not configured for vm `"@ + name + "`"@
}

pub(crate) fn copy_vm_config(c: &VmConfig) -> (r: VmConfig)
    ensures
        r.vm_name@ == c.vm_name@,
        r.min_snapshot_count == c.min_snapshot_count,
{
    VmConfig { vm_name: c.vm_name.clone(), min_snapshot_count: c.min_snapshot_count }
}

/// The policy configured for `vm_name`, or a failure saying that there is none.
pub fn find_vm_config(config: &AppConfig, vm_name: &str) -> (r: Result<VmConfig, CustomError>)
    ensures
        configured_vm(*config, vm_name@) matches Some(c) ==> (r matches Ok(v) && v.vm_name@ == c.vm_name@
            && v.min_snapshot_count == c.min_snapshot_count),
        configured_vm(*config, vm_name@) is None ==> (r matches Err(e) && e.kind is ErrorMessage
            && e.kind.spec_message() == not_configured_message(vm_name@)),
{
    let name = String::from_str(vm_name);
    match &config.snapshot_config {
        Some(entries) => {
            let mut i: usize = 0;
            assert(entries@.skip(0) =~= entries@);
            while i < entries.len()
                invariant
                    i <= entries.len(),
                    configured_vm(*config, vm_name@) == lookup_vm(entries@, vm_name@),
                    name@ == vm_name@,
                    lookup_vm(entries@, vm_name@) == lookup_vm(entries@.skip(i as int), vm_name@),
                decreases entries.len() - i,
            {
                assert(entries@.skip(i as int).skip(1) =~= entries@.skip(i + 1));
                assert(entries@.skip(i as int)[0] == entries@[i as int]);
                if entries[i].0 == name {
                    return Ok(copy_vm_config(&entries[i].1));
                }
                i = i + 1;
            }
        },
        None => {},
    }
    let mut m = String::from_str("``xdxd-snapshot-rotator` not configured for vm `");
    m.append(vm_name);
    m.append("`");
    Err(CustomError::from_kind(CustomErrorKind::ErrorMessage(m)))
}

} // verus!
