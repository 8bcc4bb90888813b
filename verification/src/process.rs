//! The three wrapped backend binaries: their names, how a liveness probe of
//! each child process becomes the status the API reports, and when a start
//! is refused.
use vstd::prelude::*;

use crate::text::{owned, push_str};

verus! {

#[derive(Debug, Clone, Copy, PartialEq, Eq, Hash)]
pub enum ServiceKind {
    Rpxy,
    RpxyL4,
    Stalwart,
}

/// The executable each service is started from.
pub open spec fn binary_name_of(kind: ServiceKind) -> Seq<char> {
    match kind {
        ServiceKind::Rpxy => "rpxy"@,
        ServiceKind::RpxyL4 => "rpxy-l4"@,
        ServiceKind::Stalwart => "stalwart"@,
    }
}

/// The name a service goes by in messages, as `{:?}` prints it.
pub open spec fn debug_name_of(kind: ServiceKind) -> Seq<char> {
    match kind {
        ServiceKind::Rpxy => "Rpxy"@,
        ServiceKind::RpxyL4 => "RpxyL4"@,
        ServiceKind::Stalwart => "Stalwart"@,
    }
}

impl ServiceKind {
    /// The executable this service is started from.
    pub fn binary_name(&self) -> (r: &'static str)
        ensures
            r@ == binary_name_of(*self),
    {
        match self {
            ServiceKind::Rpxy => "rpxy",
            ServiceKind::RpxyL4 => "rpxy-l4",
            ServiceKind::Stalwart => "stalwart",
        }
    }

    /// The name this service goes by in messages.
    pub fn debug_name(&self) -> (r: &'static str)
        ensures
            r@ == debug_name_of(*self),
    {
        match self {
            ServiceKind::Rpxy => "Rpxy",
            ServiceKind::RpxyL4 => "RpxyL4",
            ServiceKind::Stalwart => "Stalwart",
        }
    }
}

/// Every service, in the order the status listing reports them.
pub open spec fn all_kinds_spec() -> Seq<ServiceKind> {
    seq![ServiceKind::Rpxy, ServiceKind::RpxyL4, ServiceKind::Stalwart]
}

/// Every service, in the order the status listing reports them.
pub fn all_kinds() -> (v: Vec<ServiceKind>)
    ensures
        v@ == all_kinds_spec(),
{
    let v = vec![ServiceKind::Rpxy, ServiceKind::RpxyL4, ServiceKind::Stalwart];
    assert(v@ =~= all_kinds_spec());
    v
}

/// What a liveness check of a service's child process found.
#[derive(Debug, Clone, Copy, PartialEq, Eq)]
pub enum ChildProbe {
    /// No child was ever started (or it was stopped).
    Absent,
    /// The child is still running; its process id if the OS still reports one.
    Running(Option<u32>),
    /// The child has exited, or its state could not be read.
    Exited,
}

#[derive(Debug, Clone)]
pub struct ServiceStatus {
    pub kind: ServiceKind,
    pub running: bool,
    pub pid: Option<u32>,
}

/// The status of a service from the probe of its child: running only while
/// the child is alive, with a process id only then.
pub fn service_status(kind: ServiceKind, probe: ChildProbe) -> (s: ServiceStatus)
    ensures
        s.kind == kind,
        s.running == (probe is Running),
        s.pid == (match probe {
            ChildProbe::Running(pid) => pid,
            _ => None,
        }),
{
    let (running, pid) = match probe {
        ChildProbe::Running(pid) => (true, pid),
        _ => (false, None),
    };
    ServiceStatus { kind, running, pid }
}

/// The status listing: one entry per service in the order of
/// [`all_kinds_spec`], each from the probe at the same position.
pub fn status_listing(probes: &Vec<ChildProbe>) -> (out: Vec<ServiceStatus>)
    requires
        probes@.len() == 3,
    ensures
        out@.len() == 3,
        forall|i: int|
            0 <= i < 3 ==> {
                &&& (#[trigger] out@[i]).kind == all_kinds_spec()[i]
                &&& out@[i].running == (probes@[i] is Running)
                &&& out@[i].pid == (match probes@[i] {
                    ChildProbe::Running(pid) => pid,
                    _ => None,
                })
            },
{
    let kinds = all_kinds();
    let mut out: Vec<ServiceStatus> = Vec::new();
    for i in 0..3
        invariant
            kinds@ == all_kinds_spec(),
            probes@.len() == 3,
            out@.len() == i,
            forall|j: int|
                0 <= j < i ==> {
                    &&& (#[trigger] out@[j]).kind == all_kinds_spec()[j]
                    &&& out@[j].running == (probes@[j] is Running)
                    &&& out@[j].pid == (match probes@[j] {
                        ChildProbe::Running(pid) => pid,
                        _ => None,
                    })
                },
    {
        let s = service_status(kinds[i], probes[i]);
        out.push(s);
    }
    out
}

/// Whether a start request may go ahead: refused with
/// "<Kind> is already running" while the service's child is alive.
pub fn check_can_start(kind: ServiceKind, probe: ChildProbe) -> (r: Result<(), String>)
    ensures
        r is Ok <==> !(probe is Running),
        r matches Err(msg) ==> msg@ == debug_name_of(kind) + " is already running"@,
{
    match probe {
        ChildProbe::Running(_) => {
            let mut msg = owned(kind.debug_name());
            push_str(&mut msg, " is already running");
            Err(msg)
        },
        _ => Ok(()),
    }
}

/// The message for a child that could not be spawned.
pub fn spawn_failure_message(kind: ServiceKind, cause: &str) -> (msg: String)
    ensures
        msg@ == "failed to spawn "@ + binary_name_of(kind) + ": "@ + cause@
            + " (is it installed and on PATH?)"@,
{
    let mut msg = owned("failed to spawn ");
    push_str(&mut msg, kind.binary_name());
    push_str(&mut msg, ": ");
    push_str(&mut msg, cause);
    push_str(&mut msg, " (is it installed and on PATH?)");
    msg
}

/// The child process tracked for each service, if any.
pub struct ChildTable<C> {
    rpxy: Option<C>,
    rpxy_l4: Option<C>,
    stalwart: Option<C>,
}

impl<C> ChildTable<C> {
    /// The child tracked for `kind`.
    pub closed spec fn child(&self, kind: ServiceKind) -> Option<C> {
        match kind {
            ServiceKind::Rpxy => self.rpxy,
            ServiceKind::RpxyL4 => self.rpxy_l4,
            ServiceKind::Stalwart => self.stalwart,
        }
    }

    /// Whether two tables track the same children for every service but
    /// `kind`.
    pub open spec fn same_except(&self, other: &Self, kind: ServiceKind) -> bool {
        forall|k: ServiceKind| k != kind ==> #[trigger] self.child(k) == other.child(k)
    }

    /// A table tracking no child.
    pub fn new() -> (t: Self)
        ensures
            forall|k: ServiceKind| #[trigger] t.child(k) is None,
    {
        ChildTable { rpxy: None, rpxy_l4: None, stalwart: None }
    }

    /// Stops tracking `kind`'s child and hands it over (to be killed).
    pub fn take(&mut self, kind: ServiceKind) -> (c: Option<C>)
        ensures
            c == old(self).child(kind),
            final(self).child(kind) is None,
            final(self).same_except(&*old(self), kind),
    {
        match kind {
            ServiceKind::Rpxy => self.rpxy.take(),
            ServiceKind::RpxyL4 => self.rpxy_l4.take(),
            ServiceKind::Stalwart => self.stalwart.take(),
        }
    }

    /// Tracks `c` as `kind`'s child.
    pub fn put(&mut self, kind: ServiceKind, c: C)
        ensures
            final(self).child(kind) == Some(c),
            final(self).same_except(&*old(self), kind),
    {
        match kind {
            ServiceKind::Rpxy => self.rpxy = Some(c),
            ServiceKind::RpxyL4 => self.rpxy_l4 = Some(c),
            ServiceKind::Stalwart => self.stalwart = Some(c),
        }
    }
}

/// Whether the start check admits `kind` without probing anything: no child
/// is tracked for it.
pub open spec fn start_admits<C>(t: ChildTable<C>, kind: ServiceKind) -> bool {
    t.child(kind) is None
}

/// The check a start request passes before spawning: a service with no
/// tracked child may start; a tracked child is probed with `probe` (which
/// hands the child back) and kept, and the start is refused while it runs.
pub fn start_gate<C, F: FnOnce(C) -> (C, ChildProbe)>(
    table: &mut ChildTable<C>,
    kind: ServiceKind,
    probe: F,
) -> (r: Result<(), String>)
    requires
        old(table).child(kind) matches Some(c) ==> probe.requires((c,)),
    ensures
        final(table).same_except(&*old(table), kind),
        start_admits(*old(table), kind) ==> r is Ok && final(table).child(kind) is None,
        old(table).child(kind) matches Some(c) ==> exists|c2: C, p: ChildProbe|
            #[trigger] probe.ensures((c,), (c2, p)) && final(table).child(kind) == Some(c2) && (
            r is Ok <==> !(p is Running)),
        r matches Err(msg) ==> msg@ == debug_name_of(kind) + " is already running"@,
{
    match table.take(kind) {
        None => Ok(()),
        Some(c) => {
            let ghost old_c = c;
            let (c2, p) = probe(c);
            table.put(kind, c2);
            let r = check_can_start(kind, p);
            assert(probe.ensures((old_c,), (c2, p)));
            r
        },
    }
}

/// A restart is a stop and then a start: whatever the table tracked, the
/// stop ([`ChildTable::take`]) leaves it so that [`start_gate`] admits the
/// service, so the restart is never refused as already running and only
/// spawning can make it fail; the other services keep their children.
pub proof fn lemma_restart_start_admitted<C>(
    before: ChildTable<C>,
    after_stop: ChildTable<C>,
    kind: ServiceKind,
)
    requires
        after_stop.child(kind) is None,
        after_stop.same_except(&before, kind),
    ensures
        start_admits(after_stop, kind),
        forall|k: ServiceKind| k != kind ==> #[trigger] after_stop.child(k) == before.child(k),
{
}

} // verus!
