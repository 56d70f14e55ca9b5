//! Live, serialized BBMD administration.
//!
//! The controller can only narrow the BBMD's policy, and every mutation
//! passes through [`BbmdState`] validation before it becomes visible. Each
//! accepted mutation advances a revision number. Replacing the BDT is split
//! in two so that a persistence step can sit between validation and commit:
//! an invalid candidate changes nothing.

use vstd::prelude::*;
use vstd::string::StringExecFns;
use crate::bbmd::{
    bdt_error_text, bdt_outcome, bdt_peers, entry_fault, lemma_committed_bdt_revalidates, peers_of, self_entry,
    BbmdState, BdtEntry, MAX_BDT_ENTRIES,
};

verus! {

/// Maximum number of source addresses accepted by the live management ACL.
pub const MAX_MANAGEMENT_ACL_ENTRIES: usize = 256;

/// Lifecycle of a BBMD controller.
#[derive(Clone, Copy, Debug, PartialEq, Eq, Structural)]
pub enum BbmdLifecycle {
    /// The BBMD has not started.
    NotStarted,
    /// The BBMD is running.
    Running,
    /// The BBMD has stopped.
    Stopped,
}

/// Typed live-control failure.
#[derive(Clone, Debug, PartialEq, Eq)]
pub enum BbmdControlError {
    /// The BBMD has not started.
    NotStarted,
    /// The BBMD has stopped.
    Stopped,
    /// The requested value was refused.
    Invalid(String),
    /// Persisting the change failed.
    Io(String),
}

impl BbmdControlError {
    /// Human-readable text of the failure.
    pub fn message(&self) -> (r: String)
        ensures
            *self == BbmdControlError::NotStarted ==> r@ == "BBMD has not started"@,
            *self == BbmdControlError::Stopped ==> r@ == "BBMD has stopped"@,
            self matches BbmdControlError::Invalid(m) ==> r@ == "invalid BBMD control value: "@ + m@,
            self matches BbmdControlError::Io(m) ==> r@ == "BBMD persistence failed: "@ + m@,
    {
        match self {
            BbmdControlError::NotStarted => "BBMD has not started".to_owned(),
            BbmdControlError::Stopped => "BBMD has stopped".to_owned(),
            BbmdControlError::Invalid(reason) => invalid_text(reason.as_str()),
            BbmdControlError::Io(reason) => io_text(reason.as_str()),
        }
    }
}

/// Text of a refused value.
fn invalid_text(reason: &str) -> (r: String)
    ensures
        r@ == "invalid BBMD control value: "@ + reason@,
{
    let mut m = "invalid BBMD control value: ".to_owned();
    m.append(reason);
    m
}

/// Text of a persistence failure.
fn io_text(reason: &str) -> (r: String)
    ensures
        r@ == "BBMD persistence failed: "@ + reason@,
{
    let mut m = "BBMD persistence failed: ".to_owned();
    m.append(reason);
    m
}

/// Owned point-in-time view of live BBMD state.
#[derive(Clone, Debug)]
pub struct BbmdSnapshot {
    /// Revision of the last accepted mutation.
    pub revision: u64,
    /// Broadcast Distribution Table.
    pub bdt: Vec<BdtEntry>,
    /// Whether foreign-device registrations are accepted.
    pub accept_foreign_devices: bool,
    /// Foreign Device Table capacity.
    pub max_fdt_entries: usize,
    /// Addresses allowed to send management requests.
    pub management_acl: Vec<[u8; 4]>,
    /// Inbound Write-BDT is intentionally not enabled by this control API.
    pub wire_bdt_writes_enabled: bool,
    /// Where the BDT is persisted, if anywhere.
    pub bdt_persist_path: Option<String>,
}

/// A copy of `s`.
fn copy_all<T: Copy>(s: &[T]) -> (r: Vec<T>)
    ensures
        r@ == s@,
{
    let mut out: Vec<T> = Vec::new();
    let mut i: usize = 0;
    while i < s.len()
        invariant
            i <= s@.len(),
            out@ == s@.subrange(0, i as int),
        decreases s@.len() - i,
    {
        out.push(s[i]);
        i = i + 1;
        assert(out@ =~= s@.subrange(0, i as int));
    }
    assert(out@ =~= s@);
    out
}

/// Revision after one more accepted mutation (wrapping).
pub open spec fn next_revision(r: u64) -> u64 {
    if r == u64::MAX {
        0
    } else {
        (r + 1) as u64
    }
}

/// The lifecycle error, if the controller cannot act.
pub open spec fn lifecycle_error(l: BbmdLifecycle) -> Option<BbmdControlError> {
    match l {
        BbmdLifecycle::NotStarted => Some(BbmdControlError::NotStarted),
        BbmdLifecycle::Stopped => Some(BbmdControlError::Stopped),
        BbmdLifecycle::Running => None,
    }
}

/// BBMD administration state.
pub struct BbmdControl {
    lifecycle: BbmdLifecycle,
    revision: u64,
    state: Option<BbmdState>,
    persist_path: Option<String>,
}

impl BbmdControl {
    /// Lifecycle.
    pub closed spec fn lifecycle_view(&self) -> BbmdLifecycle {
        self.lifecycle
    }

    /// Revision of the last accepted mutation.
    pub closed spec fn revision_view(&self) -> u64 {
        self.revision
    }

    /// The BBMD state while running.
    pub closed spec fn state_view(&self) -> Option<BbmdState> {
        self.state
    }

    /// Where the BDT is persisted, if anywhere.
    pub closed spec fn persist_view(&self) -> Option<String> {
        self.persist_path
    }

    /// Well-formedness: exactly a running controller holds state.
    pub closed spec fn wf(&self) -> bool {
        (self.lifecycle == BbmdLifecycle::Running) == (self.state is Some)
    }

    /// A controller before its BBMD starts.
    pub fn new() -> (r: BbmdControl)
        ensures
            r.wf(),
            r.lifecycle_view() == BbmdLifecycle::NotStarted,
            r.revision_view() == 0,
    {
        BbmdControl { lifecycle: BbmdLifecycle::NotStarted, revision: 0, state: None, persist_path: None }
    }

    /// The BBMD started with `state`, persisting its BDT at `persist_path`.
    pub fn attach(&mut self, state: BbmdState, persist_path: Option<String>)
        ensures
            final(self).wf(),
            final(self).lifecycle_view() == BbmdLifecycle::Running,
            final(self).state_view() == Some(state),
            final(self).persist_view() == persist_path,
            final(self).revision_view() == old(self).revision_view(),
    {
        self.state = Some(state);
        self.persist_path = persist_path;
        self.lifecycle = BbmdLifecycle::Running;
    }

    /// The BBMD stopped; the controller refuses every further request.
    pub fn stop(&mut self)
        ensures
            final(self).wf(),
            final(self).lifecycle_view() == BbmdLifecycle::Stopped,
            final(self).revision_view() == old(self).revision_view(),
    {
        self.lifecycle = BbmdLifecycle::Stopped;
        self.state = None;
    }

    /// Current lifecycle.
    pub fn lifecycle(&self) -> (r: BbmdLifecycle)
        ensures
            r == self.lifecycle_view(),
    {
        self.lifecycle
    }

    /// Where the BDT is persisted, if anywhere.
    pub fn persist_path(&self) -> (r: Option<&String>)
        ensures
            r matches Some(p) ==> self.persist_view() == Some(*p),
            r is None ==> self.persist_view() is None,
    {
        self.persist_path.as_ref()
    }

    fn lifecycle_check(&self) -> (r: Result<(), BbmdControlError>)
        requires
            self.wf(),
        ensures
            r is Ok <==> lifecycle_error(self.lifecycle_view()) is None,
            r matches Err(e) ==> Some(e) == lifecycle_error(self.lifecycle_view()),
    {
        match self.lifecycle {
            BbmdLifecycle::NotStarted => Err(BbmdControlError::NotStarted),
            BbmdLifecycle::Stopped => Err(BbmdControlError::Stopped),
            BbmdLifecycle::Running => Ok(()),
        }
    }

    fn advance_revision(&mut self) -> (r: u64)
        ensures
            r == next_revision(old(self).revision_view()),
            final(self).revision_view() == r,
            final(self).lifecycle_view() == old(self).lifecycle_view(),
            final(self).state_view() == old(self).state_view(),
            final(self).wf() == old(self).wf(),
    {
        self.revision = if self.revision == u64::MAX {
            0
        } else {
            self.revision + 1
        };
        self.revision
    }

    /// One point-in-time observation of the live BBMD.
    pub fn snapshot(&self) -> (r: Result<BbmdSnapshot, BbmdControlError>)
        requires
            self.wf(),
        ensures
            r is Ok <==> self.lifecycle_view() == BbmdLifecycle::Running,
            r matches Err(e) ==> Some(e) == lifecycle_error(self.lifecycle_view()),
            r matches Ok(s) ==> {
                &&& s.revision == self.revision_view()
                &&& s.bdt@ == self.state_view()->0.bdt_view()
                &&& s.accept_foreign_devices == self.state_view()->0.accepts_foreign_devices_view()
                &&& s.max_fdt_entries == self.state_view()->0.max_fdt_entries_view()
                &&& s.management_acl@ == self.state_view()->0.management_acl_view()
                &&& !s.wire_bdt_writes_enabled
            },
    {
        self.lifecycle_check()?;
        match &self.state {
            Some(state) => Ok(BbmdSnapshot {
                revision: self.revision,
                bdt: copy_all(state.bdt()),
                accept_foreign_devices: state.accepts_foreign_devices(),
                max_fdt_entries: state.max_fdt_entries(),
                management_acl: copy_all(state.management_acl()),
                wire_bdt_writes_enabled: false,
                bdt_persist_path: self.persist_path.clone(),
            }),
            None => Err(BbmdControlError::Stopped),
        }
    }

    /// First half of a BDT replacement: the table that committing `entries`
    /// would produce. A candidate over the hard cap is refused before
    /// anything else; then the lifecycle; then the BBMD's validation.
    pub fn prepare_bdt(&self, entries: &Vec<BdtEntry>) -> (r: Result<Vec<BdtEntry>, BbmdControlError>)
        requires
            self.wf(),
        ensures
            entries@.len() > MAX_BDT_ENTRIES ==> r is Err && r->Err_0 is Invalid,
            entries@.len() <= MAX_BDT_ENTRIES && lifecycle_error(self.lifecycle_view()) is Some
                ==> r == Err::<Vec<BdtEntry>, BbmdControlError>(lifecycle_error(self.lifecycle_view())->0),
            entries@.len() <= MAX_BDT_ENTRIES && self.lifecycle_view() == BbmdLifecycle::Running ==> match bdt_outcome(
                entries@,
                self.state_view()->0.local_ip_view(),
                self.state_view()->0.local_port_view(),
            ) {
                Ok(t) => r matches Ok(v) && v@ == t,
                Err(e) => r matches Err(BbmdControlError::Invalid(m)) && m@ == bdt_error_text(e),
            },
    {
        if entries.len() > MAX_BDT_ENTRIES {
            return Err(BbmdControlError::Invalid("BDT exceeds hard cap".to_owned()));
        }
        self.lifecycle_check()?;
        match &self.state {
            Some(state) => match state.validate_bdt(entries) {
                Ok(table) => Ok(table),
                Err(e) => Err(BbmdControlError::Invalid(crate::bbmd::bdt_error_message(e))),
            },
            None => Err(BbmdControlError::Stopped),
        }
    }

    /// Second half of a BDT replacement: commits `table` and advances the
    /// revision. A table that the BBMD refuses changes nothing.
    pub fn commit_bdt(&mut self, table: Vec<BdtEntry>) -> (r: Result<u64, BbmdControlError>)
        requires
            old(self).wf(),
        ensures
            final(self).wf(),
            lifecycle_error(old(self).lifecycle_view()) is Some ==> r == Err::<u64, BbmdControlError>(
                lifecycle_error(old(self).lifecycle_view())->0,
            ) && *final(self) == *old(self),
            old(self).lifecycle_view() == BbmdLifecycle::Running ==> match bdt_outcome(
                table@,
                old(self).state_view()->0.local_ip_view(),
                old(self).state_view()->0.local_port_view(),
            ) {
                Ok(t) => r == Ok::<u64, BbmdControlError>(next_revision(old(self).revision_view()))
                    && final(self).revision_view() == next_revision(old(self).revision_view())
                    && final(self).state_view()->0.bdt_view() == t,
                Err(e) => r matches Err(BbmdControlError::Invalid(m)) && m@ == bdt_error_text(e)
                    && final(self).revision_view() == old(self).revision_view()
                    && final(self).state_view()->0.bdt_view() == old(self).state_view()->0.bdt_view(),
            },
            final(self).lifecycle_view() == old(self).lifecycle_view(),
    {
        self.lifecycle_check()?;
        let outcome = match &mut self.state {
            Some(state) => state.set_bdt(table),
            None => return Err(BbmdControlError::Stopped),
        };
        match outcome {
            Ok(()) => Ok(self.advance_revision()),
            Err(e) => Err(BbmdControlError::Invalid(e.message())),
        }
    }

    /// Replaces the BDT without persistence: [`Self::prepare_bdt`], then
    /// [`Self::commit_bdt`] of the prepared table.
    pub fn replace_bdt(&mut self, entries: Vec<BdtEntry>) -> (r: Result<u64, BbmdControlError>)
        requires
            old(self).wf(),
        ensures
            final(self).wf(),
            entries@.len() > MAX_BDT_ENTRIES ==> r is Err && r->Err_0 is Invalid && *final(self) == *old(self),
            entries@.len() <= MAX_BDT_ENTRIES && lifecycle_error(old(self).lifecycle_view()) is Some ==> r == Err::<
                u64,
                BbmdControlError,
            >(lifecycle_error(old(self).lifecycle_view())->0) && *final(self) == *old(self),
            entries@.len() <= MAX_BDT_ENTRIES && old(self).lifecycle_view() == BbmdLifecycle::Running ==> match bdt_outcome(
                entries@,
                old(self).state_view()->0.local_ip_view(),
                old(self).state_view()->0.local_port_view(),
            ) {
                Ok(t) => (match bdt_outcome(
                    t,
                    old(self).state_view()->0.local_ip_view(),
                    old(self).state_view()->0.local_port_view(),
                ) {
                    Ok(t2) => r == Ok::<u64, BbmdControlError>(next_revision(old(self).revision_view()))
                        && final(self).revision_view() == next_revision(old(self).revision_view())
                        && final(self).state_view()->0.bdt_view() == t2,
                    Err(e2) => r matches Err(BbmdControlError::Invalid(m)) && m@ == bdt_error_text(e2)
                        && final(self).revision_view() == old(self).revision_view()
                        && final(self).state_view()->0.bdt_view() == old(self).state_view()->0.bdt_view(),
                }) && (entry_fault(
                    self_entry(old(self).state_view()->0.local_ip_view(), old(self).state_view()->0.local_port_view()),
                ) is None ==> r == Ok::<u64, BbmdControlError>(next_revision(old(self).revision_view()))
                    && final(self).state_view()->0.bdt_view() == t),
                Err(e) => r matches Err(BbmdControlError::Invalid(m)) && m@ == bdt_error_text(e) && *final(self)
                    == *old(self),
            },
    {
        let table = self.prepare_bdt(&entries)?;
        proof {
            let st = self.state_view()->0;
            if bdt_outcome(entries@, st.local_ip_view(), st.local_port_view()) is Ok
                && entry_fault(self_entry(st.local_ip_view(), st.local_port_view())) is None {
                lemma_committed_bdt_revalidates(entries@, st.local_ip_view(), st.local_port_view());
            }
        }
        self.commit_bdt(table)
    }
}


impl BbmdControl {
    /// Opens or closes the foreign-device registration gate.
    pub fn set_accept_foreign_devices(&mut self, accept: bool) -> (r: Result<u64, BbmdControlError>)
        requires
            old(self).wf(),
        ensures
            final(self).wf(),
            lifecycle_error(old(self).lifecycle_view()) is Some ==> r == Err::<u64, BbmdControlError>(
                lifecycle_error(old(self).lifecycle_view())->0,
            ) && *final(self) == *old(self),
            old(self).lifecycle_view() == BbmdLifecycle::Running ==> r == Ok::<u64, BbmdControlError>(
                next_revision(old(self).revision_view()),
            ) && final(self).revision_view() == next_revision(old(self).revision_view())
                && final(self).state_view()->0.accepts_foreign_devices_view() == accept
                && final(self).state_view()->0.bdt_view() == old(self).state_view()->0.bdt_view(),
            final(self).lifecycle_view() == old(self).lifecycle_view(),
    {
        self.lifecycle_check()?;
        match &mut self.state {
            Some(state) => state.set_accept_foreign_devices(accept),
            None => return Err(BbmdControlError::Stopped),
        }
        Ok(self.advance_revision())
    }

    /// Sets the Foreign Device Table capacity (`1..=512`).
    pub fn set_max_fdt_entries(&mut self, maximum: usize) -> (r: Result<u64, BbmdControlError>)
        requires
            old(self).wf(),
        ensures
            final(self).wf(),
            lifecycle_error(old(self).lifecycle_view()) is Some ==> r == Err::<u64, BbmdControlError>(
                lifecycle_error(old(self).lifecycle_view())->0,
            ) && *final(self) == *old(self),
            old(self).lifecycle_view() == BbmdLifecycle::Running && 1 <= maximum <= crate::bbmd::MAX_FDT_ENTRIES ==> r
                == Ok::<u64, BbmdControlError>(next_revision(old(self).revision_view()))
                && final(self).state_view()->0.max_fdt_entries_view() == maximum,
            old(self).lifecycle_view() == BbmdLifecycle::Running && !(1 <= maximum <= crate::bbmd::MAX_FDT_ENTRIES)
                ==> r is Err && r->Err_0 is Invalid && final(self).revision_view() == old(self).revision_view()
                && final(self).state_view()->0.max_fdt_entries_view() == old(self).state_view()->0.max_fdt_entries_view(),
            final(self).lifecycle_view() == old(self).lifecycle_view(),
    {
        self.lifecycle_check()?;
        let outcome = match &mut self.state {
            Some(state) => state.set_max_fdt_entries(maximum),
            None => return Err(BbmdControlError::Stopped),
        };
        match outcome {
            Ok(()) => Ok(self.advance_revision()),
            Err(e) => Err(BbmdControlError::Invalid(e.message())),
        }
    }

    /// Replaces the management ACL; more than 256 addresses are refused
    /// before anything else.
    pub fn set_management_acl(&mut self, acl: Vec<[u8; 4]>) -> (r: Result<u64, BbmdControlError>)
        requires
            old(self).wf(),
        ensures
            final(self).wf(),
            acl@.len() > MAX_MANAGEMENT_ACL_ENTRIES ==> r is Err && r->Err_0 is Invalid && *final(self) == *old(self),
            acl@.len() <= MAX_MANAGEMENT_ACL_ENTRIES && lifecycle_error(old(self).lifecycle_view()) is Some ==> r
                == Err::<u64, BbmdControlError>(lifecycle_error(old(self).lifecycle_view())->0) && *final(self)
                == *old(self),
            acl@.len() <= MAX_MANAGEMENT_ACL_ENTRIES && old(self).lifecycle_view() == BbmdLifecycle::Running ==> r
                == Ok::<u64, BbmdControlError>(next_revision(old(self).revision_view()))
                && final(self).state_view()->0.management_acl_view() == acl@,
            final(self).lifecycle_view() == old(self).lifecycle_view(),
    {
        if acl.len() > MAX_MANAGEMENT_ACL_ENTRIES {
            return Err(BbmdControlError::Invalid("management ACL exceeds hard cap".to_owned()));
        }
        self.lifecycle_check()?;
        match &mut self.state {
            Some(state) => state.set_management_acl(acl),
            None => return Err(BbmdControlError::Stopped),
        }
        Ok(self.advance_revision())
    }
}

impl BbmdControl {
    /// What a BDT replacement persists: the peers of `table` (a table that
    /// [`Self::prepare_bdt`] produced), leaving out the BBMD's own entry,
    /// which is derived from its address at every start.
    pub fn peers_to_persist(&self, table: &[BdtEntry]) -> (r: Result<Vec<BdtEntry>, BbmdControlError>)
        requires
            self.wf(),
        ensures
            lifecycle_error(self.lifecycle_view()) is Some ==> r == Err::<Vec<BdtEntry>, BbmdControlError>(
                lifecycle_error(self.lifecycle_view())->0,
            ),
            self.lifecycle_view() == BbmdLifecycle::Running ==> (r matches Ok(v) && v@ == peers_of(
                table@,
                self.state_view()->0.local_ip_view(),
                self.state_view()->0.local_port_view(),
            )),
    {
        self.lifecycle_check()?;
        match &self.state {
            Some(state) => Ok(bdt_peers(table, state.local_ip(), state.local_port())),
            None => Err(BbmdControlError::Stopped),
        }
    }
}

} // verus!
