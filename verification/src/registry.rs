//! The registry: the node that owns the shard directory and the code package
//! shards run. It spawns shards lazily, installs and upgrades the package on
//! them, freezes a shard that overflowed while handing its pending write to
//! a fresh sibling, and aggregates cross-shard queries.
//!
//! Spawning, installing and forwarding are calls to other nodes; the host
//! performs them and drives this state between the suspensions. Every step
//! here re-reads the directory rather than trusting state captured before a
//! call boundary.

use vstd::prelude::*;

use crate::error::{ApiError, ErrorDetail};
use crate::page::{PagedResponse, get_paged_data, page_slice};
use crate::principal::PrincipalId;
use crate::report::{ReportResponse, response_views};
use crate::sort::{ReportSort, get_ordered_reports, sort_responses};

verus! {

/// What a directory entry says a shard currently runs.
#[derive(Clone, Copy, Debug, PartialEq, Eq, Structural)]
pub enum CanisterType {
    /// Spawned but nothing installed yet.
    Empty,
    /// Running the child code package.
    ScalableChild,
}

/// The version a code package carries.
#[derive(Clone, Copy, Debug, PartialEq, Eq, Structural)]
pub enum WasmVersion {
    /// No package installed yet.
    Unversioned,
    /// A numbered release.
    Version(u64),
    /// A build outside the numbered line; never upgraded over.
    Custom,
}

/// One shard's directory entry.
pub struct ScalableCanisterDetails {
    pub principal: PrincipalId,
    pub wasm_version: WasmVersion,
    pub canister_type: CanisterType,
    /// False once the shard was selected as an overflow source or frozen;
    /// such a shard is never routed new writes.
    pub is_available: bool,
    /// The range of sequence numbers this shard owns. The end is `None`
    /// while the shard accepts writes and is set exactly once, at freeze
    /// time, to the last locally assigned sequence number.
    pub entry_range: (u64, Option<u64>),
}

pub ghost struct CanisterDetailsView {
    pub principal: Seq<u8>,
    pub wasm_version: WasmVersion,
    pub canister_type: CanisterType,
    pub is_available: bool,
    pub entry_range: (u64, Option<u64>),
}

impl View for ScalableCanisterDetails {
    type V = CanisterDetailsView;

    open spec fn view(&self) -> CanisterDetailsView {
        CanisterDetailsView {
            principal: self.principal@,
            wasm_version: self.wasm_version,
            canister_type: self.canister_type,
            is_available: self.is_available,
            entry_range: self.entry_range,
        }
    }
}

impl ScalableCanisterDetails {
    pub fn duplicate(&self) -> (d: ScalableCanisterDetails)
        ensures
            d@ == self@,
    {
        ScalableCanisterDetails {
            principal: self.principal.duplicate(),
            wasm_version: self.wasm_version,
            canister_type: self.canister_type,
            is_available: self.is_available,
            entry_range: self.entry_range,
        }
    }
}

/// The views of a directory.
pub open spec fn details_views(s: Seq<ScalableCanisterDetails>) -> Seq<CanisterDetailsView> {
    s.map_values(|d: ScalableCanisterDetails| d@)
}

/// The code package shards run.
pub struct WasmDetails {
    pub label: String,
    pub bytes: Vec<u8>,
    pub wasm_type: CanisterType,
    pub wasm_version: WasmVersion,
    pub updated_at: u64,
    pub created_at: u64,
}

pub ghost struct WasmDetailsView {
    pub label: Seq<char>,
    pub bytes: Seq<u8>,
    pub wasm_type: CanisterType,
    pub wasm_version: WasmVersion,
    pub updated_at: u64,
    pub created_at: u64,
}

impl View for WasmDetails {
    type V = WasmDetailsView;

    open spec fn view(&self) -> WasmDetailsView {
        WasmDetailsView {
            label: self.label@,
            bytes: self.bytes@,
            wasm_type: self.wasm_type,
            wasm_version: self.wasm_version,
            updated_at: self.updated_at,
            created_at: self.created_at,
        }
    }
}

/// A snapshot of the registry for its metrics surface.
pub struct ScalableMetaData {
    pub name: String,
    pub canister_count: usize,
    pub has_child_wasm: bool,
    pub cycles: u64,
    pub used_data: u64,
    pub owner: PrincipalId,
    pub parent: PrincipalId,
    pub updated_at: u64,
    pub created_at: u64,
}

/// The outcome of a best-effort batch upgrade: which shards took the new
/// package and which refused, with the text of the error each gave. One
/// shard's failure never aborts the batch.
pub struct UpgradeReport {
    pub succeeded: Vec<PrincipalId>,
    pub failed: Vec<(PrincipalId, String)>,
}

pub ghost struct ScalableDataView {
    pub name: Seq<char>,
    pub canisters: Seq<CanisterDetailsView>,
    pub owner: Seq<u8>,
    pub parent: Seq<u8>,
    pub child_wasm_data: WasmDetailsView,
    pub updated_at: u64,
    pub created_at: u64,
}

/// The registry's state: the shard directory and the current code package.
pub struct ScalableData {
    name: String,
    canisters: Vec<ScalableCanisterDetails>,
    owner: PrincipalId,
    parent: PrincipalId,
    child_wasm_data: WasmDetails,
    updated_at: u64,
    created_at: u64,
}

impl View for ScalableData {
    type V = ScalableDataView;

    closed spec fn view(&self) -> ScalableDataView {
        ScalableDataView {
            name: self.name@,
            canisters: details_views(self.canisters@),
            owner: self.owner@,
            parent: self.parent@,
            child_wasm_data: self.child_wasm_data@,
            updated_at: self.updated_at,
            created_at: self.created_at,
        }
    }
}

/// Some directory entry names the principal `p`.
pub open spec fn has_canister(s: Seq<CanisterDetailsView>, p: Seq<u8>) -> bool {
    exists|i: int| 0 <= i < s.len() && s[i].principal == p
}

/// The index of the directory entry naming `p`; unique in a well-formed
/// directory.
pub open spec fn canister_index(s: Seq<CanisterDetailsView>, p: Seq<u8>) -> int {
    choose|i: int| 0 <= i < s.len() && s[i].principal == p
}

/// A well-formed directory names every shard once.
pub open spec fn directory_wf(s: Seq<CanisterDetailsView>) -> bool {
    forall|i: int, j: int| 0 <= i < j < s.len() ==> s[i].principal != s[j].principal
}

/// The first directory entry that can take a write for this caller: an
/// available shard other than the caller itself.
pub open spec fn first_available(s: Seq<CanisterDetailsView>, caller: Seq<u8>) -> Option<
    CanisterDetailsView,
>
    decreases s.len(),
{
    if s.len() == 0 {
        None
    } else if s[0].principal != caller && s[0].is_available {
        Some(s[0])
    } else {
        first_available(s.drop_first(), caller)
    }
}

/// The directory entry a freshly spawned, not yet installed shard gets.
pub open spec fn empty_canister_entry(p: Seq<u8>) -> CanisterDetailsView {
    CanisterDetailsView {
        principal: p,
        wasm_version: WasmVersion::Unversioned,
        canister_type: CanisterType::Empty,
        is_available: true,
        entry_range: (0u64, None),
    }
}

/// The directory entry a shard gets when the current package is installed
/// on it.
pub open spec fn installed_canister_entry(p: Seq<u8>, version: WasmVersion) -> CanisterDetailsView {
    CanisterDetailsView {
        principal: p,
        wasm_version: version,
        canister_type: CanisterType::ScalableChild,
        is_available: true,
        entry_range: (0u64, None),
    }
}

/// The entry `d` becomes when its shard is frozen after overflowing at
/// sequence number `last_entry_id`.
pub open spec fn frozen_entry(d: CanisterDetailsView, last_entry_id: u64) -> CanisterDetailsView {
    CanisterDetailsView {
        principal: d.principal,
        wasm_version: d.wasm_version,
        canister_type: d.canister_type,
        is_available: false,
        entry_range: (0u64, Some(last_entry_id)),
    }
}

/// The entry `d` becomes when its shard takes the package version
/// `version`: only the version moves; availability and range stay.
pub open spec fn upgraded_entry(d: CanisterDetailsView, version: WasmVersion) -> CanisterDetailsView {
    CanisterDetailsView {
        principal: d.principal,
        wasm_version: version,
        canister_type: d.canister_type,
        is_available: d.is_available,
        entry_range: d.entry_range,
    }
}

/// Overflow is terminal. The write that finds a shard full is refused with
/// `CanisterAtCapacity` and flips the shard to unavailable — the state
/// `Store::add_report` leaves behind — and in that state the shard refuses
/// every later direct write. The freeze step then closes the shard's
/// directory entry at the last assigned sequence number; it never reopens.
pub proof fn lemma_overflow_freezes(
    s: crate::store::StoreView,
    d: CanisterDetailsView,
    last_entry_id: u64,
)
    requires
        s.entries.len() >= s.capacity,
    ensures
        !crate::store::unavailable(s).is_available,
        crate::store::unavailable(s).entries == s.entries,
        crate::store::unavailable(s).entries.len() >= crate::store::unavailable(s).capacity,
        !frozen_entry(d, last_entry_id).is_available,
        frozen_entry(d, last_entry_id).entry_range == (0u64, Some(last_entry_id)),
{
}

/// Resharding keeps a single writable shard. When the only available shard
/// is the one that overflowed, registering the freshly installed sibling
/// and then freezing the overflowing shard — the two directory steps of a
/// handoff — leave the sibling as the one available shard.
pub proof fn lemma_handoff_leaves_one_writable(
    before: Seq<CanisterDetailsView>,
    caller: Seq<u8>,
    sibling: Seq<u8>,
    version: WasmVersion,
    last_entry_id: u64,
)
    requires
        directory_wf(before),
        has_canister(before, caller),
        !has_canister(before, sibling),
        sibling != caller,
        forall|i: int|
            0 <= i < before.len() && (#[trigger] before[i]).is_available ==> before[i].principal
                == caller,
    ensures
        ({
            let mid = before.push(installed_canister_entry(sibling, version));
            let after = mid.update(
                canister_index(mid, caller),
                frozen_entry(mid[canister_index(mid, caller)], last_entry_id),
            );
            forall|i: int|
                0 <= i < after.len() ==> ((#[trigger] after[i]).is_available <==> after[i].principal
                    == sibling)
        }),
{
    let mid = before.push(installed_canister_entry(sibling, version));
    let idx = canister_index(mid, caller);
    assert(has_canister(mid, caller)) by {
        let k = choose|k: int| 0 <= k < before.len() && before[k].principal == caller;
        assert(mid[k].principal == caller);
    }
    assert(0 <= idx < mid.len() && mid[idx].principal == caller);
    assert(idx < before.len());
    let after = mid.update(idx, frozen_entry(mid[idx], last_entry_id));
    assert forall|i: int| 0 <= i < after.len() implies ((#[trigger] after[i]).is_available
        <==> after[i].principal == sibling) by {
        if i == idx {
            assert(!after[i].is_available);
            assert(after[i].principal == caller);
        } else if i == mid.len() - 1 {
            assert(after[i] == installed_canister_entry(sibling, version));
        } else {
            assert(after[i] == before[i]);
            if after[i].is_available {
                // An available survivor would be a second entry for the
                // overflowing shard, which well-formedness rules out.
                assert(before[i].principal == caller);
                assert(before[idx].principal == caller);
                if i < idx {
                    assert(before[i].principal != before[idx].principal);
                } else {
                    assert(before[idx].principal != before[i].principal);
                }
            }
            assert(before[i].principal != sibling) by {
                if before[i].principal == sibling {
                    assert(has_canister(before, sibling));
                }
            }
        }
    }
}

impl ScalableData {
    /// A fresh registry: empty directory, no code package.
    pub fn new(name: String, owner: PrincipalId, parent: PrincipalId, now: u64) -> (r: ScalableData)
        ensures
            r@.name == name@,
            r@.owner == owner@,
            r@.parent == parent@,
            r@.canisters == Seq::<CanisterDetailsView>::empty(),
            r@.child_wasm_data.bytes.len() == 0,
            r@.child_wasm_data.wasm_version == WasmVersion::Unversioned,
            r@.updated_at == now,
            r@.created_at == now,
            directory_wf(r@.canisters),
    {
        let r = ScalableData {
            name,
            canisters: Vec::new(),
            owner,
            parent,
            child_wasm_data: WasmDetails {
                label: String::new(),
                bytes: Vec::new(),
                wasm_type: CanisterType::Empty,
                wasm_version: WasmVersion::Unversioned,
                updated_at: now,
                created_at: now,
            },
            updated_at: now,
            created_at: now,
        };
        proof {
            assert(r@.canisters =~= Seq::<CanisterDetailsView>::empty());
        }
        r
    }

    pub fn name(&self) -> (r: &String)
        ensures
            r@ == self@.name,
    {
        &self.name
    }

    pub fn child_wasm_data(&self) -> (r: &WasmDetails)
        ensures
            r@ == self@.child_wasm_data,
    {
        &self.child_wasm_data
    }

    /// Whether a code package has been uploaded.
    pub fn has_child_wasm(&self) -> (r: bool)
        ensures
            r == (self@.child_wasm_data.bytes.len() > 0),
    {
        self.child_wasm_data.bytes.len() > 0
    }

    /// The bootstrap guard: only a registry that holds a package and has no
    /// shard yet spawns its first shard.
    pub fn should_bootstrap(&self) -> (r: bool)
        ensures
            r == (self@.child_wasm_data.bytes.len() > 0 && self@.canisters.len() == 0),
    {
        self.child_wasm_data.bytes.len() > 0 && self.canisters.len() == 0
    }

    /// The snapshot the metrics surface reports; the host supplies the
    /// runtime figures.
    pub fn metadata(&self, cycles: u64, used_data: u64) -> (r: ScalableMetaData)
        ensures
            r.name@ == self@.name,
            r.canister_count == self@.canisters.len(),
            r.has_child_wasm == (self@.child_wasm_data.bytes.len() > 0),
            r.cycles == cycles,
            r.used_data == used_data,
            r.owner@ == self@.owner,
            r.parent@ == self@.parent,
            r.updated_at == self@.updated_at,
            r.created_at == self@.created_at,
    {
        ScalableMetaData {
            name: self.name.clone(),
            canister_count: self.canisters.len(),
            has_child_wasm: self.child_wasm_data.bytes.len() > 0,
            cycles,
            used_data,
            owner: self.owner.duplicate(),
            parent: self.parent.duplicate(),
            updated_at: self.updated_at,
            created_at: self.created_at,
        }
    }

    /// The whole directory, as values.
    pub fn get_canisters(&self) -> (r: Vec<ScalableCanisterDetails>)
        ensures
            details_views(r@) == self@.canisters,
    {
        let mut out: Vec<ScalableCanisterDetails> = Vec::new();
        let mut i: usize = 0;
        while i < self.canisters.len()
            invariant
                i <= self.canisters@.len(),
                details_views(out@) =~= self@.canisters.take(i as int),
            decreases self.canisters@.len() - i,
        {
            let d = self.canisters[i].duplicate();
            let ghost prev = out@;
            out.push(d);
            proof {
                assert(details_views(out@) =~= self@.canisters.take(i + 1)) by {
                    assert(out@ == prev.push(d));
                    assert(details_views(prev).len() == prev.len());
                    assert(prev.len() == i as int);
                    assert(d@ == self@.canisters[i as int]);
                    assert forall|k: int|
                        0 <= k < out@.len() implies #[trigger] details_views(out@)[k]
                        == self@.canisters.take(i + 1)[k] by {
                        assert(details_views(out@)[k] == out@[k]@);
                        if k < prev.len() {
                            assert(out@[k] == prev[k]);
                            assert(details_views(prev)[k] == prev[k]@);
                            assert(self@.canisters.take(i as int)[k] == self@.canisters[k]);
                        } else {
                            assert(out@[k] == d);
                        }
                    }
                }
            }
            i = i + 1;
        }
        proof {
            assert(self@.canisters.take(self.canisters@.len() as int) =~= self@.canisters);
        }
        out
    }

    /// The first shard that can take a write for this caller: available and
    /// not the caller itself. With no such shard the caller is told so.
    pub fn get_available_canister(&self, caller: &PrincipalId) -> (r: Result<
        ScalableCanisterDetails,
        String,
    >)
        ensures
            first_available(self@.canisters, caller@) matches Some(d) ==> (r matches Ok(found)
                && found@ == d),
            first_available(self@.canisters, caller@) is None ==> (r matches Err(t) && t@
                == "No available canister found"@),
    {
        let ghost s = self@.canisters;
        proof {
            assert(s.skip(0) =~= s);
        }
        let mut i: usize = 0;
        while i < self.canisters.len()
            invariant
                i <= s.len(),
                s == self@.canisters,
                s.len() == self.canisters@.len(),
                first_available(s, caller@) == first_available(s.skip(i as int), caller@),
            decreases self.canisters@.len() - i,
        {
            let d = &self.canisters[i];
            proof {
                assert(s.skip(i as int)[0] == s[i as int]);
                assert(s.skip(i as int).drop_first() =~= s.skip(i + 1));
            }
            if !d.principal.is(caller) && d.is_available {
                assert(first_available(s.skip(i as int), caller@) == Some(s[i as int]));
                return Ok(d.duplicate());
            }
            i = i + 1;
        }
        proof {
            assert(s.skip(s.len() as int).len() == 0);
        }
        Err(String::from_str("No available canister found"))
    }

    /// Looks a shard up by principal.
    fn find_canister_index(&self, p: &PrincipalId) -> (r: Option<usize>)
        requires
            directory_wf(self@.canisters),
        ensures
            r matches Some(i) ==> i < self@.canisters.len() && self@.canisters[i as int].principal
                == p@ && i as int == canister_index(self@.canisters, p@),
            r is None ==> !has_canister(self@.canisters, p@),
    {
        let ghost s = self@.canisters;
        let mut i: usize = 0;
        while i < self.canisters.len()
            invariant
                i <= s.len(),
                s == self@.canisters,
                s.len() == self.canisters@.len(),
                directory_wf(s),
                forall|k: int| 0 <= k < i ==> s[k].principal != p@,
            decreases self.canisters@.len() - i,
        {
            if self.canisters[i].principal.is(p) {
                proof {
                    assert(s[i as int].principal == p@);
                    assert(has_canister(s, p@));
                    let j = canister_index(s, p@);
                    assert(0 <= j < s.len() && s[j].principal == p@);
                    if j < i as int {
                        assert(s[j].principal != p@);
                    } else if j > i as int {
                        assert(s[i as int].principal != s[j].principal);
                    }
                }
                return Some(i);
            }
            i = i + 1;
        }
        None
    }

    /// Inserts or replaces the directory entry for `d`'s principal.
    fn set_canister(&mut self, d: ScalableCanisterDetails)
        requires
            directory_wf(old(self)@.canisters),
        ensures
            directory_wf(final(self)@.canisters),
            has_canister(old(self)@.canisters, d@.principal) ==> final(self)@.canisters == old(
                self,
            )@.canisters.update(canister_index(old(self)@.canisters, d@.principal), d@),
            !has_canister(old(self)@.canisters, d@.principal) ==> final(self)@.canisters == old(
                self,
            )@.canisters.push(d@),
            final(self)@.name == old(self)@.name,
            final(self)@.owner == old(self)@.owner,
            final(self)@.parent == old(self)@.parent,
            final(self)@.child_wasm_data == old(self)@.child_wasm_data,
            final(self)@.updated_at == old(self)@.updated_at,
            final(self)@.created_at == old(self)@.created_at,
    {
        let ghost s = old(self)@.canisters;
        match self.find_canister_index(&d.principal) {
            Some(i) => {
                self.canisters.set(i, d);
                proof {
                    assert(final(self)@.canisters =~= s.update(canister_index(s, d@.principal), d@));
                    assert forall|a: int, b: int|
                        0 <= a < b < final(self)@.canisters.len() implies self@.canisters[a].principal != final(self)@.canisters[b].principal by {
                        assert(s[a].principal != s[b].principal);
                    }
                }
            },
            None => {
                self.canisters.push(d);
                proof {
                    assert(final(self)@.canisters =~= s.push(d@));
                    assert forall|a: int, b: int|
                        0 <= a < b < final(self)@.canisters.len() implies self@.canisters[a].principal != final(self)@.canisters[b].principal by {
                        if b < s.len() {
                            assert(s[a].principal != s[b].principal);
                        } else {
                            assert(final(self)@.canisters[b] == d@);
                            assert(final(self)@.canisters[a] == s[a]);
                            assert(!has_canister(s, d@.principal));
                        }
                    }
                }
            },
        }
    }

    /// Registers a freshly spawned, not yet installed shard: the step after
    /// the host's node-creation call returns.
    pub fn register_empty_canister(&mut self, principal: PrincipalId)
        requires
            directory_wf(old(self)@.canisters),
        ensures
            directory_wf(final(self)@.canisters),
            !has_canister(old(self)@.canisters, principal@) ==> final(self)@.canisters == old(
                self,
            )@.canisters.push(empty_canister_entry(principal@)),
            has_canister(old(self)@.canisters, principal@) ==> final(self)@.canisters == old(
                self,
            )@.canisters.update(
                canister_index(old(self)@.canisters, principal@),
                empty_canister_entry(principal@),
            ),
            final(self)@.child_wasm_data == old(self)@.child_wasm_data,
            final(self)@.name == old(self)@.name,
            final(self)@.owner == old(self)@.owner,
            final(self)@.parent == old(self)@.parent,
    {
        self.set_canister(
            ScalableCanisterDetails {
                principal,
                wasm_version: WasmVersion::Unversioned,
                canister_type: CanisterType::Empty,
                is_available: true,
                entry_range: (0, None),
            },
        );
    }

    /// Registers that the current package was installed on `principal`: the
    /// step after the host's install call returns. Requires a package, as
    /// the install path refuses to run without one.
    pub fn register_installed_canister(&mut self, principal: PrincipalId)
        requires
            directory_wf(old(self)@.canisters),
        ensures
            directory_wf(final(self)@.canisters),
            ({
                let entry = installed_canister_entry(
                    principal@,
                    old(self)@.child_wasm_data.wasm_version,
                );
                &&& !has_canister(old(self)@.canisters, principal@) ==> final(self)@.canisters
                    == old(self)@.canisters.push(entry)
                &&& has_canister(old(self)@.canisters, principal@) ==> final(self)@.canisters
                    == old(self)@.canisters.update(
                    canister_index(old(self)@.canisters, principal@),
                    entry,
                )
            }),
            final(self)@.child_wasm_data == old(self)@.child_wasm_data,
            final(self)@.name == old(self)@.name,
            final(self)@.owner == old(self)@.owner,
            final(self)@.parent == old(self)@.parent,
    {
        let version = self.child_wasm_data.wasm_version;
        self.set_canister(
            ScalableCanisterDetails {
                principal,
                wasm_version: version,
                canister_type: CanisterType::ScalableChild,
                is_available: true,
                entry_range: (0, None),
            },
        );
    }

    /// The checks a handoff makes before any call leaves the registry: a
    /// package must be uploaded and the overflowing caller must be a shard
    /// this registry knows.
    pub fn validate_handoff(&self, caller: &PrincipalId) -> (r: Result<(), ApiError>)
        requires
            directory_wf(self@.canisters),
        ensures
            self@.child_wasm_data.bytes.len() == 0 ==> (r matches Err(e) && e@ is BadRequest
                && e@->BadRequest_0.tag == "NO_WASM_SPECIFIED"@),
            self@.child_wasm_data.bytes.len() > 0 && !has_canister(self@.canisters, caller@) ==> (
            r matches Err(e) && e@ is BadRequest && e@->BadRequest_0.tag == "UNKNOWN_CANISTER"@),
            self@.child_wasm_data.bytes.len() > 0 && has_canister(self@.canisters, caller@) ==> r
                is Ok,
    {
        if self.child_wasm_data.bytes.len() == 0 {
            return Err(
                ApiError::BadRequest(
                    ErrorDetail::new(
                        "NO_WASM_SPECIFIED",
                        "There is no foundation WASM uploaded",
                        self.name.as_str(),
                        "close_child_canister_and_spawn_sibling",
                    ),
                ),
            );
        }
        match self.find_canister_index(caller) {
            None => Err(
                ApiError::BadRequest(
                    ErrorDetail::new(
                        "UNKNOWN_CANISTER",
                        "The caller principal isnt known to this canister",
                        self.name.as_str(),
                        "close_child_canister_and_spawn_sibling",
                    ),
                ),
            ),
            Some(_) => Ok(()),
        }
    }

    /// Freezes the shard that overflowed: marks it unavailable and closes
    /// its sequence-number range at `last_entry_id`. Permanent — a frozen
    /// shard stays queryable but never takes another write.
    pub fn freeze_canister(&mut self, caller: &PrincipalId, last_entry_id: u64) -> (r: Result<
        (),
        ApiError,
    >)
        requires
            directory_wf(old(self)@.canisters),
        ensures
            directory_wf(final(self)@.canisters),
            !has_canister(old(self)@.canisters, caller@) ==> (r matches Err(e) && e@ is BadRequest
                && final(self)@ == old(self)@),
            has_canister(old(self)@.canisters, caller@) ==> {
                let i = canister_index(old(self)@.canisters, caller@);
                &&& r is Ok
                &&& final(self)@.canisters == old(self)@.canisters.update(
                    i,
                    frozen_entry(old(self)@.canisters[i], last_entry_id),
                )
            },
            final(self)@.child_wasm_data == old(self)@.child_wasm_data,
            final(self)@.name == old(self)@.name,
            final(self)@.owner == old(self)@.owner,
            final(self)@.parent == old(self)@.parent,
    {
        match self.find_canister_index(caller) {
            None => Err(
                ApiError::BadRequest(
                    ErrorDetail::new(
                        "UNKNOWN_CANISTER",
                        "The caller principal isnt known to this canister",
                        self.name.as_str(),
                        "close_child_canister_and_spawn_sibling",
                    ),
                ),
            ),
            Some(i) => {
                let old_entry = &self.canisters[i];
                let frozen = ScalableCanisterDetails {
                    principal: old_entry.principal.duplicate(),
                    wasm_version: old_entry.wasm_version,
                    canister_type: old_entry.canister_type,
                    is_available: false,
                    entry_range: (0, Some(last_entry_id)),
                };
                let ghost s = old(self)@.canisters;
                self.canisters.set(i, frozen);
                proof {
                    assert(final(self)@.canisters =~= s.update(
                        i as int,
                        frozen_entry(s[i as int], last_entry_id),
                    ));
                    assert forall|a: int, b: int|
                        0 <= a < b < final(self)@.canisters.len() implies self@.canisters[a].principal != final(self)@.canisters[b].principal by {
                        assert(s[a].principal != s[b].principal);
                    }
                }
                Ok(())
            },
        }
    }

    /// The error a handoff surfaces when the forward of the pending payload
    /// to the fresh sibling fails. The source shard is already frozen by
    /// then; the payload is then stored nowhere — the documented gap of the
    /// protocol, reported rather than compensated.
    pub fn handoff_forward_failed(&self, reason: &String) -> (r: ApiError)
        ensures
            r@ is BadRequest && r@->BadRequest_0.tag == "FAILED_TO_STORE_DATA"@,
            r@->BadRequest_0.message == reason@,
    {
        ApiError::BadRequest(
            ErrorDetail {
                tag: String::from_str("FAILED_TO_STORE_DATA"),
                message: reason.clone(),
                location: self.name.clone(),
                method: String::from_str("close_child_canister_and_spawn_sibling"),
            },
        )
    }

    /// The checks an upgrade makes before the install call leaves the
    /// registry: the shard must exist and must not already run the current
    /// package version. Returns the package bytes to install.
    pub fn prepare_upgrade(&self, canister_principal: &PrincipalId) -> (r: Result<Vec<u8>, ApiError>)
        requires
            directory_wf(self@.canisters),
        ensures
            !has_canister(self@.canisters, canister_principal@) ==> (r matches Err(e)
                && e@ is NotFound && e@->NotFound_0.tag == "NO_CHILDREN"@),
            has_canister(self@.canisters, canister_principal@) && self@.canisters[canister_index(
                self@.canisters,
                canister_principal@,
            )].wasm_version == self@.child_wasm_data.wasm_version ==> (r matches Err(e)
                && e@ is BadRequest && e@->BadRequest_0.tag == "CANISTER_UP_TO_DATE"@),
            has_canister(self@.canisters, canister_principal@) && self@.canisters[canister_index(
                self@.canisters,
                canister_principal@,
            )].wasm_version != self@.child_wasm_data.wasm_version ==> (r matches Ok(bytes) && bytes@
                == self@.child_wasm_data.bytes),
    {
        match self.find_canister_index(canister_principal) {
            None => Err(
                ApiError::NotFound(
                    ErrorDetail::new(
                        "NO_CHILDREN",
                        "There are no child canisters found",
                        self.name.as_str(),
                        "upgrade_scalable_canister",
                    ),
                ),
            ),
            Some(i) => {
                if self.canisters[i].wasm_version == self.child_wasm_data.wasm_version {
                    Err(
                        ApiError::BadRequest(
                            ErrorDetail::new(
                                "CANISTER_UP_TO_DATE",
                                "The latest WASM version is already installed",
                                self.name.as_str(),
                                "upgrade_scalable_canister",
                            ),
                        ),
                    )
                } else {
                    let mut bytes: Vec<u8> = Vec::new();
                    let mut k: usize = 0;
                    while k < self.child_wasm_data.bytes.len()
                        invariant
                            k <= self.child_wasm_data.bytes@.len(),
                            bytes@ =~= self.child_wasm_data.bytes@.take(k as int),
                        decreases self.child_wasm_data.bytes@.len() - k,
                    {
                        bytes.push(self.child_wasm_data.bytes[k]);
                        k = k + 1;
                    }
                    proof {
                        assert(self.child_wasm_data.bytes@.take(
                            self.child_wasm_data.bytes@.len() as int,
                        ) =~= self.child_wasm_data.bytes@);
                    }
                    Ok(bytes)
                }
            },
        }
    }

    /// Records that the shard now runs the current package version: the
    /// step after the host's upgrade call returns. Looks the shard up
    /// afresh — the directory may have moved while the call was out.
    pub fn apply_upgrade(&mut self, canister_principal: &PrincipalId) -> (r: Result<
        ScalableCanisterDetails,
        ApiError,
    >)
        requires
            directory_wf(old(self)@.canisters),
        ensures
            directory_wf(final(self)@.canisters),
            !has_canister(old(self)@.canisters, canister_principal@) ==> (r matches Err(e)
                && e@ is NotFound && final(self)@ == old(self)@),
            has_canister(old(self)@.canisters, canister_principal@) ==> {
                let i = canister_index(old(self)@.canisters, canister_principal@);
                let entry = upgraded_entry(
                    old(self)@.canisters[i],
                    old(self)@.child_wasm_data.wasm_version,
                );
                &&& r matches Ok(d) && d@ == entry
                &&& final(self)@.canisters == old(self)@.canisters.update(i, entry)
            },
            final(self)@.child_wasm_data == old(self)@.child_wasm_data,
            final(self)@.name == old(self)@.name,
            final(self)@.owner == old(self)@.owner,
            final(self)@.parent == old(self)@.parent,
    {
        match self.find_canister_index(canister_principal) {
            None => Err(
                ApiError::NotFound(
                    ErrorDetail::new(
                        "NO_CHILDREN",
                        "There are no child canisters found",
                        self.name.as_str(),
                        "upgrade_scalable_canister",
                    ),
                ),
            ),
            Some(i) => {
                let old_entry = &self.canisters[i];
                let updated = ScalableCanisterDetails {
                    principal: old_entry.principal.duplicate(),
                    wasm_version: self.child_wasm_data.wasm_version,
                    canister_type: old_entry.canister_type,
                    is_available: old_entry.is_available,
                    entry_range: old_entry.entry_range,
                };
                let result = updated.duplicate();
                let ghost s = old(self)@.canisters;
                self.canisters.set(i, updated);
                proof {
                    assert(final(self)@.canisters =~= s.update(
                        i as int,
                        upgraded_entry(s[i as int], old(self)@.child_wasm_data.wasm_version),
                    ));
                    assert forall|a: int, b: int|
                        0 <= a < b < final(self)@.canisters.len() implies self@.canisters[a].principal != final(self)@.canisters[b].principal by {
                        assert(s[a].principal != s[b].principal);
                    }
                }
                Ok(result)
            },
        }
    }

    /// The shards whose package version trails the current one: what a
    /// batch upgrade walks, best-effort, one install call each.
    pub fn upgrade_targets(&self) -> (r: Vec<PrincipalId>)
        ensures
            crate::principal::principal_views(r@) == self@.canisters.filter(
                |d: CanisterDetailsView| d.wasm_version != self@.child_wasm_data.wasm_version,
            ).map_values(|d: CanisterDetailsView| d.principal),
    {
        let ghost s = self@.canisters;
        let ghost pred = |d: CanisterDetailsView| d.wasm_version
            != self@.child_wasm_data.wasm_version;
        let mut out: Vec<PrincipalId> = Vec::new();
        let mut i: usize = 0;
        while i < self.canisters.len()
            invariant
                i <= s.len(),
                s == self@.canisters,
                s.len() == self.canisters@.len(),
                pred == (|d: CanisterDetailsView| d.wasm_version
                    != self@.child_wasm_data.wasm_version),
                crate::principal::principal_views(out@) == s.take(i as int).filter(
                    pred,
                ).map_values(|d: CanisterDetailsView| d.principal),
            decreases self.canisters@.len() - i,
        {
            proof {
                reveal(Seq::filter);
                assert(s.take(i + 1).drop_last() =~= s.take(i as int));
                assert(s.take(i + 1).last() == s[i as int]);
                assert(s[i as int] == self.canisters@[i as int]@);
            }
            let trailing = !(self.canisters[i].wasm_version == self.child_wasm_data.wasm_version);
            proof {
                assert(trailing == pred(s[i as int]));
            }
            if trailing {
                let p = self.canisters[i].principal.duplicate();
                let ghost prev = out@;
                out.push(p);
                proof {
                    let old_kept = s.take(i as int).filter(pred);
                    let kept = s.take(i + 1).filter(pred);
                    assert(kept == old_kept.push(s[i as int]));
                    assert(crate::principal::principal_views(prev).len() == prev.len());
                    assert(old_kept.map_values(|d: CanisterDetailsView| d.principal).len()
                        == old_kept.len());
                    assert(crate::principal::principal_views(out@) =~= kept.map_values(
                        |d: CanisterDetailsView| d.principal,
                    )) by {
                        assert(out@ == prev.push(p));
                        assert(prev.len() == old_kept.len());
                        assert forall|k: int|
                            0 <= k < out@.len() implies #[trigger] crate::principal::principal_views(
                            out@,
                        )[k] == kept.map_values(|d: CanisterDetailsView| d.principal)[k] by {
                            assert(crate::principal::principal_views(out@)[k] == out@[k]@);
                            if k < prev.len() {
                                assert(out@[k] == prev[k]);
                                assert(crate::principal::principal_views(prev)[k] == prev[k]@);
                                assert(kept[k] == old_kept[k]);
                                assert(old_kept.map_values(|d: CanisterDetailsView| d.principal)[k]
                                    == old_kept[k].principal);
                                assert(kept.map_values(|d: CanisterDetailsView| d.principal)[k]
                                    == kept[k].principal);
                            } else {
                                assert(out@[k] == p);
                                assert(kept[k] == s[i as int]);
                                assert(kept.map_values(|d: CanisterDetailsView| d.principal)[k]
                                    == kept[k].principal);
                                assert(p@ == s[i as int].principal);
                            }
                        }
                    }
                }
            } else {
                proof {
                    assert(s.take(i + 1).filter(pred) == s.take(i as int).filter(pred));
                }
            }
            i = i + 1;
        }
        proof {
            assert(s.take(s.len() as int) =~= s);
        }
        out
    }

    /// Builds the package the registry would adopt from freshly provided
    /// bytes and a version number. Refused when the bytes are empty, when
    /// they equal the current package's bytes, when the current package is
    /// a custom build, or when the version does not strictly grow — so a
    /// package is replaced only by a genuinely newer one.
    pub fn get_child_wasm_data(
        old_store: &ScalableData,
        version: u64,
        bytes: Vec<u8>,
        now: u64,
    ) -> (r: Result<WasmDetails, String>)
        ensures
            bytes@.len() == 0 ==> (r matches Err(t) && t@
                == "No WASM found, skipping child WASM update"@),
            bytes@.len() > 0 && bytes@ == old_store@.child_wasm_data.bytes ==> (r matches Err(t)
                && t@ == "WASM is the same, skipping child WASM update"@),
            bytes@.len() > 0 && bytes@ != old_store@.child_wasm_data.bytes ==> {
                match old_store@.child_wasm_data.wasm_version {
                    WasmVersion::Unversioned => r is Ok,
                    WasmVersion::Version(v) => {
                        &&& version <= v ==> (r matches Err(t) && t@
                            == "Please provide a higher version, skipping child WASM update"@)
                        &&& version > v ==> r is Ok
                    },
                    WasmVersion::Custom => (r matches Err(t) && t@
                        == "Wrong WASM version type, skipping child WASM update"@),
                }
            },
            r matches Ok(d) ==> {
                &&& d@.label == "child_group_canister"@
                &&& d@.bytes == bytes@
                &&& d@.wasm_type == CanisterType::ScalableChild
                &&& d@.wasm_version == WasmVersion::Version(version)
                &&& d@.updated_at == now
                &&& d@.created_at == old_store@.child_wasm_data.created_at
            },
    {
        if bytes.len() == 0 {
            return Err(String::from_str("No WASM found, skipping child WASM update"));
        }
        if bytes == old_store.child_wasm_data.bytes {
            proof {
                assert(bytes@ == old_store@.child_wasm_data.bytes);
            }
            return Err(String::from_str("WASM is the same, skipping child WASM update"));
        }
        proof {
            assert(bytes@ != old_store@.child_wasm_data.bytes);
        }
        match old_store.child_wasm_data.wasm_version {
            WasmVersion::Unversioned => {},
            WasmVersion::Version(v) => {
                if version <= v {
                    return Err(
                        String::from_str(
                            "Please provide a higher version, skipping child WASM update",
                        ),
                    );
                }
            },
            WasmVersion::Custom => {
                return Err(
                    String::from_str("Wrong WASM version type, skipping child WASM update"),
                );
            },
        }
        Ok(
            WasmDetails {
                label: String::from_str("child_group_canister"),
                bytes,
                wasm_type: CanisterType::ScalableChild,
                wasm_version: WasmVersion::Version(version),
                updated_at: now,
                created_at: old_store.child_wasm_data.created_at,
            },
        )
    }

    /// Adopts a new package if `get_child_wasm_data` accepts it; otherwise
    /// reports why and changes nothing.
    pub fn update_child_wasm_data(&mut self, version: u64, bytes: Vec<u8>, now: u64) -> (r: Result<
        (),
        String,
    >)
        ensures
            r is Err ==> final(self)@ == old(self)@,
            r is Ok ==> {
                &&& final(self)@.child_wasm_data.bytes == bytes@
                &&& final(self)@.child_wasm_data.wasm_version == WasmVersion::Version(version)
                &&& final(self)@.child_wasm_data.updated_at == now
                &&& final(self)@.canisters == old(self)@.canisters
                &&& final(self)@.name == old(self)@.name
                &&& final(self)@.owner == old(self)@.owner
                &&& final(self)@.parent == old(self)@.parent
            },
            r is Ok <==> (bytes@.len() > 0 && bytes@ != old(self)@.child_wasm_data.bytes && match
                old(self)@.child_wasm_data.wasm_version {
                WasmVersion::Unversioned => true,
                WasmVersion::Version(v) => version > v,
                WasmVersion::Custom => false,
            }),
    {
        match Self::get_child_wasm_data(self, version, bytes, now) {
            Err(t) => Err(t),
            Ok(details) => {
                self.child_wasm_data = details;
                Ok(())
            },
        }
    }

    /// The registry-global end of a fan-out query. Each shard has already
    /// filtered its own records and shipped them through the chunk
    /// protocol; the host hands the concatenation here, and the registry
    /// sorts once, globally, then slices the requested page.
    pub fn get_child_canister_data(
        collected: Vec<ReportResponse>,
        limit: usize,
        page: usize,
        sort: ReportSort,
    ) -> (r: PagedResponse)
        ensures
            ({
                let ordered = sort_responses(sort, response_views(collected@));
                &&& r.page == page
                &&& r.limit == limit
                &&& r.total == ordered.len()
                &&& response_views(r.data@) == page_slice(ordered, limit as int, page as int)
            }),
    {
        proof {
            crate::sort::lemma_sort_responses_ensures(sort, response_views(collected@));
        }
        let ordered = get_ordered_reports(collected, sort);
        get_paged_data(ordered, limit, page)
    }
}

} // verus!
