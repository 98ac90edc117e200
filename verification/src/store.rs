//! The shard-side record store: a bounded-capacity table of reports with a
//! monotonically assigned sequence number per record. A write that does not
//! fit is refused with `CanisterAtCapacity` and nothing is stored — the
//! caller's wrapper is then owed a registry handoff carrying that same
//! payload.

use vstd::prelude::*;

use crate::error::{ApiError, ErrorDetail};
use crate::filter::{FilterType, ReportFilter, filter_views, filtered};
use crate::permission::{
    PermissionActionType, Role, check_permission, gate_grants, group_res_view, member_res_view,
};
use crate::page::{PagedResponse, get_paged_data, page_slice};
use crate::principal::PrincipalId;
use crate::report::{
    Identifier, IdentifierView, PostReport, Report, ReportResponse, ReportResponseView, ReportView,
    map_to_report_response, report_kind, report_of, report_views, response_of, response_views,
};
use crate::sort::{ReportSort, get_ordered_reports, sort_responses};

verus! {

/// The response that presents the record stored at sequence number `i` on
/// the shard `shard`.
pub open spec fn stored_response(shard: Seq<u8>, entries: Seq<ReportView>, i: int) -> ReportResponseView {
    response_of(
        IdentifierView { index: i as u64, principal: shard, kind: report_kind() },
        entries[i],
    )
}

/// All stored records presented as responses, in creation order.
pub open spec fn store_responses(shard: Seq<u8>, entries: Seq<ReportView>) -> Seq<
    ReportResponseView,
> {
    Seq::new(entries.len(), |i: int| stored_response(shard, entries, i))
}

/// The responses whose record belongs to the group `g`.
pub open spec fn group_restricted(s: Seq<ReportResponseView>, g: Seq<u8>) -> Seq<
    ReportResponseView,
> {
    s.filter(|r: ReportResponseView| r.group_identifier == g)
}

/// What `get_reports` returns: restrict to the group, filter, sort — in that
/// fixed order.
pub open spec fn query_result(
    shard: Seq<u8>,
    entries: Seq<ReportView>,
    g: Seq<u8>,
    fs: Seq<crate::filter::ReportFilterView>,
    filter_type: FilterType,
    sort: ReportSort,
) -> Seq<ReportResponseView> {
    sort_responses(
        sort,
        filtered(group_restricted(store_responses(shard, entries), g), fs, filter_type),
    )
}

pub ghost struct StoreView {
    pub name: Seq<char>,
    pub principal: Seq<u8>,
    pub parent: Seq<u8>,
    pub capacity: usize,
    pub is_available: bool,
    pub entries: Seq<ReportView>,
}

/// One shard's state: its name, its own principal (stamped into the
/// identifiers it mints), the registry that spawned it (the only caller the
/// export path answers), its capacity ceiling, whether it still accepts
/// writes, and its record table.
pub struct Store {
    name: String,
    principal: PrincipalId,
    parent: PrincipalId,
    capacity: usize,
    is_available: bool,
    entries: Vec<Report>,
}

impl View for Store {
    type V = StoreView;

    closed spec fn view(&self) -> StoreView {
        StoreView {
            name: self.name@,
            principal: self.principal@,
            parent: self.parent@,
            capacity: self.capacity,
            is_available: self.is_available,
            entries: report_views(self.entries@),
        }
    }
}

/// The identifier `id` names a record this shard stores: it was minted by
/// this shard, bears the report kind label, and its sequence number is
/// assigned.
pub open spec fn has_entry(s: StoreView, id: IdentifierView) -> bool {
    id.kind == report_kind() && id.principal == s.principal && (id.index as int) < s.entries.len()
}

/// The state `s` moves to when an overflow marks the shard unavailable.
pub open spec fn unavailable(s: StoreView) -> StoreView {
    StoreView {
        name: s.name,
        principal: s.principal,
        parent: s.parent,
        capacity: s.capacity,
        is_available: false,
        entries: s.entries,
    }
}

/// The state `s` moves to when `report` is appended.
pub open spec fn with_entry(s: StoreView, report: ReportView) -> StoreView {
    StoreView {
        name: s.name,
        principal: s.principal,
        parent: s.parent,
        capacity: s.capacity,
        is_available: s.is_available,
        entries: s.entries.push(report),
    }
}

impl Store {
    /// A fresh shard with no records, accepting writes.
    pub fn new(name: String, principal: PrincipalId, parent: PrincipalId, capacity: usize) -> (s:
        Store)
        ensures
            s@.name == name@,
            s@.principal == principal@,
            s@.parent == parent@,
            s@.capacity == capacity,
            s@.is_available == true,
            s@.entries == Seq::<ReportView>::empty(),
    {
        let s = Store { name, principal, parent, capacity, is_available: true, entries: Vec::new() };
        proof {
            assert(s@.entries =~= Seq::<ReportView>::empty());
        }
        s
    }

    /// Rebuilds a shard from durably stored state, after a node restart.
    pub fn restore(
        name: String,
        principal: PrincipalId,
        parent: PrincipalId,
        capacity: usize,
        is_available: bool,
        entries: Vec<Report>,
    ) -> (s: Store)
        ensures
            s@.name == name@,
            s@.principal == principal@,
            s@.parent == parent@,
            s@.capacity == capacity,
            s@.is_available == is_available,
            s@.entries == report_views(entries@),
    {
        Store { name, principal, parent, capacity, is_available, entries }
    }

    /// The record table as values, for the host's durability layer.
    pub fn export_entries(&self) -> (out: Vec<Report>)
        ensures
            report_views(out@) == self@.entries,
    {
        let mut out: Vec<Report> = Vec::new();
        let mut i: usize = 0;
        while i < self.entries.len()
            invariant
                i <= self@.entries.len(),
                self@.entries.len() == self.entries@.len(),
                report_views(out@) =~= self@.entries.take(i as int),
            decreases self.entries@.len() - i,
        {
            let d = self.entries[i].duplicate();
            let ghost prev = out@;
            out.push(d);
            proof {
                assert(report_views(out@) =~= self@.entries.take(i + 1)) by {
                    assert(out@ == prev.push(d));
                    assert(d@ == self@.entries[i as int]);
                    assert(report_views(prev).len() == prev.len());
                    assert forall|k: int|
                        0 <= k < out@.len() implies #[trigger] report_views(out@)[k]
                        == self@.entries.take(i + 1)[k] by {
                        assert(report_views(out@)[k] == out@[k]@);
                        if k < prev.len() {
                            assert(out@[k] == prev[k]);
                            assert(report_views(prev)[k] == prev[k]@);
                        } else {
                            assert(out@[k] == d);
                        }
                    }
                }
            }
            i = i + 1;
        }
        proof {
            assert(self@.entries.take(self@.entries.len() as int) =~= self@.entries);
        }
        out
    }

    /// Whether this shard still accepts direct writes.
    pub fn is_available(&self) -> (r: bool)
        ensures
            r == self@.is_available,
    {
        self.is_available
    }

    pub fn name(&self) -> (r: &String)
        ensures
            r@ == self@.name,
    {
        &self.name
    }

    pub fn entry_count(&self) -> (r: usize)
        ensures
            r == self@.entries.len(),
    {
        self.entries.len()
    }

    pub fn capacity(&self) -> (r: usize)
        ensures
            r == self@.capacity,
    {
        self.capacity
    }

    /// The registry that spawned this shard.
    pub fn parent(&self) -> (r: &PrincipalId)
        ensures
            r@ == self@.parent,
    {
        &self.parent
    }

    /// Whether `caller` is the registry this shard answers the export path
    /// for.
    pub fn is_parent(&self, caller: &PrincipalId) -> (r: bool)
        ensures
            r == (caller@ == self@.parent),
    {
        caller.is(&self.parent)
    }

    /// Files the report `caller` posts, stamped with the clock reading
    /// `now`. At capacity nothing is stored and the caller is told so; the
    /// payload stays with the caller for the handoff.
    pub fn add_report(&mut self, caller: &PrincipalId, post: PostReport, now: u64) -> (r: Result<
        ReportResponse,
        ApiError,
    >)
        ensures
            !old(self)@.is_available ==> {
                &&& r matches Err(e) && e@ is BadRequest
                &&& final(self)@ == old(self)@
            },
            old(self)@.is_available && old(self)@.entries.len() >= old(self)@.capacity ==> {
                &&& r matches Err(e) && e@ is CanisterAtCapacity
                &&& final(self)@ == unavailable(old(self)@)
            },
            old(self)@.is_available && old(self)@.entries.len() < old(self)@.capacity ==> {
                let report = report_of(post@, caller@, now);
                &&& r matches Ok(resp) && resp@ == response_of(
                    IdentifierView {
                        index: old(self)@.entries.len() as u64,
                        principal: old(self)@.principal,
                        kind: report_kind(),
                    },
                    report,
                )
                &&& final(self)@ == with_entry(old(self)@, report)
            },
    {
        let report = Report {
            reported_by: caller.duplicate(),
            subject: post.subject,
            group_identifier: post.group_identifier,
            message: post.message,
            created_on: now,
        };
        self.store_entry(report)
    }

    /// The write path the registry uses while resharding: stores a record
    /// forwarded from an overflowing sibling, bypassing the permission gate.
    pub fn add_entry_by_parent(&mut self, report: Report) -> (r: Result<ReportResponse, ApiError>)
        ensures
            !old(self)@.is_available ==> {
                &&& r matches Err(e) && e@ is BadRequest
                &&& final(self)@ == old(self)@
            },
            old(self)@.is_available && old(self)@.entries.len() >= old(self)@.capacity ==> {
                &&& r matches Err(e) && e@ is CanisterAtCapacity
                &&& final(self)@ == unavailable(old(self)@)
            },
            old(self)@.is_available && old(self)@.entries.len() < old(self)@.capacity ==> {
                &&& r matches Ok(resp) && resp@ == response_of(
                    IdentifierView {
                        index: old(self)@.entries.len() as u64,
                        principal: old(self)@.principal,
                        kind: report_kind(),
                    },
                    report@,
                )
                &&& final(self)@ == with_entry(old(self)@, report@)
            },
    {
        self.store_entry(report)
    }

    /// Stores one record if the ceiling allows, assigning the next sequence
    /// number.
    fn store_entry(&mut self, report: Report) -> (r: Result<ReportResponse, ApiError>)
        ensures
            !old(self)@.is_available ==> {
                &&& r matches Err(e) && e@ is BadRequest
                &&& final(self)@ == old(self)@
            },
            old(self)@.is_available && old(self)@.entries.len() >= old(self)@.capacity ==> {
                &&& r matches Err(e) && e@ is CanisterAtCapacity
                &&& final(self)@ == unavailable(old(self)@)
            },
            old(self)@.is_available && old(self)@.entries.len() < old(self)@.capacity ==> {
                &&& r matches Ok(resp) && resp@ == response_of(
                    IdentifierView {
                        index: old(self)@.entries.len() as u64,
                        principal: old(self)@.principal,
                        kind: report_kind(),
                    },
                    report@,
                )
                &&& final(self)@ == with_entry(old(self)@, report@)
            },
    {
        if !self.is_available {
            return Err(
                ApiError::BadRequest(
                    ErrorDetail::new(
                        "UNAVAILABLE_CANISTER",
                        "This canister is not available",
                        self.name.as_str(),
                        "add_report",
                    ),
                ),
            );
        }
        if self.entries.len() >= self.capacity {
            self.is_available = false;
            return Err(
                ApiError::CanisterAtCapacity(
                    ErrorDetail::new(
                        "CANISTER_AT_CAPACITY",
                        "This canister reached capacity",
                        self.name.as_str(),
                        "add_report",
                    ),
                ),
            );
        }
        let index = self.entries.len() as u64;
        let resp = map_to_report_response(Identifier::report(index, &self.principal), &report);
        let ghost prev = self@.entries;
        self.entries.push(report);
        proof {
            assert(self@.entries =~= prev.push(report@));
            assert(self@ == with_entry(old(self)@, report@));
        }
        Ok(resp)
    }

    /// Returns the record `identifier` names, provided it belongs to
    /// `group_identifier`. A record of another group answers `Unauthorized`,
    /// not `NotFound`: the group fence outranks existence.
    pub fn get_report(&self, identifier: &Identifier, group_identifier: &PrincipalId) -> (r: Result<
        ReportResponse,
        ApiError,
    >)
        ensures
            !has_entry(self@, identifier@) ==> (r matches Err(e) && e@ is NotFound),
            has_entry(self@, identifier@) && self@.entries[identifier@.index as int].group_identifier
                != group_identifier@ ==> (r matches Err(e) && e@ is Unauthorized),
            has_entry(self@, identifier@) && self@.entries[identifier@.index as int].group_identifier
                == group_identifier@ ==> (r matches Ok(resp) && resp@ == response_of(
                identifier@,
                self@.entries[identifier@.index as int],
            )),
    {
        let rpt = String::from_str("rpt");
        if !(identifier.kind == rpt) || !identifier.principal.is(&self.principal) {
            return Err(
                ApiError::NotFound(
                    ErrorDetail::new(
                        "ENTRY_NOT_FOUND",
                        "Entry not found",
                        self.name.as_str(),
                        "get_report",
                    ),
                ),
            );
        }
        let len = self.entries.len();
        if identifier.index >= len as u64 {
            return Err(
                ApiError::NotFound(
                    ErrorDetail::new(
                        "ENTRY_NOT_FOUND",
                        "Entry not found",
                        self.name.as_str(),
                        "get_report",
                    ),
                ),
            );
        }
        let index = identifier.index as usize;
        let entry = &self.entries[index];
        if !entry.group_identifier.is(group_identifier) {
            return Err(
                ApiError::Unauthorized(
                    ErrorDetail::new(
                        "REPORT_NOT_FOUND",
                        "Report does not belong to the group",
                        self.name.as_str(),
                        "get_report",
                    ),
                ),
            );
        }
        Ok(map_to_report_response(identifier.duplicate(), entry))
    }

    /// All stored records presented as responses, restricted to the group if
    /// one is given.
    fn collect_responses(&self, group: Option<&PrincipalId>) -> (out: Vec<ReportResponse>)
        ensures
            group matches Some(g) ==> response_views(out@) == group_restricted(
                store_responses(self@.principal, self@.entries),
                g@,
            ),
            group is None ==> response_views(out@) == store_responses(
                self@.principal,
                self@.entries,
            ),
    {
        let ghost all = store_responses(self@.principal, self@.entries);
        let mut out: Vec<ReportResponse> = Vec::new();
        let mut i: usize = 0;
        while i < self.entries.len()
            invariant
                i <= self@.entries.len(),
                all == store_responses(self@.principal, self@.entries),
                self@.entries.len() == self.entries@.len(),
                group matches Some(g) ==> response_views(out@) == group_restricted(
                    all.take(i as int),
                    g@,
                ),
                group is None ==> response_views(out@) == all.take(i as int),
            decreases self.entries@.len() - i,
        {
            let ghost prefix = all.take(i as int);
            proof {
                assert(all.take(i + 1).drop_last() =~= prefix);
                assert(all.take(i + 1).last() == all[i as int]);
                assert(self.entries@[i as int]@ == self@.entries[i as int]);
            }
            let keep = match group {
                Some(g) => self.entries[i].group_identifier.is(g),
                None => true,
            };
            if keep {
                let resp = map_to_report_response(
                    Identifier::report(i as u64, &self.principal),
                    &self.entries[i],
                );
                let ghost prev = out@;
                out.push(resp);
                proof {
                    assert(response_views(out@) =~= response_views(prev).push(resp@)) by {
                        assert forall|k: int|
                            0 <= k < out@.len() implies #[trigger] response_views(out@)[k]
                            == response_views(prev).push(resp@)[k] by {
                            if k < prev.len() {
                                assert(out@[k] == prev[k]);
                            } else {
                                assert(out@[k] == resp);
                            }
                        }
                    }
                    assert(resp@ == all[i as int]);
                }
            }
            proof {
                reveal(Seq::filter);
                match group {
                    Some(g) => {
                        assert(response_views(out@) =~= group_restricted(all.take(i + 1), g@));
                    },
                    None => {
                        assert(response_views(out@) =~= all.take(i + 1));
                    },
                }
            }
            i = i + 1;
        }
        proof {
            assert(all.take(self@.entries.len() as int) =~= all);
        }
        out
    }

    /// Answers a paged query: restrict to the group, apply the filters in
    /// the given mode, order by the sort, slice the requested page.
    pub fn get_reports(
        &self,
        limit: usize,
        page: usize,
        sort: ReportSort,
        filters: &Vec<ReportFilter>,
        filter_type: FilterType,
        group_identifier: &PrincipalId,
    ) -> (r: PagedResponse)
        ensures
            ({
                let ordered = query_result(
                    self@.principal,
                    self@.entries,
                    group_identifier@,
                    filter_views(filters@),
                    filter_type,
                    sort,
                );
                &&& r.page == page
                &&& r.limit == limit
                &&& r.total == ordered.len()
                &&& response_views(r.data@) == page_slice(ordered, limit as int, page as int)
            }),
    {
        let grouped = self.collect_responses(Some(group_identifier));
        let filtered_reports = crate::filter::get_filtered_reports(grouped, filters, filter_type);
        let ordered_reports = get_ordered_reports(filtered_reports, sort);
        proof {
            crate::sort::lemma_sort_responses_ensures(
                sort,
                filtered(
                    group_restricted(
                        store_responses(self@.principal, self@.entries),
                        group_identifier@,
                    ),
                    filter_views(filters@),
                    filter_type,
                ),
            );
        }
        get_paged_data(ordered_reports, limit, page)
    }

    /// The permission check before a write reaches this shard, on the role
    /// resolutions the host obtained from the role authority.
    pub fn can_write(
        &self,
        caller: &PrincipalId,
        group_res: Result<Vec<Role>, String>,
        member_res: Result<(PrincipalId, Vec<String>), String>,
    ) -> (r: Result<PrincipalId, ApiError>)
        ensures
            r is Ok <==> gate_grants(
                caller@,
                group_res_view(group_res),
                member_res_view(member_res),
                PermissionActionType::Write,
            ),
            r matches Ok(p) ==> p@ == caller@,
            r matches Err(e) ==> e@ is Unauthorized,
    {
        check_permission(caller, group_res, member_res, PermissionActionType::Write, &self.name)
    }

    /// The permission check before a read reaches this shard.
    pub fn can_read(
        &self,
        caller: &PrincipalId,
        group_res: Result<Vec<Role>, String>,
        member_res: Result<(PrincipalId, Vec<String>), String>,
    ) -> (r: Result<PrincipalId, ApiError>)
        ensures
            r is Ok <==> gate_grants(
                caller@,
                group_res_view(group_res),
                member_res_view(member_res),
                PermissionActionType::Read,
            ),
            r matches Ok(p) ==> p@ == caller@,
            r matches Err(e) ==> e@ is Unauthorized,
    {
        check_permission(caller, group_res, member_res, PermissionActionType::Read, &self.name)
    }

    /// The permission check before an edit reaches this shard.
    pub fn can_edit(
        &self,
        caller: &PrincipalId,
        group_res: Result<Vec<Role>, String>,
        member_res: Result<(PrincipalId, Vec<String>), String>,
    ) -> (r: Result<PrincipalId, ApiError>)
        ensures
            r is Ok <==> gate_grants(
                caller@,
                group_res_view(group_res),
                member_res_view(member_res),
                PermissionActionType::Edit,
            ),
            r matches Ok(p) ==> p@ == caller@,
            r matches Err(e) ==> e@ is Unauthorized,
    {
        check_permission(caller, group_res, member_res, PermissionActionType::Edit, &self.name)
    }

    /// The permission check before a delete reaches this shard.
    pub fn can_delete(
        &self,
        caller: &PrincipalId,
        group_res: Result<Vec<Role>, String>,
        member_res: Result<(PrincipalId, Vec<String>), String>,
    ) -> (r: Result<PrincipalId, ApiError>)
        ensures
            r is Ok <==> gate_grants(
                caller@,
                group_res_view(group_res),
                member_res_view(member_res),
                PermissionActionType::Delete,
            ),
            r matches Ok(p) ==> p@ == caller@,
            r matches Err(e) ==> e@ is Unauthorized,
    {
        check_permission(caller, group_res, member_res, PermissionActionType::Delete, &self.name)
    }

    /// The export path's source data: every stored record — the registry
    /// aggregates across groups — filtered in the given mode. The host
    /// serializes this result set and windows the bytes with the chunk
    /// functions; only the parent registry may trigger it (`is_parent`).
    pub fn get_chunked_data(&self, filters: &Vec<ReportFilter>, filter_type: FilterType) -> (out:
        Vec<ReportResponse>)
        ensures
            response_views(out@) == filtered(
                store_responses(self@.principal, self@.entries),
                filter_views(filters@),
                filter_type,
            ),
    {
        let all = self.collect_responses(None);
        crate::filter::get_filtered_reports(all, filters, filter_type)
    }
}

/// Handoff is loss-free on the success path. An overflow write leaves the
/// overflowing shard's table unchanged — `add_report` stores nothing at
/// capacity — so the pending record is on no shard; when the forward to the
/// freshly spawned sibling then succeeds — `add_entry_by_parent` pushes the
/// record — the record is on the sibling exactly once and on the frozen
/// shard not at all.
pub proof fn lemma_handoff_loss_free(
    frozen_entries: Seq<ReportView>,
    sibling_before: Seq<ReportView>,
    sibling_after: Seq<ReportView>,
    report: ReportView,
)
    requires
        !frozen_entries.contains(report),
        !sibling_before.contains(report),
        sibling_after == sibling_before.push(report),
    ensures
        sibling_after.contains(report),
        sibling_after.to_multiset().count(report) == 1,
        !frozen_entries.contains(report),
{
    broadcast use vstd::seq_lib::group_to_multiset_ensures;

    assert(sibling_before.to_multiset().count(report) == 0);
    assert(sibling_after.to_multiset() =~= sibling_before.to_multiset().insert(report));
    assert(sibling_after.to_multiset().count(report) == 1);
    assert(sibling_after[sibling_after.len() - 1] == report);
}

} // verus!
