//! The record model: reports, the payload a caller posts, the response shape
//! queries return, and the identifiers that name stored records.

use vstd::prelude::*;

use crate::principal::PrincipalId;

verus! {

/// The kind label of record identifiers minted by a report shard.
pub open spec fn report_kind() -> Seq<char> {
    "rpt"@
}

/// A record identifier: the shard that stored the record, the locally
/// monotonic sequence number the shard assigned, and the kind label of the
/// entity it names. Sequence numbers follow creation order on one shard, so
/// `(principal, index)` is globally unique.
pub struct Identifier {
    pub index: u64,
    pub principal: PrincipalId,
    pub kind: String,
}

pub ghost struct IdentifierView {
    pub index: u64,
    pub principal: Seq<u8>,
    pub kind: Seq<char>,
}

impl View for Identifier {
    type V = IdentifierView;

    open spec fn view(&self) -> IdentifierView {
        IdentifierView { index: self.index, principal: self.principal@, kind: self.kind@ }
    }
}

impl Identifier {
    /// The identifier of the report stored at sequence number `index` on the
    /// shard `shard`.
    pub fn report(index: u64, shard: &PrincipalId) -> (id: Identifier)
        ensures
            id@.index == index,
            id@.principal == shard@,
            id@.kind == report_kind(),
    {
        Identifier { index, principal: shard.duplicate(), kind: String::from_str("rpt") }
    }

    pub fn duplicate(&self) -> (id: Identifier)
        ensures
            id@ == self@,
    {
        Identifier {
            index: self.index,
            principal: self.principal.duplicate(),
            kind: self.kind.clone(),
        }
    }
}

/// A half-open or open-ended window of creation timestamps. An `end_date` of
/// zero means the window has no upper bound.
#[derive(Clone, Copy, PartialEq, Eq, Structural)]
pub struct DateRange {
    pub start_date: u64,
    pub end_date: u64,
}

/// A stored record. Immutable once stored: the store offers no update and no
/// delete.
pub struct Report {
    /// The caller that filed the report.
    pub reported_by: PrincipalId,
    /// The entity the report is about.
    pub subject: Identifier,
    /// The group the report belongs to; reads are fenced to it.
    pub group_identifier: PrincipalId,
    pub message: String,
    /// The shard-local clock reading at creation.
    pub created_on: u64,
}

pub ghost struct ReportView {
    pub reported_by: Seq<u8>,
    pub subject: IdentifierView,
    pub group_identifier: Seq<u8>,
    pub message: Seq<char>,
    pub created_on: u64,
}

impl View for Report {
    type V = ReportView;

    open spec fn view(&self) -> ReportView {
        ReportView {
            reported_by: self.reported_by@,
            subject: self.subject@,
            group_identifier: self.group_identifier@,
            message: self.message@,
            created_on: self.created_on,
        }
    }
}

impl Report {
    pub fn duplicate(&self) -> (r: Report)
        ensures
            r@ == self@,
    {
        Report {
            reported_by: self.reported_by.duplicate(),
            subject: self.subject.duplicate(),
            group_identifier: self.group_identifier.duplicate(),
            message: self.message.clone(),
            created_on: self.created_on,
        }
    }
}

/// The payload a caller posts to file a report.
pub struct PostReport {
    pub subject: Identifier,
    pub message: String,
    pub group_identifier: PrincipalId,
}

pub ghost struct PostReportView {
    pub subject: IdentifierView,
    pub message: Seq<char>,
    pub group_identifier: Seq<u8>,
}

impl View for PostReport {
    type V = PostReportView;

    open spec fn view(&self) -> PostReportView {
        PostReportView {
            subject: self.subject@,
            message: self.message@,
            group_identifier: self.group_identifier@,
        }
    }
}

/// The report a caller with principal `reported_by` files at time `now`.
pub open spec fn report_of(post: PostReportView, reported_by: Seq<u8>, now: u64) -> ReportView {
    ReportView {
        reported_by: reported_by,
        subject: post.subject,
        group_identifier: post.group_identifier,
        message: post.message,
        created_on: now,
    }
}

/// The shape queries return: the record together with its identifier and the
/// kind label of its subject.
pub struct ReportResponse {
    pub identifier: Identifier,
    pub reported_by: PrincipalId,
    pub group_identifier: PrincipalId,
    pub subject: Identifier,
    pub subject_kind: String,
    pub message: String,
    pub created_on: u64,
}

pub ghost struct ReportResponseView {
    pub identifier: IdentifierView,
    pub reported_by: Seq<u8>,
    pub group_identifier: Seq<u8>,
    pub subject: IdentifierView,
    pub subject_kind: Seq<char>,
    pub message: Seq<char>,
    pub created_on: u64,
}

impl View for ReportResponse {
    type V = ReportResponseView;

    open spec fn view(&self) -> ReportResponseView {
        ReportResponseView {
            identifier: self.identifier@,
            reported_by: self.reported_by@,
            group_identifier: self.group_identifier@,
            subject: self.subject@,
            subject_kind: self.subject_kind@,
            message: self.message@,
            created_on: self.created_on,
        }
    }
}

/// The response that presents the record stored under `identifier`. The
/// subject's kind label is surfaced as a field of its own so that queries can
/// filter and sort on it.
pub open spec fn response_of(identifier: IdentifierView, report: ReportView) -> ReportResponseView {
    ReportResponseView {
        identifier: identifier,
        reported_by: report.reported_by,
        group_identifier: report.group_identifier,
        subject: report.subject,
        subject_kind: report.subject.kind,
        message: report.message,
        created_on: report.created_on,
    }
}

/// The views of a list of reports.
pub open spec fn report_views(s: Seq<Report>) -> Seq<ReportView> {
    s.map_values(|r: Report| r@)
}

/// The views of a list of responses.
pub open spec fn response_views(s: Seq<ReportResponse>) -> Seq<ReportResponseView> {
    s.map_values(|r: ReportResponse| r@)
}

impl ReportResponse {
    pub fn duplicate(&self) -> (r: ReportResponse)
        ensures
            r@ == self@,
    {
        ReportResponse {
            identifier: self.identifier.duplicate(),
            reported_by: self.reported_by.duplicate(),
            group_identifier: self.group_identifier.duplicate(),
            subject: self.subject.duplicate(),
            subject_kind: self.subject_kind.clone(),
            message: self.message.clone(),
            created_on: self.created_on,
        }
    }
}

/// Presents a stored record as a query response.
pub fn map_to_report_response(identifier: Identifier, report: &Report) -> (r: ReportResponse)
    ensures
        r@ == response_of(identifier@, report@),
{
    ReportResponse {
        subject_kind: report.subject.kind.clone(),
        reported_by: report.reported_by.duplicate(),
        group_identifier: report.group_identifier.duplicate(),
        subject: report.subject.duplicate(),
        message: report.message.clone(),
        created_on: report.created_on,
        identifier,
    }
}

} // verus!
