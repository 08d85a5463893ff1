//! The queue of report requests, kept in a `SmallVec` of the `smallvec` crate
//! so that the usual handful of requests needs no allocation.

use crate::vt::VTReport;
use smallvec::SmallVec;
use vstd::prelude::*;

verus! {

/// The pending report requests, oldest first.
///
/// Trusted: the queue is a `smallvec::SmallVec<[VTReport; 4]>`, which Verus
/// cannot look into; `report_items` names what it holds.
#[verifier::external_body]
#[derive(Debug)]
pub struct ReportRequests {
    items: SmallVec<[VTReport; 4]>,
}

/// The requests that a queue holds, oldest first.
pub uninterp spec fn report_items(queue: ReportRequests) -> Seq<VTReport>;

/// Makes an empty queue with `SmallVec::new`.
///
/// Trusted: the new vector holds nothing.
#[verifier::external_body]
pub(crate) fn reports_new() -> (queue: ReportRequests)
    ensures
        report_items(queue) == Seq::<VTReport>::empty(),
{
    ReportRequests { items: SmallVec::new() }
}

/// Appends a request with `SmallVec::push`.
///
/// Trusted: the vector holds what it held, then the new item.
#[verifier::external_body]
pub(crate) fn reports_push(queue: &mut ReportRequests, report: VTReport)
    ensures
        report_items(*final(queue)) == report_items(*old(queue)).push(report),
{
    queue.items.push(report)
}

/// The number of requests, with `SmallVec::len`.
///
/// Trusted: the length is the number of items held.
#[verifier::external_body]
pub(crate) fn reports_len(queue: &ReportRequests) -> (n: usize)
    ensures
        n == report_items(*queue).len(),
{
    queue.items.len()
}

/// Takes all requests out with `SmallVec::drain` over the full range.
///
/// Trusted: the items come out in order, and the vector is empty afterwards.
#[verifier::external_body]
pub(crate) fn reports_drain(queue: &mut ReportRequests) -> (taken: Vec<VTReport>)
    ensures
        taken@ == report_items(*old(queue)),
        report_items(*final(queue)) == Seq::<VTReport>::empty(),
{
    queue.items.drain(..).collect()
}

} // verus!
