//! Ledger entries: streams whose subscribers have already been notified.
use vstd::prelude::*;

verus! {

/// One ledger entry. A stream is recorded here right after a notification
/// burst for it, and the entry is pruned once its scheduled start has
/// passed. Timestamps are seconds since the Unix epoch, UTC.
pub struct ReportedStream {
    pub id: i64,
    pub video_id: String,
    pub vtuber_id: i64,
    pub scheduled_start: i64,
}

impl Clone for ReportedStream {
    fn clone(&self) -> (res: Self)
        ensures
            res == *self,
    {
        ReportedStream {
            id: self.id,
            video_id: self.video_id.clone(),
            vtuber_id: self.vtuber_id,
            scheduled_start: self.scheduled_start,
        }
    }
}

} // verus!
