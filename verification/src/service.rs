use vstd::prelude::*;
use crate::aggregator::Aggregator;
use crate::error::Error;

verus! {

/// The aggregator as the remote-call surface exposes it: reads that reply
/// with a status code and a payload, and a stats query.
pub struct SourceXorAggregator(pub Aggregator);

impl SourceXorAggregator {
    pub fn new(aggregator: Aggregator) -> (service: SourceXorAggregator)
        ensures
            service.0 == aggregator,
    {
        SourceXorAggregator(aggregator)
    }

    /// Running totals as the stats query reports them:
    /// `(total_bytes_served, total_requests_served)`.
    pub fn get_stats(&self) -> (r: (u64, u64))
        ensures
            r.0 == self.0.bytes_served,
            r.1 == self.0.requests_served,
    {
        self.0.get_stats()
    }
}

/// The remote-call reply for one read result: status 0 with the bytes on
/// success (a short result is a success), or a distinct negative status
/// with an empty payload for each failure kind.
pub fn read_reply(res: Result<Vec<u8>, Error>) -> (r: (i32, Vec<u8>))
    ensures
        res matches Ok(bytes) ==> r.0 == 0 && r.1 == bytes,
        res matches Err(e) ==> r.1@.len() == 0 && r.0 == (match e {
            Error::OsError(_) => -1,
            Error::ErrnoNotPositive => -2,
            Error::Unexpected => -3,
        }),
{
    match res {
        Ok(bytes) => (0, bytes),
        Err(e) => {
            let status: i32 = match e {
                Error::OsError(_) => -1,
                Error::ErrnoNotPositive => -2,
                Error::Unexpected => -3,
            };
            (status, Vec::new())
        },
    }
}

} // verus!
