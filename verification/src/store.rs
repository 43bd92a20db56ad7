//! The record store's view of a polling record: the row actually persisted,
//! an integer-encoded address and a Unix-epoch timestamp.

use vstd::prelude::*;

use crate::domain::PollingRecord;

verus! {

/// The row persisted for a record: the address as its 32-bit big-endian
/// integer encoding, and the timestamp unchanged, as Unix-epoch seconds.
pub fn record_row(record: &PollingRecord) -> (r: (u32, i64))
    ensures
        r.0 == record.address.spec_bits(),
        r.1 == record.timestamp,
{
    (record.address.bits(), record.timestamp)
}

} // verus!
