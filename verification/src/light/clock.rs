//! The clock sysvar as the light client serves it.
use vstd::prelude::*;

verus! {

/// Slot, epoch and time of the runtime.
#[derive(Clone, Copy, Debug, Default, PartialEq, Eq, Structural)]
pub struct Clock {
    /// The current slot.
    pub slot: u64,
    /// The time of the first slot of the current epoch.
    pub epoch_start_timestamp: i64,
    /// The current epoch.
    pub epoch: u64,
    /// The epoch for which the leader schedule was last computed.
    pub leader_schedule_epoch: u64,
    /// The approximate time of the current slot, in seconds since the Unix
    /// epoch.
    pub unix_timestamp: i64,
}

impl Clock {
    /// The clock at slot 0 of epoch 0 when `secs` seconds have passed since
    /// the Unix epoch; a count beyond `i64` reads as 0.
    pub fn at_unix_secs(secs: u64) -> (r: Clock)
        ensures
            r == (Clock {
                slot: 0,
                epoch_start_timestamp: 0,
                epoch: 0,
                leader_schedule_epoch: 0,
                unix_timestamp: if secs <= i64::MAX { secs as i64 } else { 0 },
            }),
    {
        let unix_timestamp: i64 = if secs <= i64::MAX as u64 { secs as i64 } else { 0 };
        Clock { slot: 0, epoch_start_timestamp: 0, epoch: 0, leader_schedule_epoch: 0, unix_timestamp }
    }
}

} // verus!
