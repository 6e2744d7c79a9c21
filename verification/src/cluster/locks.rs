//! The messages of the lock protocol between a node and the leader.
use vstd::prelude::*;

verus! {

/// A node asks the leader for the lock of an enterprise for a transaction.
#[derive(Debug, Clone)]
pub struct AcquireLock {
    pub from: u32,
    pub transaction_id: String,
    pub enterprise_id: u32,
}

/// A transaction is done with the lock of an enterprise.
#[derive(Debug, Clone)]
pub struct ReleaseLock {
    pub transaction_id: String,
    pub enterprise_id: u32,
}

/// The lock of an enterprise may go to the next waiting transaction.
#[derive(Debug, Clone, Copy, PartialEq, Eq, Structural)]
pub struct NextLock {
    pub enterprise_id: u32,
}

/// The leader gave the lock of an enterprise to a transaction.
#[derive(Debug, Clone)]
pub struct LockGranted {
    pub transaction_id: String,
    pub enterprise_id: u32,
}

} // verus!
