//! The session's transaction discipline. The client owns one flag saying
//! whether a transaction is open; commands are planned from that flag and
//! the flag moves only when the driver reports the command done.

use vstd::prelude::*;
use vstd::string::*;

verus! {

/// The transaction state of one replication session.
pub struct TxnSession {
    pub in_txn: bool,
}

impl TxnSession {
    /// A fresh session has no open transaction.
    pub fn new() -> (s: Self)
        ensures
            !s.in_txn,
    {
        TxnSession { in_txn: false }
    }

    /// The command that opens the read-only repeatable-read transaction.
    /// Discovery and the initial copies run inside it, so they observe the
    /// same snapshot as the slot's consistent point.
    pub fn begin_sql(&self) -> (r: String)
        ensures
            r@ == "begin read only isolation level repeatable read;"@,
    {
        String::from_str("begin read only isolation level repeatable read;")
    }

    /// Called when the begin command succeeded.
    pub fn on_begun(&mut self)
        ensures
            final(self).in_txn,
    {
        self.in_txn = true;
    }

    /// The command that ends the open transaction: a commit or a rollback.
    /// With no transaction open there is nothing to send.
    pub fn end_sql(&self, commit: bool) -> (r: Option<String>)
        ensures
            r is Some <==> self.in_txn,
            r matches Some(s) ==> s@ == (if commit {
                "commit;"@
            } else {
                "rollback;"@
            }),
    {
        if self.in_txn {
            if commit {
                Some(String::from_str("commit;"))
            } else {
                Some(String::from_str("rollback;"))
            }
        } else {
            None
        }
    }

    /// Called when the commit or rollback succeeded.
    pub fn on_ended(&mut self)
        ensures
            !final(self).in_txn,
    {
        self.in_txn = false;
    }
}

} // verus!
