//! Locks that a lease keeps: whoever creates the key holds the lock for as long as the lease lives.

use vstd::prelude::*;
use vstd::slice::*;
use vstd::utf8::*;

use crate::error::TsoError;
use crate::metadata::etcd::status_index::Fence;
use crate::metadata::etcd::txn;
use crate::metadata::etcd::txn::{
    key_bytes, Condition, ConditionView, Operation, OperationView, Payload, PayloadView,
    Transaction,
};
use crate::text;
use crate::text::{join4, signed_decimal_text};

verus! {

/// The shortest time to live that a lock is asked for.
pub const MIN_LOCK_TTL_SECONDS: i64 = 3;

pub open spec fn lock_ttl(ttl_seconds: i64) -> int {
    if ttl_seconds > MIN_LOCK_TTL_SECONDS {
        ttl_seconds as int
    } else {
        MIN_LOCK_TTL_SECONDS as int
    }
}

/// What the lock waits for.
#[derive(Debug)]
pub enum LockWait {
    Granted,
    Committed { lease_id: i64 },
    /// The lease is given back because the lock is taken.
    RevokedTaken,
    /// The lease is given back because something failed.
    RevokedFailed { error: TsoError },
    KeepaliveOpened { lease_id: i64 },
    Nothing,
}

/// What it asks for.
pub enum LockStep {
    GrantLease { ttl_seconds: i64 },
    Commit { txn: Transaction },
    RevokeLease { lease_id: i64 },
    OpenKeepalive { lease_id: i64 },
    /// The lock is held, and the lease is to be renewed this often.
    Acquired { fence: Fence, lease_id: i64, heartbeat_seconds: u64 },
    /// Somebody else holds it.
    Taken,
    Failed { error: TsoError },
}

/// What it is answered.
pub enum LockReply {
    Granted(Result<i64, String>),
    Committed(Result<bool, String>),
    /// Whether or not the lease could be given back.
    Revoked,
    KeepaliveOpened(Result<(), String>),
}

/// A try to get a lock.
pub struct LockTry {
    pub key: String,
    pub ttl_seconds: i64,
    pub conditions: Vec<Condition>,
    pub operation: String,
    pub wait: LockWait,
}

/// The token of a lock: the number of its lease, in decimal.
pub open spec fn lock_token(lease_id: i64) -> Seq<u8> {
    encode_utf8(text::signed_decimal(lease_id as int))
}

fn token_of(lease_id: i64) -> (token: Vec<u8>)
    ensures
        token@ == lock_token(lease_id),
{
    key_bytes(signed_decimal_text(lease_id).as_str())
}

/// An error of a lock: which one, what failed, and why.
pub open spec fn is_lock_error(
    error: TsoError,
    operation: Seq<char>,
    what: Seq<char>,
    report: Seq<char>,
) -> bool {
    error.is_internal("Etcd "@ + operation + what + report)
}

fn lock_error(operation: &str, what: &str, report: &str) -> (error: TsoError)
    ensures
        is_lock_error(error, operation@, what@, report@),
{
    TsoError::Internal(join4("Etcd ", operation, what, report))
}

impl LockTry {
    pub open spec fn awaits(self, reply: LockReply) -> bool {
        match self.wait {
            LockWait::Granted => reply is Granted,
            LockWait::Committed { .. } => reply is Committed,
            LockWait::RevokedTaken => reply is Revoked,
            LockWait::RevokedFailed { .. } => reply is Revoked,
            LockWait::KeepaliveOpened { .. } => reply is KeepaliveOpened,
            LockWait::Nothing => false,
        }
    }

    pub open spec fn same_lock(self, other: LockTry) -> bool {
        &&& self.key == other.key
        &&& self.ttl_seconds == other.ttl_seconds
        &&& self.operation == other.operation
    }

    /// The lock is taken by creating its key, under the lease, where nobody has and the further
    /// conditions hold.
    pub open spec fn takes_lock(
        self,
        conditions: Seq<ConditionView>,
        lease_id: i64,
        txn: Transaction,
    ) -> bool {
        let key = encode_utf8(self.key@);
        &&& txn@.conditions == conditions.push(ConditionView::CreateRevision { key, revision: 0 })
        &&& txn@.operations == seq![
            OperationView::Put {
                key,
                value: PayloadView::Bytes(lock_token(lease_id)),
                lease: Some(lease_id),
            },
        ]
    }

    /// Begins to get a lock.
    pub fn start(key: &str, ttl_seconds: i64, conditions: Vec<Condition>, operation: &str) -> (
        begun: (Self, LockStep))
        ensures
            begun.0.key@ == key@,
            begun.0.ttl_seconds == lock_ttl(ttl_seconds),
            begun.0.conditions == conditions,
            begun.0.operation@ == operation@,
            begun.0.wait is Granted,
            begun.1 == (LockStep::GrantLease { ttl_seconds: begun.0.ttl_seconds }),
    {
        let ttl: i64 = if ttl_seconds > MIN_LOCK_TTL_SECONDS {
            ttl_seconds
        } else {
            MIN_LOCK_TTL_SECONDS
        };
        (
            LockTry {
                key: key.to_owned(),
                ttl_seconds: ttl,
                conditions,
                operation: operation.to_owned(),
                wait: LockWait::Granted,
            },
            LockStep::GrantLease { ttl_seconds: ttl },
        )
    }

    /// How often the lease of a lock is renewed.
    pub open spec fn heartbeat(self) -> int {
        self.ttl_seconds as int / 3
    }

    /// What a reply comes to.
    pub open spec fn advances(self, before: LockTry, reply: LockReply, step: LockStep) -> bool {
        match reply {
            LockReply::Granted(granted) => match granted {
                Err(report) => {
                    &&& self.wait is Nothing
                    &&& step matches LockStep::Failed { error }
                    &&& is_lock_error(
                        error,
                        before.operation@,
                        " lock lease grant failed: "@,
                        report@,
                    )
                },
                Ok(lease_id) => {
                    &&& self.wait == (LockWait::Committed { lease_id })
                    &&& step matches LockStep::Commit { txn }
                    &&& before.takes_lock(txn::condition_views(before.conditions@), lease_id, txn)
                },
            },
            LockReply::Committed(committed) => {
                let lease_id = before.wait->Committed_lease_id;
                match committed {
                    Err(report) => {
                        &&& step == (LockStep::RevokeLease { lease_id })
                        &&& self.wait matches LockWait::RevokedFailed { error }
                        &&& is_lock_error(
                            error,
                            before.operation@,
                            " lock transaction failed: "@,
                            report@,
                        )
                    },
                    Ok(false) => {
                        &&& step == (LockStep::RevokeLease { lease_id })
                        &&& self.wait is RevokedTaken
                    },
                    Ok(true) => {
                        &&& step == (LockStep::OpenKeepalive { lease_id })
                        &&& self.wait == (LockWait::KeepaliveOpened { lease_id })
                    },
                }
            },
            LockReply::Revoked => {
                &&& self.wait is Nothing
                &&& match before.wait {
                    LockWait::RevokedFailed { error } => step == (LockStep::Failed { error }),
                    _ => step is Taken,
                }
            },
            LockReply::KeepaliveOpened(opened) => {
                let lease_id = before.wait->KeepaliveOpened_lease_id;
                match opened {
                    Err(report) => {
                        &&& step == (LockStep::RevokeLease { lease_id })
                        &&& self.wait matches LockWait::RevokedFailed { error }
                        &&& is_lock_error(
                            error,
                            before.operation@,
                            " lock keepalive failed: "@,
                            report@,
                        )
                    },
                    Ok(()) => {
                        &&& self.wait is Nothing
                        &&& step matches LockStep::Acquired { fence, lease_id: held, heartbeat_seconds }
                        &&& fence.key@ == before.key@
                        &&& fence.token@ == lock_token(lease_id)
                        &&& held == lease_id
                        &&& heartbeat_seconds == before.heartbeat()
                    },
                }
            },
        }
    }

    /// Takes a reply and says what to ask for next.
    pub fn on_reply(&mut self, reply: LockReply) -> (step: LockStep)
        requires
            old(self).awaits(reply),
            old(self).ttl_seconds >= MIN_LOCK_TTL_SECONDS,
        ensures
            final(self).same_lock(*old(self)),
            final(self).advances(*old(self), reply, step),
    {
        let mut wait = LockWait::Nothing;
        std::mem::swap(&mut wait, &mut self.wait);
        match reply {
            LockReply::Granted(granted) => match granted {
                Err(report) => LockStep::Failed {
                    error: lock_error(
                        self.operation.as_str(),
                        " lock lease grant failed: ",
                        report.as_str(),
                    ),
                },
                Ok(lease_id) => {
                    self.wait = LockWait::Committed { lease_id };
                    let mut conditions: Vec<Condition> = Vec::new();
                    std::mem::swap(&mut conditions, &mut self.conditions);
                    let ghost given = conditions@;
                    let created = Condition::CreateRevision {
                        key: key_bytes(self.key.as_str()),
                        revision: 0,
                    };
                    conditions.push(created);
                    assert(txn::condition_views(conditions@) =~= txn::condition_views(given).push(
                        created@,
                    ));
                    let mut operations: Vec<Operation> = Vec::new();
                    operations.push(
                        Operation::Put {
                            key: key_bytes(self.key.as_str()),
                            value: Payload::Bytes(token_of(lease_id)),
                            lease: Some(lease_id),
                        },
                    );
                    let txn = Transaction { conditions, operations };
                    assert(txn@.operations =~= seq![
                        OperationView::Put {
                            key: encode_utf8(self.key@),
                            value: PayloadView::Bytes(lock_token(lease_id)),
                            lease: Some(lease_id),
                        },
                    ]);
                    LockStep::Commit { txn }
                },
            },
            LockReply::Committed(committed) => {
                let lease_id: i64 = match wait {
                    LockWait::Committed { lease_id } => lease_id,
                    _ => 0,
                };
                match committed {
                    Err(report) => {
                        self.wait = LockWait::RevokedFailed {
                            error: lock_error(
                                self.operation.as_str(),
                                " lock transaction failed: ",
                                report.as_str(),
                            ),
                        };
                        LockStep::RevokeLease { lease_id }
                    },
                    Ok(succeeded) => {
                        if succeeded {
                            self.wait = LockWait::KeepaliveOpened { lease_id };
                            LockStep::OpenKeepalive { lease_id }
                        } else {
                            self.wait = LockWait::RevokedTaken;
                            LockStep::RevokeLease { lease_id }
                        }
                    },
                }
            },
            LockReply::Revoked => match wait {
                LockWait::RevokedFailed { error } => LockStep::Failed { error },
                _ => LockStep::Taken,
            },
            LockReply::KeepaliveOpened(opened) => {
                let lease_id: i64 = match wait {
                    LockWait::KeepaliveOpened { lease_id } => lease_id,
                    _ => 0,
                };
                match opened {
                    Err(report) => {
                        self.wait = LockWait::RevokedFailed {
                            error: lock_error(
                                self.operation.as_str(),
                                " lock keepalive failed: ",
                                report.as_str(),
                            ),
                        };
                        LockStep::RevokeLease { lease_id }
                    },
                    Ok(()) => LockStep::Acquired {
                        fence: Fence { key: self.key.clone(), token: token_of(lease_id) },
                        lease_id,
                        heartbeat_seconds: (self.ttl_seconds / 3) as u64,
                    },
                }
            },
        }
    }
}

/// What stands under the key of a lock.
#[derive(Debug)]
pub struct LockEntry {
    pub value: Vec<u8>,
    pub lease: i64,
}

/// What looking at a lock comes to.
pub open spec fn tells_ownership(
    fence: Fence,
    lease_id: i64,
    known_lost: bool,
    read: Result<Option<LockEntry>, String>,
    result: Result<bool, TsoError>,
) -> bool {
    if known_lost {
        result == Ok::<bool, TsoError>(false)
    } else {
        match read {
            Err(report) => result matches Err(error) && txn::is_reported(
                error,
                "Etcd lease lock verification failed"@,
                report@,
            ),
            Ok(None) => result == Ok::<bool, TsoError>(false),
            Ok(Some(entry)) => result == Ok::<bool, TsoError>(
                entry.value@ == fence.token@ && entry.lease == lease_id,
            ),
        }
    }
}

/// A lock counts as held only while its key is seen to hold its very token under its very lease, and
/// never again once it is known to be lost. It is renewed only by an answer that grants more time.
pub proof fn locks_are_held_by_token_and_lease(
    fence: Fence,
    lease_id: i64,
    known_lost: bool,
    read: Result<Option<LockEntry>, String>,
    result: Result<bool, TsoError>,
    sent: bool,
    granted_ttl: Option<i64>,
)
    requires
        tells_ownership(fence, lease_id, known_lost, read, result),
    ensures
        result == Ok::<bool, TsoError>(true) <==> !known_lost && (read matches Ok(Some(entry))
            && entry.value@ == fence.token@ && entry.lease == lease_id),
        result is Err <==> !known_lost && read is Err,
        renews(sent, granted_ttl) <==> sent && granted_ttl is Some && granted_ttl->0 > 0,
{
}

/// The renewal of a lock goes on.
pub open spec fn renews(sent: bool, granted_ttl: Option<i64>) -> bool {
    sent && (granted_ttl matches Some(ttl) && ttl > 0)
}

/// Whether a lock is still held: it is not known to be lost, and its key still holds its token under
/// its lease.
pub fn lease_lock_is_owned(
    fence: &Fence,
    lease_id: i64,
    known_lost: bool,
    read: Result<Option<LockEntry>, String>,
) -> (result: Result<bool, TsoError>)
    ensures
        tells_ownership(*fence, lease_id, known_lost, read, result),
        if known_lost {
            result == Ok::<bool, TsoError>(false)
        } else {
            match read {
                Err(report) => result matches Err(error) && txn::is_reported(
                    error,
                    "Etcd lease lock verification failed"@,
                    report@,
                ),
                Ok(None) => result == Ok::<bool, TsoError>(false),
                Ok(Some(entry)) => result == Ok::<bool, TsoError>(
                    entry.value@ == fence.token@ && entry.lease == lease_id,
                ),
            }
        },
{
    if known_lost {
        return Ok(false);
    }
    match read {
        Err(report) => Err(txn::reported("Etcd lease lock verification failed", report.as_str())),
        Ok(None) => Ok(false),
        Ok(Some(entry)) => {
            Ok(
                bytes_equal(entry.value.as_slice(), fence.token.as_slice()) && entry.lease
                    == lease_id,
            )
        },
    }
}

/// Whether two byte strings are the same.
pub fn bytes_equal(a: &[u8], b: &[u8]) -> (equal: bool)
    ensures
        equal == (a@ == b@),
{
    if a.len() != b.len() {
        return false;
    }
    let mut i: usize = 0;
    while i < a.len()
        invariant
            a@.len() == b@.len(),
            i <= a@.len(),
            forall|k: int| 0 <= k < i ==> a@[k] == b@[k],
        decreases a@.len() - i,
    {
        if a[i] != b[i] {
            return false;
        }
        i = i + 1;
    }
    assert(a@ =~= b@);
    true
}

/// Whether the renewal of a lock goes on: the request went out, and the answer grants more time.
pub fn lock_renewal_goes_on(sent: bool, granted_ttl: Option<i64>) -> (answer: bool)
    ensures
        answer == renews(sent, granted_ttl),
        answer == (sent && (granted_ttl matches Some(ttl) && ttl > 0)),
{
    match granted_ttl {
        Some(ttl) => sent && ttl > 0,
        None => false,
    }
}

/// Whatever is guarded by a lock's fence is asked of the store only while the key of the lock holds
/// the token of that very lease: two leases never share a token.
pub proof fn leases_have_their_own_tokens(a: i64, b: i64)
    requires
        lock_token(a) == lock_token(b),
    ensures
        a == b,
{
    broadcast use encode_utf8_decode_utf8;

    assert(decode_utf8(lock_token(a)) == text::signed_decimal(a as int));
    assert(decode_utf8(lock_token(b)) == text::signed_decimal(b as int));
    text::signed_decimals_are_distinct(a as int, b as int);
}

/// A lock is asked for three seconds at least, and otherwise for as long as it was asked for.
pub proof fn locks_live_three_seconds_at_least(ttl_seconds: i64)
    ensures
        lock_ttl(ttl_seconds) >= 3,
        lock_ttl(ttl_seconds) >= ttl_seconds,
        lock_ttl(ttl_seconds) == 3 || lock_ttl(ttl_seconds) == ttl_seconds,
{
}

/// A lock is held only after the store created its key and its lease is being renewed; whenever it
/// comes to nothing after a lease was granted, the lease is given back first. It is reported as
/// taken only where the store refused it.
pub proof fn locks_are_held_or_given_back(
    before: LockTry,
    after: LockTry,
    reply: LockReply,
    step: LockStep,
)
    requires
        before.awaits(reply),
        before.ttl_seconds >= 3,
        after.advances(before, reply, step),
    ensures
        step is Commit <==> (reply matches LockReply::Granted(Ok(_))),
        step matches LockStep::Commit { txn } ==> {
            let lease_id = reply->Granted_0->Ok_0;
            let key = encode_utf8(before.key@);
            &&& txn@.conditions.last() == (ConditionView::CreateRevision { key, revision: 0 })
            &&& txn@.conditions.len() == before.conditions@.len() + 1
            &&& txn@.operations.len() == 1
            &&& txn@.operations[0] == (OperationView::Put {
                key,
                value: PayloadView::Bytes(lock_token(lease_id)),
                lease: Some(lease_id),
            })
            &&& after.wait == (LockWait::Committed { lease_id })
        },
        step is OpenKeepalive <==> (reply matches LockReply::Committed(Ok(true))),
        step is Acquired <==> (reply matches LockReply::KeepaliveOpened(Ok(()))),
        step matches LockStep::Acquired { fence, lease_id, heartbeat_seconds } ==> {
            &&& before.wait == (LockWait::KeepaliveOpened { lease_id })
            &&& fence.key@ == before.key@
            &&& fence.token@ == lock_token(lease_id)
            &&& 3 * heartbeat_seconds <= before.ttl_seconds < 3 * (heartbeat_seconds + 1)
        },
        step is Taken <==> before.wait is RevokedTaken,
        after.wait is RevokedTaken <==> (reply matches LockReply::Committed(Ok(false))),
        step is Failed ==> before.wait is Granted || before.wait is RevokedFailed,
        step matches LockStep::RevokeLease { lease_id } ==> before.wait == (LockWait::Committed {
            lease_id,
        }) || before.wait == (LockWait::KeepaliveOpened { lease_id }),
{
}

} // verus!
