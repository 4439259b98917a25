//! The engine's general laws, proved once and for all against the
//! application contract [`apply_rel`].
//!
//! Each law quantifies over whole account states and transactions, so it
//! holds at every point of every replay, not just for chosen inputs.

use vstd::prelude::*;

use crate::client::{
    apply_rel, has_tx, id_disputed, idx_of, is_logging_tx, lemma_log_unique, logged_deposit,
    unchanged, units_at, ClientAccount, TransactionError,
};
use crate::transaction::{Amount, Transaction, TransactionType};

verus! {

/// Lock monotonicity: every transaction applied to a locked account fails
/// with `LockedAccount` and changes nothing, so the account stays locked and
/// its balances never move again.
pub proof fn lemma_locked_rejects(
    pre: ClientAccount,
    post: ClientAccount,
    tx: Transaction,
    r: Result<(), TransactionError>,
)
    requires
        pre.spec_locked(),
        apply_rel(pre, post, tx, r),
    ensures
        r == Err::<(), TransactionError>(TransactionError::LockedAccount),
        unchanged(pre, post),
        post.spec_locked(),
{
}

/// Duplicate rejection: after a logged deposit or withdrawal, a second
/// deposit or withdrawal reusing its identifier fails with
/// `DuplicateTransactionId` and leaves the account exactly as the first one
/// left it. (A duplicate withdrawal that already fails the balance check is
/// rejected with `NotEnoughBalance` instead, so it is left out here.)
pub proof fn lemma_duplicate_rejected(
    pre: ClientAccount,
    mid: ClientAccount,
    post: ClientAccount,
    tx1: Transaction,
    tx2: Transaction,
    r2: Result<(), TransactionError>,
)
    requires
        apply_rel(pre, mid, tx1, Ok(())),
        apply_rel(mid, post, tx2, r2),
        is_logging_tx(tx1),
        is_logging_tx(tx2),
        tx2.id@ == tx1.id@,
        match tx2.ty {
            TransactionType::Withdrawal { amount } => mid.spec_available() >= amount@ as int,
            _ => true,
        },
    ensures
        r2 == Err::<(), TransactionError>(TransactionError::DuplicateTransactionId),
        unchanged(mid, post),
{
    assert(mid.spec_log() == pre.spec_log().push(tx1));
    assert(mid.spec_log()[pre.spec_log().len() as int] == tx1);
    assert(has_tx(mid.spec_log(), tx2.id@));
}

/// Unknown-reference no-op: a dispute, resolve or chargeback referencing an
/// identifier absent from the log succeeds, changes no balance, and leaves
/// the whole account untouched.
pub proof fn lemma_unknown_reference_noop(
    pre: ClientAccount,
    post: ClientAccount,
    tx: Transaction,
    r: Result<(), TransactionError>,
)
    requires
        !pre.spec_locked(),
        !is_logging_tx(tx),
        !has_tx(pre.spec_log(), tx.id@),
        apply_rel(pre, post, tx, r),
    ensures
        r == Ok::<(), TransactionError>(()),
        unchanged(pre, post),
{
}

/// Insufficient balance: a withdrawal exceeding the available balance fails
/// with `NotEnoughBalance` and leaves the account untouched.
pub proof fn lemma_insufficient_balance(
    pre: ClientAccount,
    post: ClientAccount,
    tx: Transaction,
    r: Result<(), TransactionError>,
    amount: Amount,
)
    requires
        !pre.spec_locked(),
        tx.ty == (TransactionType::Withdrawal { amount }),
        pre.spec_available() < amount@ as int,
        apply_rel(pre, post, tx, r),
    ensures
        r == Err::<(), TransactionError>(TransactionError::NotEnoughBalance),
        unchanged(pre, post),
{
}

/// After a fresh deposit is applied, its identifier references it in the
/// log, and it is not yet under dispute.
proof fn lemma_deposit_establishes_target(
    s0: ClientAccount,
    s1: ClientAccount,
    dep: Transaction,
    amount: Amount,
)
    requires
        s0.wf(),
        s1.wf(),
        dep.ty == (TransactionType::Deposit { amount }),
        apply_rel(s0, s1, dep, Ok(())),
    ensures
        logged_deposit(s1.spec_log(), dep.id@),
        units_at(s1.spec_log(), dep.id@) == amount@,
        !id_disputed(s1.spec_disputes(), dep.id@),
        !s1.spec_locked(),
        s1.spec_log()[s1.spec_log().len() - 1] == dep,
{
    let n = s0.spec_log().len() as int;
    assert(s1.spec_log() == s0.spec_log().push(dep));
    assert(s1.spec_log()[n] == dep);
    assert(has_tx(s1.spec_log(), dep.id@));
    let j = idx_of(s1.spec_log(), dep.id@);
    assert(0 <= j < s1.spec_log().len() && s1.spec_log()[j].id@ == dep.id@);
    lemma_log_unique(s1.spec_log(), j, n);
    if id_disputed(s1.spec_disputes(), dep.id@) {
        let k = choose|k: int|
            0 <= k < s1.spec_disputes().len() && (#[trigger] s1.spec_disputes()[k]@) == dep.id@;
        assert(s1.spec_disputes()[k] == s0.spec_disputes()[k]);
        assert(logged_deposit(s0.spec_log(), dep.id@));
        assert(false);
    }
}

/// While the log is unchanged, a dispute target keeps referencing the same
/// logged deposit.
proof fn lemma_target_stable(log: Seq<Transaction>, id: u32, j: int)
    requires
        0 <= j < log.len(),
        log[j].id@ == id,
        forall|a: int, b: int| 0 <= a < b < log.len() ==> log[a].id@ != log[b].id@,
    ensures
        has_tx(log, id),
        idx_of(log, id) == j,
{
    assert(has_tx(log, id));
    let k = idx_of(log, id);
    assert(0 <= k < log.len() && log[k].id@ == id);
    if k < j {
        assert(log[k].id@ != log[j].id@);
    }
    if j < k {
        assert(log[j].id@ != log[k].id@);
    }
}

/// Dispute round trip, resolve side: a deposit of amount `A`, a dispute of
/// it, and a resolve of it return `available` and `held` to exactly their
/// values right after the deposit, and the account stays unlocked.
pub proof fn lemma_dispute_resolve_round_trip(
    s0: ClientAccount,
    s1: ClientAccount,
    s2: ClientAccount,
    s3: ClientAccount,
    dep: Transaction,
    dis: Transaction,
    res: Transaction,
    amount: Amount,
)
    requires
        s0.wf(),
        s1.wf(),
        s2.wf(),
        dep.ty == (TransactionType::Deposit { amount }),
        dis.ty == TransactionType::Dispute,
        res.ty == TransactionType::Resolve,
        dis.id@ == dep.id@,
        res.id@ == dep.id@,
        apply_rel(s0, s1, dep, Ok(())),
        apply_rel(s1, s2, dis, Ok(())),
        apply_rel(s2, s3, res, Ok(())),
    ensures
        s2.spec_available() == s1.spec_available() - amount@,
        s2.spec_held() == s1.spec_held() + amount@,
        s3.spec_available() == s1.spec_available(),
        s3.spec_held() == s1.spec_held(),
        !s3.spec_locked(),
{
    lemma_deposit_establishes_target(s0, s1, dep, amount);
    let id = dep.id@;
    let n1 = s1.spec_log().len() - 1;
    assert(s2.spec_log() == s1.spec_log());
    assert(s2.spec_disputes() == s1.spec_disputes().push(dis.id));
    lemma_target_stable(s2.spec_log(), id, n1);
    assert(logged_deposit(s2.spec_log(), id));
    assert(units_at(s2.spec_log(), id) == amount@);
    assert(s2.spec_disputes()[s2.spec_disputes().len() - 1]@ == id);
    assert(id_disputed(s2.spec_disputes(), id));
}

/// Dispute round trip, chargeback side: after a deposit of amount `A` and a
/// dispute of it, a chargeback leaves `available` as the dispute left it,
/// removes exactly the disputed portion from `held`, and locks the account.
pub proof fn lemma_dispute_chargeback(
    s0: ClientAccount,
    s1: ClientAccount,
    s2: ClientAccount,
    s3: ClientAccount,
    dep: Transaction,
    dis: Transaction,
    cb: Transaction,
    amount: Amount,
)
    requires
        s0.wf(),
        s1.wf(),
        s2.wf(),
        dep.ty == (TransactionType::Deposit { amount }),
        dis.ty == TransactionType::Dispute,
        cb.ty == TransactionType::Chargeback,
        dis.id@ == dep.id@,
        cb.id@ == dep.id@,
        apply_rel(s0, s1, dep, Ok(())),
        apply_rel(s1, s2, dis, Ok(())),
        apply_rel(s2, s3, cb, Ok(())),
    ensures
        s3.spec_available() == s2.spec_available(),
        s3.spec_held() == s2.spec_held() - amount@,
        s3.spec_held() == s1.spec_held(),
        s3.spec_locked(),
{
    lemma_deposit_establishes_target(s0, s1, dep, amount);
    let id = dep.id@;
    let n1 = s1.spec_log().len() - 1;
    assert(s2.spec_log() == s1.spec_log());
    assert(s2.spec_disputes() == s1.spec_disputes().push(dis.id));
    lemma_target_stable(s2.spec_log(), id, n1);
    assert(logged_deposit(s2.spec_log(), id));
    assert(units_at(s2.spec_log(), id) == amount@);
    assert(s2.spec_disputes()[s2.spec_disputes().len() - 1]@ == id);
    assert(id_disputed(s2.spec_disputes(), id));
}

} // verus!
