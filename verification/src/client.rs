//! The per-account replay engine: the transaction effect calculator and the
//! account state machine that applies its diffs.
//!
//! All business rules live in [`TxDiff::calculate`], a pure function from an
//! account's current state and one transaction to the state difference that
//! applying the transaction would cause. [`ClientAccount::append_tx`] is the
//! only code path that mutates an account; it applies one diff atomically or
//! rejects the transaction and changes nothing.

use vstd::pervasive::unreached;
use vstd::prelude::*;

use crate::transaction::{
    spec_deposit_amount, tx_wf, Amount, ClientId, Transaction, TransactionId, TransactionType,
};

verus! {

/// A transaction-level error. Each one rejects a single transaction and
/// leaves the account exactly as it was.
#[derive(Clone, Copy, Debug, PartialEq, Eq)]
pub enum TransactionError {
    /// The target account is locked; every transaction is rejected.
    LockedAccount,
    /// A withdrawal asked for more than the available balance.
    NotEnoughBalance,
    /// A deposit or withdrawal reused an identifier already in the log.
    DuplicateTransactionId,
}

/// True of the two variants that mint a log entry.
pub open spec fn is_logging_tx(tx: Transaction) -> bool {
    match tx.ty {
        TransactionType::Deposit { .. } => true,
        TransactionType::Withdrawal { .. } => true,
        _ => false,
    }
}

/// The unit count a deposit contributes to the deposit sum; zero otherwise.
pub open spec fn deposit_units(t: Transaction) -> int {
    match t.ty {
        TransactionType::Deposit { amount } => amount@ as int,
        _ => 0,
    }
}

/// The unit count a withdrawal contributes to the withdrawal sum; zero otherwise.
pub open spec fn withdrawal_units(t: Transaction) -> int {
    match t.ty {
        TransactionType::Withdrawal { amount } => amount@ as int,
        _ => 0,
    }
}

/// The log holds a transaction with this identifier.
pub open spec fn has_tx(log: Seq<Transaction>, id: u32) -> bool {
    exists|i: int| 0 <= i < log.len() && #[trigger] log[i].id@ == id
}

/// The index of the log entry with this identifier (unique when the log is
/// well formed).
pub open spec fn idx_of(log: Seq<Transaction>, id: u32) -> int {
    choose|i: int| 0 <= i < log.len() && #[trigger] log[i].id@ == id
}

/// The log entry with this identifier.
pub open spec fn tx_at(log: Seq<Transaction>, id: u32) -> Transaction {
    log[idx_of(log, id)]
}

/// The logged entry with this identifier exists and is a deposit.
pub open spec fn logged_deposit(log: Seq<Transaction>, id: u32) -> bool {
    has_tx(log, id) && spec_deposit_amount(tx_at(log, id)) is Some
}

/// The unit count of the logged deposit with this identifier.
pub open spec fn units_at(log: Seq<Transaction>, id: u32) -> u64 {
    match tx_at(log, id).ty {
        TransactionType::Deposit { amount } => amount@,
        _ => 0,
    }
}

/// This identifier is under active dispute.
pub open spec fn id_disputed(ds: Seq<TransactionId>, id: u32) -> bool {
    exists|k: int| 0 <= k < ds.len() && #[trigger] ds[k]@ == id
}

/// The index of this identifier in the active-dispute list (unique when the
/// list is well formed).
pub open spec fn disputed_at(ds: Seq<TransactionId>, id: u32) -> int {
    choose|k: int| 0 <= k < ds.len() && #[trigger] ds[k]@ == id
}

/// Sum of all logged deposit amounts, in units.
pub open spec fn dep_sum(log: Seq<Transaction>) -> int
    decreases log.len(),
{
    if log.len() == 0 {
        0
    } else {
        dep_sum(log.drop_last()) + deposit_units(log.last())
    }
}

/// Sum of all logged withdrawal amounts, in units.
pub open spec fn wd_sum(log: Seq<Transaction>) -> int
    decreases log.len(),
{
    if log.len() == 0 {
        0
    } else {
        wd_sum(log.drop_last()) + withdrawal_units(log.last())
    }
}

/// Sum of the amounts of the logged deposits under active dispute, in units.
pub open spec fn disputed_sum(log: Seq<Transaction>, ds: Seq<TransactionId>) -> int
    decreases ds.len(),
{
    if ds.len() == 0 {
        0
    } else {
        disputed_sum(log, ds.drop_last()) + deposit_units(tx_at(log, ds.last()@))
    }
}

/// A well-formed log: every entry is a deposit or withdrawal within the
/// amount cap, and no transaction identifier appears twice.
pub open spec fn log_wf(log: Seq<Transaction>) -> bool {
    &&& forall|i: int|
        0 <= i < log.len() ==> is_logging_tx(#[trigger] log[i]) && tx_wf(log[i])
    &&& forall|i: int, j: int|
        0 <= i < j < log.len() ==> (#[trigger] log[i].id@) != (#[trigger] log[j].id@)
}

/// No identifier appears twice in the active-dispute list.
pub open spec fn ds_nodup(ds: Seq<TransactionId>) -> bool {
    forall|k: int, l: int| 0 <= k < l < ds.len() ==> (#[trigger] ds[k]@) != (#[trigger] ds[l]@)
}

/// A well-formed active-dispute list: no identifier appears twice, and each
/// one references a logged deposit.
pub open spec fn disputes_wf(log: Seq<Transaction>, ds: Seq<TransactionId>) -> bool {
    &&& ds_nodup(ds)
    &&& forall|k: int| 0 <= k < ds.len() ==> logged_deposit(log, #[trigger] ds[k]@)
}

/// A client account: the log of settled deposits and withdrawals, the
/// active-dispute list, the two balances and the lock flag.
#[derive(Debug)]
pub struct ClientAccount {
    id: ClientId,
    /// The account's transaction log. Identifiers are not ordered; insertion
    /// order is chronological, so the log is a sequence with unique
    /// identifiers rather than a map.
    log: Vec<Transaction>,
    /// The list of active disputes. Resolved and charged-back disputes leave
    /// the list; replaying the log recovers their history.
    disputes: Vec<TransactionId>,
    available: i128,
    held: i128,
    locked: bool,
}

impl ClientAccount {
    pub closed spec fn spec_id(self) -> u16 {
        self.id@
    }

    pub closed spec fn spec_log(self) -> Seq<Transaction> {
        self.log@
    }

    pub closed spec fn spec_disputes(self) -> Seq<TransactionId> {
        self.disputes@
    }

    pub closed spec fn spec_available(self) -> int {
        self.available as int
    }

    pub closed spec fn spec_held(self) -> int {
        self.held as int
    }

    pub closed spec fn spec_locked(self) -> bool {
        self.locked
    }

    pub open spec fn spec_total(self) -> int {
        self.spec_available() + self.spec_held()
    }

    /// The account invariant: the log and dispute list are well formed, the
    /// held balance is exactly the sum of the disputed deposits, and — until
    /// a chargeback locks the account — the total balance is exactly the sum
    /// of all net effects replayed so far.
    pub open spec fn wf(self) -> bool {
        &&& log_wf(self.spec_log())
        &&& disputes_wf(self.spec_log(), self.spec_disputes())
        &&& self.spec_held() == disputed_sum(self.spec_log(), self.spec_disputes())
        &&& (!self.spec_locked() ==> self.spec_available() + self.spec_held() == dep_sum(
            self.spec_log(),
        ) - wd_sum(self.spec_log()))
        &&& (self.spec_locked() ==> -wd_sum(self.spec_log()) <= self.spec_available()
            + self.spec_held() <= dep_sum(self.spec_log()) - wd_sum(self.spec_log()))
    }
}

/// A freshly created account: empty log and dispute list, zero balances,
/// unlocked.
pub open spec fn is_empty_account(a: ClientAccount, id: u16) -> bool {
    &&& a.spec_id() == id
    &&& a.spec_log().len() == 0
    &&& a.spec_disputes().len() == 0
    &&& a.spec_available() == 0
    &&& a.spec_held() == 0
    &&& !a.spec_locked()
}

/// A transaction's computed effect: balance deltas in units, an optional
/// lock transition and an optional dispute-list transition, not yet applied.
#[derive(Debug, Default, PartialEq, Eq)]
pub struct TxDiff {
    pub available: i128,
    pub held: i128,
    /// Present when the account must be locked.
    pub lock: Option<bool>,
    /// Present when a dispute starts or ends.
    pub dispute: Option<DisputeAction>,
}

#[derive(Clone, Copy, Debug, PartialEq, Eq)]
pub enum DisputeAction {
    Start(TransactionId),
    End(TransactionId),
}

/// The diff that changes nothing: ignored dispute-family transactions
/// produce it.
pub open spec fn spec_zero_diff() -> TxDiff {
    TxDiff { available: 0, held: 0, lock: None, dispute: None }
}

/// A deposit's effect: the available balance grows by the amount.
pub open spec fn spec_deposit_diff(units: u64) -> TxDiff {
    TxDiff { available: units as i128, held: 0, lock: None, dispute: None }
}

/// A withdrawal's effect: the available balance shrinks by the amount.
pub open spec fn spec_withdraw_diff(units: u64) -> TxDiff {
    TxDiff { available: (-(units as int)) as i128, held: 0, lock: None, dispute: None }
}

/// A dispute's effect: the amount moves from available to held and the
/// identifier enters the active-dispute list.
pub open spec fn spec_dispute_diff(id: TransactionId, units: u64) -> TxDiff {
    TxDiff {
        available: (-(units as int)) as i128,
        held: units as i128,
        lock: None,
        dispute: Some(DisputeAction::Start(id)),
    }
}

/// A resolve's effect: the held amount returns to available and the
/// identifier leaves the active-dispute list.
pub open spec fn spec_resolve_diff(id: TransactionId, units: u64) -> TxDiff {
    TxDiff {
        available: units as i128,
        held: (-(units as int)) as i128,
        lock: None,
        dispute: Some(DisputeAction::End(id)),
    }
}

/// A chargeback's effect: the held amount is burnt, the account locks, and
/// the identifier leaves the active-dispute list.
pub open spec fn spec_chargeback_diff(id: TransactionId, units: u64) -> TxDiff {
    TxDiff {
        available: 0,
        held: (-(units as int)) as i128,
        lock: Some(true),
        dispute: Some(DisputeAction::End(id)),
    }
}

/// The effect engine's full rule set: what [`TxDiff::calculate`] returns for
/// every account state and transaction.
///
/// Deposits always succeed; withdrawals need a sufficient available balance;
/// a dispute needs a logged, not-yet-disputed deposit; a resolve or
/// chargeback needs a logged deposit under active dispute. A dispute-family
/// transaction whose conditions fail is silently ignored: its diff is the
/// zero diff.
pub open spec fn calc_spec(c: ClientAccount, tx: Transaction) -> Result<TxDiff, TransactionError> {
    match tx.ty {
        TransactionType::Deposit { amount } => Ok(spec_deposit_diff(amount@)),
        TransactionType::Withdrawal { amount } => if c.spec_available() >= amount@ as int {
            Ok(spec_withdraw_diff(amount@))
        } else {
            Err(TransactionError::NotEnoughBalance)
        },
        TransactionType::Dispute => if logged_deposit(c.spec_log(), tx.id@) && !id_disputed(
            c.spec_disputes(),
            tx.id@,
        ) {
            Ok(spec_dispute_diff(tx.id, units_at(c.spec_log(), tx.id@)))
        } else {
            Ok(spec_zero_diff())
        },
        TransactionType::Resolve => if logged_deposit(c.spec_log(), tx.id@) && id_disputed(
            c.spec_disputes(),
            tx.id@,
        ) {
            Ok(spec_resolve_diff(tx.id, units_at(c.spec_log(), tx.id@)))
        } else {
            Ok(spec_zero_diff())
        },
        TransactionType::Chargeback => if logged_deposit(c.spec_log(), tx.id@) && id_disputed(
            c.spec_disputes(),
            tx.id@,
        ) {
            Ok(spec_chargeback_diff(tx.id, units_at(c.spec_log(), tx.id@)))
        } else {
            Ok(spec_zero_diff())
        },
    }
}

/// The two accounts agree on every observable field.
pub open spec fn unchanged(pre: ClientAccount, post: ClientAccount) -> bool {
    &&& post.spec_id() == pre.spec_id()
    &&& post.spec_log() == pre.spec_log()
    &&& post.spec_disputes() == pre.spec_disputes()
    &&& post.spec_available() == pre.spec_available()
    &&& post.spec_held() == pre.spec_held()
    &&& post.spec_locked() == pre.spec_locked()
}

/// The balances move by exactly the diff's deltas.
pub open spec fn balances_shift(pre: ClientAccount, post: ClientAccount, diff: TxDiff) -> bool {
    &&& post.spec_available() == pre.spec_available() + diff.available
    &&& post.spec_held() == pre.spec_held() + diff.held
}

/// The lock flag follows the diff's lock transition, if any.
pub open spec fn lock_step(pre: ClientAccount, post: ClientAccount, diff: TxDiff) -> bool {
    post.spec_locked() == match diff.lock {
        Some(lock) => lock,
        None => pre.spec_locked(),
    }
}

/// The full contract of one application step: how `post` and the result
/// relate to `pre` and the transaction.
///
/// A locked account rejects everything. Otherwise the effect engine decides:
/// its error is propagated with nothing applied; a deposit or withdrawal is
/// rejected whole if its identifier is already logged, else its diff is
/// applied and the transaction logged; a dispute-family transaction applies
/// its diff and moves the identifier in or out of the active-dispute list,
/// and is never logged.
pub open spec fn apply_rel(
    pre: ClientAccount,
    post: ClientAccount,
    tx: Transaction,
    r: Result<(), TransactionError>,
) -> bool {
    if pre.spec_locked() {
        r == Err::<(), TransactionError>(TransactionError::LockedAccount) && unchanged(pre, post)
    } else {
        match calc_spec(pre, tx) {
            Err(e) => r == Err::<(), TransactionError>(e) && unchanged(pre, post),
            Ok(diff) => if is_logging_tx(tx) {
                if has_tx(pre.spec_log(), tx.id@) {
                    r == Err::<(), TransactionError>(TransactionError::DuplicateTransactionId)
                        && unchanged(pre, post)
                } else {
                    &&& r == Ok::<(), TransactionError>(())
                    &&& post.spec_id() == pre.spec_id()
                    &&& post.spec_log() == pre.spec_log().push(tx)
                    &&& post.spec_disputes() == pre.spec_disputes()
                    &&& balances_shift(pre, post, diff)
                    &&& lock_step(pre, post, diff)
                }
            } else {
                &&& r == Ok::<(), TransactionError>(())
                &&& post.spec_id() == pre.spec_id()
                &&& post.spec_log() == pre.spec_log()
                &&& balances_shift(pre, post, diff)
                &&& lock_step(pre, post, diff)
                &&& match diff.dispute {
                    None => post.spec_disputes() == pre.spec_disputes(),
                    Some(DisputeAction::Start(id)) => post.spec_disputes() == pre.spec_disputes()
                        .push(id),
                    Some(DisputeAction::End(id)) => id_disputed(pre.spec_disputes(), id@)
                        && post.spec_disputes() == pre.spec_disputes().remove(
                        disputed_at(pre.spec_disputes(), id@),
                    ),
                }
            },
        }
    }
}

impl TxDiff {
    /// Increases available balance.
    pub fn deposit(amount: Amount) -> (r: TxDiff)
        ensures
            r == spec_deposit_diff(amount@),
    {
        TxDiff { available: amount.units() as i128, held: 0, lock: None, dispute: None }
    }

    /// Decreases available balance.
    pub fn withdraw(amount: Amount) -> (r: TxDiff)
        ensures
            r == spec_withdraw_diff(amount@),
    {
        TxDiff { available: -(amount.units() as i128), held: 0, lock: None, dispute: None }
    }

    /// Holds the disputed amount, decreasing available balance.
    pub fn dispute(tx: TransactionId, amount: Amount) -> (r: TxDiff)
        ensures
            r == spec_dispute_diff(tx, amount@),
    {
        TxDiff {
            available: -(amount.units() as i128),
            held: amount.units() as i128,
            lock: None,
            dispute: Some(DisputeAction::Start(tx)),
        }
    }

    /// Frees a previously held amount, increasing available balance.
    pub fn resolve(tx: TransactionId, amount: Amount) -> (r: TxDiff)
        ensures
            r == spec_resolve_diff(tx, amount@),
    {
        TxDiff {
            available: amount.units() as i128,
            held: -(amount.units() as i128),
            lock: None,
            dispute: Some(DisputeAction::End(tx)),
        }
    }

    /// Burns a previously held amount, locking the account.
    pub fn chargeback(tx: TransactionId, amount: Amount) -> (r: TxDiff)
        ensures
            r == spec_chargeback_diff(tx, amount@),
    {
        TxDiff {
            available: 0,
            held: -(amount.units() as i128),
            lock: Some(true),
            dispute: Some(DisputeAction::End(tx)),
        }
    }

    fn ignored() -> (r: TxDiff)
        ensures
            r == spec_zero_diff(),
    {
        TxDiff { available: 0, held: 0, lock: None, dispute: None }
    }

    /// Given a transaction and the client account it addresses, calculate
    /// the state difference applying it would cause, without mutating
    /// anything. This function owns all transaction behaviors and rules.
    pub fn calculate(client: &ClientAccount, tx: &Transaction) -> (r: Result<
        TxDiff,
        TransactionError,
    >)
        requires
            client.wf(),
        ensures
            r == calc_spec(*client, *tx),
    {
        match tx.ty {
            TransactionType::Deposit { amount } => Ok(TxDiff::deposit(amount)),
            TransactionType::Withdrawal { amount } => {
                if !client.has_balance(amount) {
                    Err(TransactionError::NotEnoughBalance)
                } else {
                    Ok(TxDiff::withdraw(amount))
                }
            },
            TransactionType::Dispute => {
                match client.log_lookup(&tx.id) {
                    Some(target) => match target.deposit_amount() {
                        Some(amount) => if !client.in_dispute(&tx.id) {
                            Ok(TxDiff::dispute(tx.id, amount))
                        } else {
                            Ok(TxDiff::ignored())
                        },
                        None => Ok(TxDiff::ignored()),
                    },
                    None => Ok(TxDiff::ignored()),
                }
            },
            TransactionType::Resolve => {
                match client.log_lookup(&tx.id) {
                    Some(target) => match target.deposit_amount() {
                        Some(amount) => if client.in_dispute(&tx.id) {
                            Ok(TxDiff::resolve(tx.id, amount))
                        } else {
                            Ok(TxDiff::ignored())
                        },
                        None => Ok(TxDiff::ignored()),
                    },
                    None => Ok(TxDiff::ignored()),
                }
            },
            TransactionType::Chargeback => {
                match client.log_lookup(&tx.id) {
                    Some(target) => match target.deposit_amount() {
                        Some(amount) => if client.in_dispute(&tx.id) {
                            Ok(TxDiff::chargeback(tx.id, amount))
                        } else {
                            Ok(TxDiff::ignored())
                        },
                        None => Ok(TxDiff::ignored()),
                    },
                    None => Ok(TxDiff::ignored()),
                }
            },
        }
    }
}

impl ClientAccount {
    pub fn new(id: ClientId) -> (r: Self)
        ensures
            r.wf(),
            is_empty_account(r, id@),
    {
        ClientAccount {
            id,
            log: Vec::new(),
            disputes: Vec::new(),
            available: 0,
            held: 0,
            locked: false,
        }
    }

    /// The first log entry with the given identifier, if any.
    fn log_lookup(&self, id: &TransactionId) -> (r: Option<Transaction>)
        requires
            log_wf(self.spec_log()),
        ensures
            match r {
                Some(t) => has_tx(self.spec_log(), id@) && t == tx_at(self.spec_log(), id@),
                None => !has_tx(self.spec_log(), id@),
            },
    {
        let n = self.log.len();
        let mut i: usize = 0;
        while i < n
            invariant
                log_wf(self.spec_log()),
                n == self.spec_log().len(),
                0 <= i <= n,
                forall|j: int| 0 <= j < i ==> (#[trigger] self.spec_log()[j].id@) != id@,
            decreases n - i,
        {
            if self.log[i].id.eq_id(id) {
                proof {
                    assert(has_tx(self.spec_log(), id@));
                    let k = idx_of(self.spec_log(), id@);
                    assert(0 <= k < self.spec_log().len() && self.spec_log()[k].id@ == id@);
                    if k < i as int {
                        assert(false);
                    } else if k > i as int {
                        assert(self.spec_log()[i as int].id@ != self.spec_log()[k].id@);
                        assert(false);
                    }
                }
                return Some(self.log[i]);
            }
            i += 1;
        }
        None
    }

    /// Whether the identifier is under active dispute.
    fn in_dispute(&self, tx: &TransactionId) -> (r: bool)
        ensures
            r == id_disputed(self.spec_disputes(), tx@),
    {
        let n = self.disputes.len();
        let mut i: usize = 0;
        while i < n
            invariant
                n == self.spec_disputes().len(),
                0 <= i <= n,
                forall|j: int| 0 <= j < i ==> (#[trigger] self.spec_disputes()[j]@) != tx@,
            decreases n - i,
        {
            if self.disputes[i].eq_id(tx) {
                return true;
            }
            i += 1;
        }
        false
    }

    /// Whether the available balance covers the amount.
    fn has_balance(&self, amount: Amount) -> (r: bool)
        ensures
            r == (self.spec_available() >= amount@ as int),
    {
        self.available >= amount.units() as i128
    }

    /// The position of an actively disputed identifier in the dispute list.
    fn dispute_index(&self, id: &TransactionId) -> (r: usize)
        requires
            ds_nodup(self.spec_disputes()),
            id_disputed(self.spec_disputes(), id@),
        ensures
            0 <= r < self.spec_disputes().len(),
            self.spec_disputes()[r as int]@ == id@,
            r as int == disputed_at(self.spec_disputes(), id@),
    {
        let n = self.disputes.len();
        let mut i: usize = 0;
        while i < n
            invariant
                ds_nodup(self.spec_disputes()),
                id_disputed(self.spec_disputes(), id@),
                n == self.spec_disputes().len(),
                0 <= i <= n,
                forall|j: int| 0 <= j < i ==> (#[trigger] self.spec_disputes()[j]@) != id@,
            decreases n - i,
        {
            if self.disputes[i].eq_id(id) {
                proof {
                    let k = disputed_at(self.spec_disputes(), id@);
                    assert(0 <= k < self.spec_disputes().len() && self.spec_disputes()[k]@ == id@);
                    lemma_ds_unique(self.spec_disputes(), i as int, k);
                }
                return i;
            }
            i += 1;
        }
        proof {
            let k = disputed_at(self.spec_disputes(), id@);
            assert(0 <= k < self.spec_disputes().len() && self.spec_disputes()[k]@ == id@);
        }
        unreached()
    }

    /// Appends a new transaction to the account's log and calculates the new
    /// account state. This is the only function that alters the log, the
    /// dispute list, the balances or the lock flag: the diff from
    /// [`TxDiff::calculate`] is applied whole, or the transaction is rejected
    /// and nothing changes.
    pub fn append_tx(&mut self, tx: Transaction) -> (r: Result<(), TransactionError>)
        requires
            old(self).wf(),
            tx_wf(tx),
        ensures
            final(self).wf(),
            apply_rel(*old(self), *final(self), tx, r),
    {
        if self.locked {
            return Err(TransactionError::LockedAccount);
        }
        let diff = match TxDiff::calculate(&*self, &tx) {
            Ok(diff) => diff,
            Err(e) => {
                return Err(e);
            },
        };
        proof {
            lemma_balance_bounds(*self);
        }
        match tx.ty {
            TransactionType::Deposit { .. } | TransactionType::Withdrawal { .. } => {
                if self.log_lookup(&tx.id).is_some() {
                    return Err(TransactionError::DuplicateTransactionId);
                }
                self.available = self.available + diff.available;
                self.held = self.held + diff.held;
                self.log.push(tx);
                proof {
                    let pre = *old(self);
                    lemma_log_wf_push(pre.spec_log(), tx);
                    lemma_sums_push(pre.spec_log(), tx);
                    lemma_disputed_sum_push_log(pre.spec_log(), pre.spec_disputes(), tx);
                }
                Ok(())
            },
            _ => {
                proof {
                    if logged_deposit(old(self).spec_log(), tx.id@) {
                        let i = idx_of(old(self).spec_log(), tx.id@);
                        assert(0 <= i < old(self).spec_log().len() && old(self).spec_log()[i].id@
                            == tx.id@);
                        assert(tx_wf(old(self).spec_log()[i]));
                    }
                }
                match diff.dispute {
                    None => Ok(()),
                    Some(DisputeAction::Start(id)) => {
                        self.available = self.available + diff.available;
                        self.held = self.held + diff.held;
                        self.disputes.push(id);
                        proof {
                            let pre = *old(self);
                            lemma_disputes_wf_push(pre.spec_log(), pre.spec_disputes(), id);
                            lemma_disputed_sum_push_dispute(pre.spec_log(), pre.spec_disputes(), id);
                        }
                        Ok(())
                    },
                    Some(DisputeAction::End(id)) => {
                        let k = self.dispute_index(&id);
                        self.available = self.available + diff.available;
                        self.held = self.held + diff.held;
                        if let Some(lock) = diff.lock {
                            self.locked = lock;
                        }
                        self.disputes.remove(k);
                        proof {
                            let pre = *old(self);
                            lemma_disputed_sum_remove(pre.spec_log(), pre.spec_disputes(), k as int);
                            let i = idx_of(pre.spec_log(), tx.id@);
                            lemma_dep_sum_nonneg(pre.spec_log());
                            lemma_deposit_entry_le_sum(pre.spec_log(), i);
                        }
                        Ok(())
                    },
                }
            },
        }
    }

    pub fn id(&self) -> (r: ClientId)
        ensures
            r@ == self.spec_id(),
    {
        self.id
    }

    pub fn available(&self) -> (r: i128)
        ensures
            r == self.spec_available(),
    {
        self.available
    }

    pub fn held(&self) -> (r: i128)
        ensures
            r == self.spec_held(),
    {
        self.held
    }

    pub fn locked(&self) -> (r: bool)
        ensures
            r == self.spec_locked(),
    {
        self.locked
    }

    /// The total funds the client owns, a sum of `available` and `held`.
    /// Always computed on read, never stored.
    pub fn total(&self) -> (r: i128)
        requires
            self.wf(),
        ensures
            r == self.spec_total(),
            r == self.spec_available() + self.spec_held(),
    {
        proof {
            lemma_balance_bounds(*self);
        }
        self.available + self.held
    }

    /// How many transactions the log holds.
    pub fn log_len(&self) -> (r: usize)
        ensures
            r == self.spec_log().len(),
    {
        self.log.len()
    }

    /// The identifiers currently under active dispute, in the order the
    /// disputes were opened.
    pub fn disputed_ids(&self) -> (r: Vec<TransactionId>)
        ensures
            r@ == self.spec_disputes(),
    {
        let n = self.disputes.len();
        let mut out: Vec<TransactionId> = Vec::new();
        let mut i: usize = 0;
        while i < n
            invariant
                n == self.spec_disputes().len(),
                0 <= i <= n,
                out@ == self.spec_disputes().take(i as int),
            decreases n - i,
        {
            out.push(self.disputes[i]);
            proof {
                assert(out@ =~= self.spec_disputes().take(i + 1 as int));
            }
            i += 1;
        }
        proof {
            assert(out@ =~= self.spec_disputes());
        }
        out
    }
}

/// Two log positions with the same identifier are the same position.
pub proof fn lemma_log_unique(log: Seq<Transaction>, i: int, j: int)
    requires
        log_wf(log),
        0 <= i < log.len(),
        0 <= j < log.len(),
        log[i].id@ == log[j].id@,
    ensures
        i == j,
{
    if i < j {
        assert(log[i].id@ != log[j].id@);
    }
    if j < i {
        assert(log[j].id@ != log[i].id@);
    }
}

/// Two dispute-list positions with the same identifier are the same position.
proof fn lemma_ds_unique(ds: Seq<TransactionId>, k: int, l: int)
    requires
        ds_nodup(ds),
        0 <= k < ds.len(),
        0 <= l < ds.len(),
        ds[k]@ == ds[l]@,
    ensures
        k == l,
{
    if k < l {
        assert(ds[k]@ != ds[l]@);
    }
    if l < k {
        assert(ds[l]@ != ds[k]@);
    }
}

/// The deposit and withdrawal sums are non-negative.
proof fn lemma_dep_sum_nonneg(log: Seq<Transaction>)
    ensures
        0 <= dep_sum(log),
        0 <= wd_sum(log),
    decreases log.len(),
{
    if log.len() > 0 {
        lemma_dep_sum_nonneg(log.drop_last());
    }
}

/// With every logged amount within the cap, the deposit and withdrawal sums
/// together stay below the log length times the cap.
proof fn lemma_log_sums_bounds(log: Seq<Transaction>)
    requires
        log_wf(log),
    ensures
        0 <= dep_sum(log),
        0 <= wd_sum(log),
        dep_sum(log) + wd_sum(log) <= log.len() * 0x3fff_ffff_ffff_ffff,
    decreases log.len(),
{
    if log.len() > 0 {
        assert forall|i: int, j: int| 0 <= i < j < log.drop_last().len() implies (
        #[trigger] log.drop_last()[i].id@) != (#[trigger] log.drop_last()[j].id@) by {
            assert(log.drop_last()[i] == log[i]);
            assert(log.drop_last()[j] == log[j]);
        }
        assert forall|i: int| 0 <= i < log.drop_last().len() implies is_logging_tx(
            #[trigger] log.drop_last()[i],
        ) && tx_wf(log.drop_last()[i]) by {
            assert(log.drop_last()[i] == log[i]);
        }
        lemma_log_sums_bounds(log.drop_last());
        assert(tx_wf(log[log.len() - 1]));
        assert(log.last() == log[log.len() - 1]);
    }
}

/// One logged deposit's amount never exceeds the deposit sum.
proof fn lemma_deposit_entry_le_sum(log: Seq<Transaction>, i: int)
    requires
        0 <= i < log.len(),
    ensures
        deposit_units(log[i]) <= dep_sum(log),
    decreases log.len(),
{
    lemma_dep_sum_nonneg(log.drop_last());
    if i == log.len() - 1 {
        assert(log.last() == log[i]);
    } else {
        lemma_deposit_entry_le_sum(log.drop_last(), i);
        assert(log.drop_last()[i] == log[i]);
        assert(deposit_units(log.last()) >= 0);
    }
}

/// The disputed sum is non-negative and bounded by the dispute count times
/// the amount cap.
proof fn lemma_disputed_sum_bounds(log: Seq<Transaction>, ds: Seq<TransactionId>)
    requires
        log_wf(log),
        disputes_wf(log, ds),
    ensures
        0 <= disputed_sum(log, ds),
        disputed_sum(log, ds) <= ds.len() * 0x3fff_ffff_ffff_ffff,
    decreases ds.len(),
{
    if ds.len() > 0 {
        lemma_disputes_wf_drop_last(log, ds);
        lemma_disputed_sum_bounds(log, ds.drop_last());
        let id = ds.last()@;
        assert(ds[ds.len() - 1]@ == id);
        assert(logged_deposit(log, id));
        let i = idx_of(log, id);
        assert(0 <= i < log.len() && log[i].id@ == id);
        assert(tx_wf(log[i]));
        assert(tx_at(log, id) == log[i]);
    }
}

/// Dropping the last dispute keeps the dispute list well formed.
proof fn lemma_disputes_wf_drop_last(log: Seq<Transaction>, ds: Seq<TransactionId>)
    requires
        disputes_wf(log, ds),
        ds.len() > 0,
    ensures
        disputes_wf(log, ds.drop_last()),
{
    assert forall|k: int, l: int| 0 <= k < l < ds.drop_last().len() implies (
    #[trigger] ds.drop_last()[k]@) != (#[trigger] ds.drop_last()[l]@) by {
        assert(ds.drop_last()[k] == ds[k]);
        assert(ds.drop_last()[l] == ds[l]);
    }
    assert forall|k: int| 0 <= k < ds.drop_last().len() implies logged_deposit(
        log,
        #[trigger] ds.drop_last()[k]@,
    ) by {
        assert(ds.drop_last()[k] == ds[k]);
        assert(logged_deposit(log, ds[k]@));
    }
}

/// Pushing a fresh entry onto the log leaves every older lookup unchanged.
proof fn lemma_tx_at_push(log: Seq<Transaction>, t: Transaction, id: u32)
    requires
        log_wf(log),
        has_tx(log, id),
        id != t.id@,
    ensures
        has_tx(log.push(t), id),
        tx_at(log.push(t), id) == tx_at(log, id),
{
    let i = idx_of(log, id);
    assert(0 <= i < log.len() && log[i].id@ == id);
    assert(log.push(t)[i] == log[i]);
    assert(has_tx(log.push(t), id));
    let j = idx_of(log.push(t), id);
    assert(0 <= j < log.push(t).len() && log.push(t)[j].id@ == id);
    if j == log.len() as int {
        assert(log.push(t)[j] == t);
        assert(false);
    }
    assert(log.push(t)[j] == log[j]);
    lemma_log_unique(log, i, j);
}

/// A well-formed log stays well formed when a fresh deposit or withdrawal is
/// appended.
proof fn lemma_log_wf_push(log: Seq<Transaction>, t: Transaction)
    requires
        log_wf(log),
        is_logging_tx(t),
        tx_wf(t),
        !has_tx(log, t.id@),
    ensures
        log_wf(log.push(t)),
{
    let l2 = log.push(t);
    assert forall|i: int| 0 <= i < l2.len() implies is_logging_tx(#[trigger] l2[i]) && tx_wf(
        l2[i],
    ) by {
        if i < log.len() {
            assert(l2[i] == log[i]);
        } else {
            assert(l2[i] == t);
        }
    }
    assert forall|i: int, j: int| 0 <= i < j < l2.len() implies (#[trigger] l2[i].id@) != (
    #[trigger] l2[j].id@) by {
        if j < log.len() {
            assert(l2[i] == log[i]);
            assert(l2[j] == log[j]);
        } else {
            assert(l2[j] == t);
            assert(l2[i] == log[i]);
            if log[i].id@ == t.id@ {
                assert(has_tx(log, t.id@));
            }
        }
    }
}

/// Appending one entry adds exactly its contribution to each sum.
proof fn lemma_sums_push(log: Seq<Transaction>, t: Transaction)
    ensures
        dep_sum(log.push(t)) == dep_sum(log) + deposit_units(t),
        wd_sum(log.push(t)) == wd_sum(log) + withdrawal_units(t),
{
    assert(log.push(t).drop_last() =~= log);
    assert(log.push(t).last() == t);
}

/// Appending a fresh entry to the log does not move the disputed sum, and
/// the dispute list stays well formed against the longer log.
proof fn lemma_disputed_sum_push_log(log: Seq<Transaction>, ds: Seq<TransactionId>, t: Transaction)
    requires
        log_wf(log),
        disputes_wf(log, ds),
        !has_tx(log, t.id@),
    ensures
        disputed_sum(log.push(t), ds) == disputed_sum(log, ds),
        disputes_wf(log.push(t), ds),
    decreases ds.len(),
{
    assert forall|k: int| 0 <= k < ds.len() implies logged_deposit(log.push(t), #[trigger] ds[k]@)
        && tx_at(log.push(t), ds[k]@) == tx_at(log, ds[k]@) by {
        assert(logged_deposit(log, ds[k]@));
        if ds[k]@ == t.id@ {
            assert(has_tx(log, t.id@));
        }
        lemma_tx_at_push(log, t, ds[k]@);
    }
    if ds.len() > 0 {
        lemma_disputes_wf_drop_last(log, ds);
        lemma_disputed_sum_push_log(log, ds.drop_last(), t);
        assert(ds[ds.len() - 1]@ == ds.last()@);
        assert(tx_at(log.push(t), ds.last()@) == tx_at(log, ds.last()@));
    }
}

/// Opening a dispute adds exactly the referenced deposit to the disputed sum.
proof fn lemma_disputed_sum_push_dispute(
    log: Seq<Transaction>,
    ds: Seq<TransactionId>,
    d: TransactionId,
)
    ensures
        disputed_sum(log, ds.push(d)) == disputed_sum(log, ds) + deposit_units(tx_at(log, d@)),
{
    assert(ds.push(d).drop_last() =~= ds);
    assert(ds.push(d).last() == d);
}

/// Opening a dispute on a logged, not-yet-disputed deposit keeps the dispute
/// list well formed.
proof fn lemma_disputes_wf_push(log: Seq<Transaction>, ds: Seq<TransactionId>, d: TransactionId)
    requires
        disputes_wf(log, ds),
        logged_deposit(log, d@),
        !id_disputed(ds, d@),
    ensures
        disputes_wf(log, ds.push(d)),
{
    let ds2 = ds.push(d);
    assert forall|k: int, l: int| 0 <= k < l < ds2.len() implies (#[trigger] ds2[k]@) != (
    #[trigger] ds2[l]@) by {
        if l < ds.len() {
            assert(ds2[k] == ds[k]);
            assert(ds2[l] == ds[l]);
        } else {
            assert(ds2[l] == d);
            assert(ds2[k] == ds[k]);
            if ds[k]@ == d@ {
                assert(id_disputed(ds, d@));
            }
        }
    }
    assert forall|k: int| 0 <= k < ds2.len() implies logged_deposit(log, #[trigger] ds2[k]@) by {
        if k < ds.len() {
            assert(ds2[k] == ds[k]);
            assert(logged_deposit(log, ds[k]@));
        } else {
            assert(ds2[k] == d);
        }
    }
}

/// Closing a dispute removes exactly the referenced deposit from the
/// disputed sum, and the shorter dispute list stays well formed.
proof fn lemma_disputed_sum_remove(log: Seq<Transaction>, ds: Seq<TransactionId>, k: int)
    requires
        log_wf(log),
        disputes_wf(log, ds),
        0 <= k < ds.len(),
    ensures
        disputed_sum(log, ds.remove(k)) == disputed_sum(log, ds) - deposit_units(
            tx_at(log, ds[k]@),
        ),
        disputes_wf(log, ds.remove(k)),
    decreases ds.len(),
{
    let ds2 = ds.remove(k);
    ds.remove_ensures(k);
    assert forall|a: int, b: int| 0 <= a < b < ds2.len() implies (#[trigger] ds2[a]@) != (
    #[trigger] ds2[b]@) by {
        let a0: int = if a < k {
            a
        } else {
            a + 1
        };
        let b0: int = if b < k {
            b
        } else {
            b + 1
        };
        assert(ds2[a] == ds[a0]);
        assert(ds2[b] == ds[b0]);
    }
    assert forall|a: int| 0 <= a < ds2.len() implies logged_deposit(log, #[trigger] ds2[a]@) by {
        let a0: int = if a < k {
            a
        } else {
            a + 1
        };
        assert(ds2[a] == ds[a0]);
        assert(logged_deposit(log, ds[a0]@));
    }
    if k == ds.len() - 1 {
        assert(ds.remove(k) =~= ds.drop_last());
    } else {
        lemma_disputes_wf_drop_last(log, ds);
        lemma_disputed_sum_remove(log, ds.drop_last(), k);
        assert(ds.drop_last()[k] == ds[k]);
        assert(ds.remove(k).drop_last() =~= ds.drop_last().remove(k));
        assert(ds.remove(k).last() == ds[ds.len() - 1]);
        assert(ds.last() == ds[ds.len() - 1]);
    }
}

/// Numeric consequences of the account invariant: the held balance and the
/// two log sums are non-negative and bounded, and the balances follow the
/// sums exactly (until the account locks) or within the chargeback slack
/// (after).
proof fn lemma_balance_bounds(c: ClientAccount)
    requires
        c.wf(),
    ensures
        0 <= c.spec_held(),
        c.spec_held() <= c.spec_disputes().len() * 0x3fff_ffff_ffff_ffff,
        0 <= dep_sum(c.spec_log()),
        0 <= wd_sum(c.spec_log()),
        dep_sum(c.spec_log()) + wd_sum(c.spec_log()) <= c.spec_log().len()
            * 0x3fff_ffff_ffff_ffff,
        c.spec_log().len() <= 0xffff_ffff_ffff_ffff,
        c.spec_disputes().len() <= 0xffff_ffff_ffff_ffff,
{
    lemma_log_sums_bounds(c.spec_log());
    lemma_disputed_sum_bounds(c.spec_log(), c.spec_disputes());
    assert(c.spec_log().len() == vstd::std_specs::vec::spec_vec_len(&c.log));
    assert(c.spec_disputes().len() == vstd::std_specs::vec::spec_vec_len(&c.disputes));
}

} // verus!
