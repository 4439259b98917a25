//! Transaction data types: opaque client and transaction identifiers, the
//! fixed-point amount type, and the transaction record itself.
//!
//! Identifiers wrap raw integers in distinct single-field types so that a
//! client identifier can never be confused with a transaction identifier and
//! neither admits accidental arithmetic. Amounts are non-negative fixed-point
//! values held as an integer count of minor units.

use vstd::prelude::*;

verus! {

/// The largest unit count an amount may carry. Keeping every amount within
/// 62 bits lets balances (held as `i128`) absorb any number of transactions
/// a `Vec`-backed log can hold without overflow.
pub const MAX_AMOUNT_UNITS: u64 = 0x3fff_ffff_ffff_ffff;

/// An opaque client identifier: construction and equality only.
#[derive(Clone, Copy, Debug, PartialEq, Eq, Hash)]
pub struct ClientId {
    id: u16,
}

impl View for ClientId {
    type V = u16;

    closed spec fn view(&self) -> u16 {
        self.id
    }
}

impl ClientId {
    pub fn new(id: u16) -> (r: Self)
        ensures
            r@ == id,
    {
        ClientId { id }
    }

    /// Equality test, stated over the identifiers' views.
    pub fn eq_id(&self, other: &ClientId) -> (r: bool)
        ensures
            r == (self@ == other@),
    {
        self.id == other.id
    }

    /// The raw identifier, for rendering only.
    pub fn value(&self) -> (r: u16)
        ensures
            r == self@,
    {
        self.id
    }
}

/// An opaque transaction identifier: construction and equality only.
///
/// A dispute, resolve or chargeback reuses the identifier of a prior
/// deposit or withdrawal to reference it; only deposits and withdrawals
/// mint identifiers into an account's log.
#[derive(Clone, Copy, Debug, PartialEq, Eq, Hash)]
pub struct TransactionId {
    id: u32,
}

impl View for TransactionId {
    type V = u32;

    closed spec fn view(&self) -> u32 {
        self.id
    }
}

impl TransactionId {
    pub fn new(id: u32) -> (r: Self)
        ensures
            r@ == id,
    {
        TransactionId { id }
    }

    /// Equality test, stated over the identifiers' views.
    pub fn eq_id(&self, other: &TransactionId) -> (r: bool)
        ensures
            r == (self@ == other@),
    {
        self.id == other.id
    }

    /// The raw identifier, for rendering only.
    pub fn value(&self) -> (r: u32)
        ensures
            r == self@,
    {
        self.id
    }
}

/// A non-negative fixed-point monetary value, held as a count of minor
/// units. The interpretation of one unit (the decimal scale) is fixed by
/// the caller that parses and prints amounts; the engine only adds and
/// compares them.
#[derive(Clone, Copy, Debug, PartialEq, Eq, Hash)]
pub struct Amount {
    units: u64,
}

impl View for Amount {
    type V = u64;

    closed spec fn view(&self) -> u64 {
        self.units
    }
}

impl Amount {
    pub fn new(units: u64) -> (r: Self)
        ensures
            r@ == units,
    {
        Amount { units }
    }

    /// The raw unit count.
    pub fn units(&self) -> (r: u64)
        ensures
            r == self@,
    {
        self.units
    }
}

/// A transaction type, with the amount for the two variants that move
/// fresh funds.
#[derive(Clone, Copy, Debug, PartialEq, Eq)]
pub enum TransactionType {
    Deposit { amount: Amount },
    Withdrawal { amount: Amount },
    /// Starts a dispute of a prior deposit; the transaction's identifier
    /// references that deposit.
    Dispute,
    /// Resolves a dispute, freeing the held balance; the identifier
    /// references the disputed deposit.
    Resolve,
    /// Charges back a dispute, burning the held balance and locking the
    /// account; the identifier references the disputed deposit.
    Chargeback,
}

/// One transaction of the input stream.
#[derive(Clone, Copy, Debug, PartialEq, Eq)]
pub struct Transaction {
    pub ty: TransactionType,
    pub client_id: ClientId,
    /// The transaction's identifier. For a dispute, resolve or chargeback
    /// this field references a previous deposit instead of minting a new
    /// identifier.
    pub id: TransactionId,
}

/// The amount carried by a deposit, `None` for every other variant.
pub open spec fn spec_deposit_amount(tx: Transaction) -> Option<Amount> {
    match tx.ty {
        TransactionType::Deposit { amount } => Some(amount),
        _ => None,
    }
}

/// A transaction's amount, if any, stays within the unit cap, so that
/// balance arithmetic cannot overflow.
pub open spec fn tx_wf(tx: Transaction) -> bool {
    match tx.ty {
        TransactionType::Deposit { amount } => amount@ <= MAX_AMOUNT_UNITS,
        TransactionType::Withdrawal { amount } => amount@ <= MAX_AMOUNT_UNITS,
        _ => true,
    }
}

impl Transaction {
    /// The amount associated with this deposit transaction.
    pub fn deposit_amount(&self) -> (r: Option<Amount>)
        ensures
            r == spec_deposit_amount(*self),
    {
        match self.ty {
            TransactionType::Deposit { amount } => Some(amount),
            _ => None,
        }
    }
}

} // verus!
