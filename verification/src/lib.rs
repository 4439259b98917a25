//! A ledger-replay engine: replays an ordered stream of financial
//! transactions (deposits, withdrawals, disputes, resolutions, chargebacks)
//! and reconstructs the resulting available/held/locked state of every
//! client account.

use vstd::prelude::*;

mod client;
mod laws;
mod transaction;

pub use client::{ClientAccount, DisputeAction, TransactionError, TxDiff};
pub use transaction::{Amount, ClientId, Transaction, TransactionId, TransactionType};
pub use transaction::MAX_AMOUNT_UNITS;

use crate::client::{apply_rel, is_empty_account};
use crate::transaction::tx_wf;

verus! {

/// A collection of client accounts, in first-seen order.
///
/// The dispatcher: it routes each transaction to the account its client
/// identifier addresses, creating the account on first sight, and reports
/// per-transaction failures to the caller without aborting the batch.
pub struct ClientBook {
    clients: Vec<ClientAccount>,
}

impl ClientBook {
    pub closed spec fn spec_clients(self) -> Seq<ClientAccount> {
        self.clients@
    }

    /// Every account is well formed and no two accounts share a client
    /// identifier.
    pub open spec fn wf(self) -> bool {
        &&& forall|i: int|
            0 <= i < self.spec_clients().len() ==> (#[trigger] self.spec_clients()[i]).wf()
        &&& forall|i: int, j: int|
            0 <= i < j < self.spec_clients().len() ==> (#[trigger] self.spec_clients()[
                i
            ].spec_id()) != (#[trigger] self.spec_clients()[j].spec_id())
    }

    /// The book holds an account for this client identifier.
    pub open spec fn book_has(self, cid: u16) -> bool {
        exists|i: int|
            0 <= i < self.spec_clients().len() && (#[trigger] self.spec_clients()[i].spec_id())
                == cid
    }

    /// The position of this client's account (unique when the book is well
    /// formed).
    pub open spec fn book_idx(self, cid: u16) -> int {
        choose|i: int|
            0 <= i < self.spec_clients().len() && (#[trigger] self.spec_clients()[i].spec_id())
                == cid
    }
}

/// The full contract of routing one transaction through the book: the
/// addressed account (created empty on first sight) moves by one application
/// step, every other account is untouched, and first-seen order is kept.
pub open spec fn book_apply_rel(
    pre: ClientBook,
    post: ClientBook,
    tx: Transaction,
    r: Result<(), TransactionError>,
) -> bool {
    if pre.book_has(tx.client_id@) {
        let j = pre.book_idx(tx.client_id@);
        &&& post.spec_clients().len() == pre.spec_clients().len()
        &&& forall|i: int|
            0 <= i < pre.spec_clients().len() && i != j ==> #[trigger] post.spec_clients()[i]
                == pre.spec_clients()[i]
        &&& apply_rel(pre.spec_clients()[j], post.spec_clients()[j], tx, r)
    } else {
        &&& post.spec_clients().len() == pre.spec_clients().len() + 1
        &&& forall|i: int|
            0 <= i < pre.spec_clients().len() ==> #[trigger] post.spec_clients()[i]
                == pre.spec_clients()[i]
        &&& exists|a0: ClientAccount|
            #[trigger] is_empty_account(a0, tx.client_id@) && apply_rel(
                a0,
                post.spec_clients()[pre.spec_clients().len() as int],
                tx,
                r,
            )
    }
}

impl Default for ClientBook {
    /// An empty book.
    fn default() -> (r: Self)
        ensures
            r.wf(),
            r.spec_clients().len() == 0,
    {
        ClientBook { clients: Vec::new() }
    }
}

impl ClientBook {
    /// The position of this client's account, if the book holds one.
    fn find_client(&self, cid: &ClientId) -> (r: Option<usize>)
        requires
            self.wf(),
        ensures
            match r {
                Some(i) => 0 <= i < self.spec_clients().len() && self.spec_clients()[
                    i as int
                ].spec_id() == cid@ && i as int == self.book_idx(cid@),
                None => !self.book_has(cid@),
            },
    {
        let n = self.clients.len();
        let mut i: usize = 0;
        while i < n
            invariant
                self.wf(),
                n == self.spec_clients().len(),
                0 <= i <= n,
                forall|j: int| 0 <= j < i ==> (#[trigger] self.spec_clients()[j].spec_id()) != cid@,
            decreases n - i,
        {
            if self.clients[i].id().eq_id(cid) {
                proof {
                    assert(self.book_has(cid@));
                    let k = self.book_idx(cid@);
                    assert(0 <= k < self.spec_clients().len() && self.spec_clients()[k].spec_id()
                        == cid@);
                    if k < i as int {
                        assert(false);
                    } else if k > i as int {
                        assert(self.spec_clients()[i as int].spec_id() != self.spec_clients()[
                            k
                        ].spec_id());
                        assert(false);
                    }
                }
                return Some(i);
            }
            i += 1;
        }
        None
    }

    /// Routes one transaction to the account its client identifier
    /// addresses, creating the account on first sight, and applies it there.
    pub fn append_tx(&mut self, tx: Transaction) -> (r: Result<(), TransactionError>)
        requires
            old(self).wf(),
            tx_wf(tx),
        ensures
            final(self).wf(),
            book_apply_rel(*old(self), *final(self), tx, r),
    {
        match self.find_client(&tx.client_id) {
            Some(i) => {
                let mut acc = self.clients.remove(i);
                let r = acc.append_tx(tx);
                self.clients.insert(i, acc);
                proof {
                    old(self).spec_clients().remove_ensures(i as int);
                    old(self).spec_clients().remove(i as int).insert_ensures(i as int, acc);
                    assert(self.spec_clients() =~= old(self).spec_clients().update(i as int, acc));
                }
                r
            },
            None => {
                let mut acc = ClientAccount::new(tx.client_id);
                let ghost a0 = acc;
                let r = acc.append_tx(tx);
                self.clients.push(acc);
                proof {
                    assert(is_empty_account(a0, tx.client_id@));
                    assert(self.spec_clients()[old(self).spec_clients().len() as int] == acc);
                }
                r
            },
        }
    }

    /// Hands the accounts out, in first-seen client order.
    pub fn into_clients(self) -> (r: Vec<ClientAccount>)
        ensures
            r@ == self.spec_clients(),
    {
        self.clients
    }
}

} // verus!
