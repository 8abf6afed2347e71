//! One account: its credit limit, its balance and its history.

use vstd::prelude::*;
use chrono::NaiveDateTime;
use crate::error::LedgerError;
use crate::transaction::{
    intent_in, intent_ok, stamped, IntentView, Kind, Transaction, TransactionView,
    ValidTransaction,
};

verus! {

/// An account as mathematics: the model that every contract speaks of.
pub struct ClientView {
    pub id: int,
    pub limite: int,
    pub saldo: int,
    pub transacoes: Seq<TransactionView>,
}

impl ClientView {
    /// What holds of every account at all times: the limit is not negative,
    /// the balance is not below the negative of the limit, and the history
    /// holds only transactions that passed validation.
    pub open spec fn inv(self) -> bool {
        &&& 0 <= self.limite
        &&& -self.limite <= self.saldo
        &&& forall|i: int|
            0 <= i < self.transacoes.len() ==> intent_ok(intent_in(#[trigger] self.transacoes[i]))
    }
}

/// The balance that an intent asks for: the amount is added for a credit and
/// taken away for a debit.
pub open spec fn future_value(saldo: int, intent: IntentView) -> int {
    match intent.tipo {
        Kind::Credit => saldo + intent.valor,
        Kind::Debit => saldo - intent.valor,
    }
}

/// Why an account turns an intent away, if it does: the balance would fall
/// below the negative of the limit, or it would leave the range of `i64`.
pub open spec fn rejection(c: ClientView, intent: IntentView) -> Option<LedgerError> {
    let v = future_value(c.saldo, intent);
    if v < -c.limite {
        Some(LedgerError::LimitExceeded)
    } else if v > i64::MAX {
        Some(LedgerError::BalanceOverflow)
    } else {
        None
    }
}

/// The account after an intent was applied at `at`: the new balance and the
/// new entry at the end of the history come together.
pub open spec fn applied(c: ClientView, intent: IntentView, at: NaiveDateTime) -> ClientView {
    ClientView {
        saldo: future_value(c.saldo, intent),
        transacoes: c.transacoes.push(stamped(intent, at)),
        ..c
    }
}

/// How many transactions a statement shows at most.
pub const STATEMENT_LEN: usize = 10;

/// The part of a history that a statement shows: the last ten entries, or
/// all of them where there are fewer, the most recent first.
pub open spec fn latest(history: Seq<TransactionView>) -> Seq<TransactionView> {
    let shown = if history.len() < STATEMENT_LEN {
        history.len()
    } else {
        STATEMENT_LEN as nat
    };
    Seq::new(shown, |i: int| history[history.len() - 1 - i])
}

/// The models of a run of stored transactions, in the same order.
pub open spec fn views(history: Seq<Transaction>) -> Seq<TransactionView> {
    Seq::new(history.len(), |i: int| history[i]@)
}

/// An account. Its fields are private: the balance and the history change
/// together or not at all.
#[derive(Debug, PartialEq, Eq)]
pub struct Client {
    id: i64,
    limite: i64,
    saldo: i64,
    transacoes: Vec<Transaction>,
}

impl View for Client {
    type V = ClientView;

    closed spec fn view(&self) -> ClientView {
        ClientView {
            id: self.id as int,
            limite: self.limite as int,
            saldo: self.saldo as int,
            transacoes: views(self.transacoes@),
        }
    }
}

impl Clone for Client {
    fn clone(&self) -> (c: Self)
        ensures
            c@ == self@,
    {
        proof {
            use_type_invariant(self);
        }
        let mut transacoes: Vec<Transaction> = Vec::new();
        let mut i: usize = 0;
        while i < self.transacoes.len()
            invariant
                i <= self.transacoes@.len(),
                transacoes@.len() == i,
                forall|k: int| 0 <= k < i ==> #[trigger] transacoes@[k] == self.transacoes@[k],
            decreases self.transacoes@.len() - i,
        {
            transacoes.push(self.transacoes[i].clone());
            i = i + 1;
        }
        assert(views(transacoes@) =~= views(self.transacoes@));
        Client { id: self.id, limite: self.limite, saldo: self.saldo, transacoes }
    }
}

impl Client {
    #[verifier::type_invariant]
    spec fn type_inv(self) -> bool {
        self@.inv()
    }

    /// An account with the given limit and opening balance and an empty
    /// history.
    pub fn new(id: i64, limite: i64, saldo: i64) -> (c: Self)
        requires
            0 <= limite,
            -limite <= saldo,
        ensures
            c@ == (ClientView {
                id: id as int,
                limite: limite as int,
                saldo: saldo as int,
                transacoes: Seq::empty(),
            }),
            c@.inv(),
    {
        let transacoes: Vec<Transaction> = Vec::new();
        assert(views(transacoes@) =~= Seq::empty());
        Client { id, limite, saldo, transacoes }
    }

    fn update_saldo(&mut self, new_saldo: i64)
        requires
            -old(self)@.limite <= new_saldo,
        ensures
            final(self)@ == (ClientView { saldo: new_saldo as int, ..old(self)@ }),
    {
        proof {
            use_type_invariant(&*self);
        }
        self.saldo = new_saldo;
    }

    fn add_transacao(&mut self, new_transaction: Transaction)
        requires
            intent_ok(intent_in(new_transaction@)),
        ensures
            final(self)@ == (ClientView {
                transacoes: old(self)@.transacoes.push(new_transaction@),
                ..old(self)@
            }),
    {
        proof {
            use_type_invariant(&*self);
        }
        let mut history: Vec<Transaction> = Vec::new();
        std::mem::swap(&mut history, &mut self.transacoes);
        history.push(new_transaction);
        proof {
            assert(views(history@) =~= old(self)@.transacoes.push(new_transaction@));
            assert forall|i: int| 0 <= i < views(history@).len() implies intent_ok(
                intent_in(#[trigger] views(history@)[i]),
            ) by {
                if i < old(self)@.transacoes.len() {
                    assert(views(history@)[i] == old(self)@.transacoes[i]);
                }
            }
        }
        self.transacoes = history;
    }

    /// The balance that `intent` would leave, or the reason for which the
    /// account turns it away. Nothing changes.
    pub fn future_value(&self, intent: &ValidTransaction) -> (r: Result<i64, LedgerError>)
        ensures
            self@.inv(),
            match r {
                Ok(v) => rejection(self@, intent@) is None && v == future_value(
                    self@.saldo,
                    intent@,
                ),
                Err(why) => rejection(self@, intent@) == Some(why),
            },
    {
        proof {
            use_type_invariant(self);
        }
        let current = self.saldo as i128;
        let value = intent.valor() as i128;
        let future = match intent.tipo() {
            Kind::Credit => current + value,
            Kind::Debit => current - value,
        };
        if future < -(self.limite as i128) {
            Err(LedgerError::LimitExceeded)
        } else if future > i64::MAX as i128 {
            Err(LedgerError::BalanceOverflow)
        } else {
            Ok(future as i64)
        }
    }

    /// Applies `intent` at `at`: the history gains the transaction and the
    /// balance becomes `new_saldo`, in one step.
    pub(crate) fn record(&mut self, intent: ValidTransaction, new_saldo: i64, at: NaiveDateTime)
        requires
            rejection(old(self)@, intent@) is None,
            new_saldo == future_value(old(self)@.saldo, intent@),
        ensures
            final(self)@ == applied(old(self)@, intent@, at),
            final(self)@.inv(),
    {
        let new_transaction = intent.stamp(at);
        self.add_transacao(new_transaction);
        self.update_saldo(new_saldo);
        proof {
            use_type_invariant(&*self);
        }
    }

    /// Copies of the most recent transactions, the most recent first: ten of
    /// them, or all where the history holds fewer.
    pub fn latest(&self) -> (shown: Vec<Transaction>)
        ensures
            views(shown@) == latest(self@.transacoes),
    {
        let total = self.transacoes.len();
        let wanted = if total < STATEMENT_LEN {
            total
        } else {
            STATEMENT_LEN
        };
        let mut shown: Vec<Transaction> = Vec::new();
        let mut taken: usize = 0;
        while taken < wanted
            invariant
                total == self.transacoes@.len(),
                wanted <= total,
                taken <= wanted,
                shown@.len() == taken,
                forall|i: int|
                    0 <= i < taken ==> (#[trigger] shown@[i])@ == self.transacoes@[total - 1 - i]@,
            decreases wanted - taken,
        {
            shown.push(self.transacoes[total - 1 - taken].clone());
            taken = taken + 1;
        }
        assert(views(shown@) =~= latest(self@.transacoes));
        shown
    }

    /// The account's identifier.
    pub fn id(&self) -> (v: i64)
        ensures
            v == self@.id,
    {
        self.id
    }

    /// The credit limit: how far below zero the balance may go.
    pub fn limite(&self) -> (v: i64)
        ensures
            v == self@.limite,
            0 <= v,
    {
        proof {
            use_type_invariant(self);
        }
        self.limite
    }

    /// The balance: never below the negative of the limit.
    pub fn saldo(&self) -> (v: i64)
        ensures
            v == self@.saldo,
            -self@.limite <= v,
    {
        proof {
            use_type_invariant(self);
        }
        self.saldo
    }

    /// Every transaction that was applied, oldest first.
    pub fn transacoes(&self) -> (history: &Vec<Transaction>)
        ensures
            views(history@) == self@.transacoes,
    {
        &self.transacoes
    }
}

} // verus!
