//! The ledger: the fixed set of accounts and the two operations on it.

use vstd::prelude::*;
use chrono::NaiveDateTime;
use crate::client::{
    applied, future_value, latest, rejection, views, Client, ClientView, STATEMENT_LEN,
};
use crate::clock::now;
use crate::error::LedgerError;
use crate::transaction::{
    first_failure, intent_of, validate, RequestView, Transaction, TransactionRequest,
    TransactionView, ValidTransaction,
};

verus! {

/// The ledger as mathematics: each identifier with its account.
pub type Accounts = Map<int, ClientView>;

/// What holds of the ledger at all times: every account stands under its
/// own identifier and meets the account invariant.
pub open spec fn accounts_inv(s: Accounts) -> bool {
    forall|id: int| s.dom().contains(id) ==> (#[trigger] s[id]).id == id && s[id].inv()
}

/// An account that has just been opened: no balance and no history.
pub open spec fn opening(id: int, limite: int) -> ClientView {
    ClientView { id, limite, saldo: 0, transacoes: Seq::empty() }
}

/// The five accounts that every ledger starts with.
pub open spec fn initial_accounts() -> Accounts {
    map![
        1int => opening(1, 100_000),
        2int => opening(2, 80_000),
        3int => opening(3, 1_000_000),
        4int => opening(4, 10_000_000),
        5int => opening(5, 500_000),
    ]
}

/// Why the ledger turns a request away, if it does. The account is looked
/// up first, then the request is validated, then the limit is checked.
pub open spec fn refusal(s: Accounts, id: int, req: RequestView) -> Option<LedgerError> {
    if !s.dom().contains(id) {
        Some(LedgerError::NotFound)
    } else if first_failure(req) is Some {
        Some(LedgerError::ValidationRejected(first_failure(req).unwrap()))
    } else {
        rejection(s[id], intent_of(req))
    }
}

/// The ledger after a request for the account `id` was handled at `at`: the
/// one account changes where the request is accepted, and nothing changes
/// where it is not.
pub open spec fn next_state(s: Accounts, id: int, req: RequestView, at: NaiveDateTime) -> Accounts {
    if refusal(s, id, req) is None {
        s.insert(id, applied(s[id], intent_of(req), at))
    } else {
        s
    }
}

/// What a caller is told after a transaction was applied.
#[derive(Debug, Clone, Copy, PartialEq, Eq, Structural)]
pub struct TransactionOkResp {
    pub limite: i64,
    pub saldo: i64,
}

/// The head of a statement: the balance, the limit and the moment at which
/// the statement was drawn.
#[derive(Debug, PartialEq, Eq)]
pub struct ClientBalanceSaldo {
    pub total: i64,
    pub data_extrato: NaiveDateTime,
    pub limite: i64,
}

/// A statement: the head and the most recent transactions, the most recent
/// first.
#[derive(Debug, PartialEq, Eq)]
pub struct ClientBalanceResponse {
    pub saldo: ClientBalanceSaldo,
    pub ultimas_transacoes: Vec<Transaction>,
}

/// A statement as mathematics.
pub struct StatementView {
    pub total: int,
    pub limite: int,
    pub data_extrato: NaiveDateTime,
    pub ultimas_transacoes: Seq<TransactionView>,
}

impl View for ClientBalanceResponse {
    type V = StatementView;

    open spec fn view(&self) -> StatementView {
        StatementView {
            total: self.saldo.total as int,
            limite: self.saldo.limite as int,
            data_extrato: self.saldo.data_extrato,
            ultimas_transacoes: views(self.ultimas_transacoes@),
        }
    }
}

/// The statement of an account, drawn at `at`.
pub open spec fn statement_of(c: ClientView, at: NaiveDateTime) -> StatementView {
    StatementView {
        total: c.saldo,
        limite: c.limite,
        data_extrato: at,
        ultimas_transacoes: latest(c.transacoes),
    }
}

spec fn holds(list: Seq<Client>, id: int) -> bool {
    exists|i: int| 0 <= i < list.len() && (#[trigger] list[i])@.id == id
}

spec fn index_of(list: Seq<Client>, id: int) -> int {
    choose|i: int| 0 <= i < list.len() && (#[trigger] list[i])@.id == id
}

spec fn distinct(list: Seq<Client>) -> bool {
    forall|i: int, j: int|
        0 <= i < j < list.len() ==> (#[trigger] list[i])@.id != (#[trigger] list[j])@.id
}

spec fn table(list: Seq<Client>) -> Accounts {
    Map::new(|id: int| holds(list, id), |id: int| list[index_of(list, id)]@)
}

proof fn lemma_table_at(list: Seq<Client>, i: int)
    requires
        distinct(list),
        0 <= i < list.len(),
    ensures
        table(list).dom().contains(list[i]@.id),
        table(list)[list[i]@.id] == list[i]@,
        index_of(list, list[i]@.id) == i,
{
    let id = list[i]@.id;
    assert(holds(list, id));
    let j = index_of(list, id);
    assert(0 <= j < list.len() && list[j]@.id == id);
    if j < i {
        assert(list[j]@.id != list[i]@.id);
    } else if i < j {
        assert(list[i]@.id != list[j]@.id);
    }
}

proof fn lemma_table_same(a: Seq<Client>, b: Seq<Client>)
    requires
        a.len() == b.len(),
        forall|k: int| 0 <= k < a.len() ==> (#[trigger] a[k])@ == b[k]@,
        distinct(b),
    ensures
        distinct(a),
        table(a) =~= table(b),
{
    assert forall|i: int, j: int| 0 <= i < j < a.len() implies (#[trigger] a[i])@.id != (
    #[trigger] a[j])@.id by {
        assert(b[i]@.id != b[j]@.id);
    }
    assert forall|id: int| holds(a, id) <==> holds(b, id) by {
        if holds(a, id) {
            let k = index_of(a, id);
            assert(b[k]@.id == id);
        }
        if holds(b, id) {
            let k = index_of(b, id);
            assert(a[k]@.id == id);
        }
    }
    assert forall|id: int| #[trigger] table(a).dom().contains(id) implies table(a)[id] == table(
        b,
    )[id] by {
        let k = index_of(a, id);
        assert(0 <= k < a.len() && a[k]@.id == id);
        lemma_table_at(a, k);
        assert(b[k]@.id == id);
        lemma_table_at(b, k);
    }
}

proof fn lemma_table_update(list: Seq<Client>, i: int, c: Client)
    requires
        distinct(list),
        0 <= i < list.len(),
        c@.id == list[i]@.id,
    ensures
        distinct(list.update(i, c)),
        table(list.update(i, c)) =~= table(list).insert(c@.id, c@),
{
    let after = list.update(i, c);
    assert forall|a: int, b: int| 0 <= a < b < after.len() implies (#[trigger] after[a])@.id != (
    #[trigger] after[b])@.id by {
        assert(list[a]@.id != list[b]@.id);
    }
    assert forall|id: int| holds(after, id) <==> holds(list, id) by {
        if holds(after, id) {
            let k = index_of(after, id);
            assert(list[k]@.id == id);
        }
        if holds(list, id) {
            let k = index_of(list, id);
            assert(after[k]@.id == id);
        }
    }
    lemma_table_at(after, i);
    lemma_table_at(list, i);
    assert forall|id: int| #[trigger] table(after).dom().contains(id) implies table(after)[id]
        == table(list).insert(c@.id, c@)[id] by {
        let k = index_of(after, id);
        assert(0 <= k < after.len() && after[k]@.id == id);
        lemma_table_at(after, k);
        if k != i {
            assert(after[k] == list[k]);
            lemma_table_at(list, k);
            if k < i {
                assert(list[k]@.id != list[i]@.id);
            } else {
                assert(list[i]@.id != list[k]@.id);
            }
        }
    }
}

/// The ledger. The set of accounts is fixed when it is made: no account is
/// ever added or removed, and no limit ever changes.
#[derive(Debug, PartialEq, Eq)]
pub struct ApiState {
    client_list: Vec<Client>,
}

impl View for ApiState {
    type V = Accounts;

    closed spec fn view(&self) -> Accounts {
        table(self.client_list@)
    }
}

impl Clone for ApiState {
    fn clone(&self) -> (s: Self)
        ensures
            s@ == self@,
    {
        proof {
            use_type_invariant(self);
        }
        let mut client_list: Vec<Client> = Vec::new();
        let mut i: usize = 0;
        while i < self.client_list.len()
            invariant
                i <= self.client_list@.len(),
                client_list@.len() == i,
                forall|k: int| 0 <= k < i ==> (#[trigger] client_list@[k])@ == self.client_list@[k]@,
            decreases self.client_list@.len() - i,
        {
            client_list.push(self.client_list[i].clone());
            i = i + 1;
        }
        proof {
            lemma_table_same(client_list@, self.client_list@);
        }
        ApiState { client_list }
    }
}

impl ApiState {
    #[verifier::type_invariant]
    spec fn type_inv(self) -> bool {
        &&& distinct(self.client_list@)
        &&& forall|i: int|
            0 <= i < self.client_list@.len() ==> (#[trigger] self.client_list@[i])@.inv()
    }

    proof fn lemma_inv(self)
        requires
            self.type_inv(),
        ensures
            accounts_inv(self@),
    {
        assert forall|id: int| self@.dom().contains(id) implies (#[trigger] self@[id]).id == id
            && self@[id].inv() by {
            let k = index_of(self.client_list@, id);
            assert(0 <= k < self.client_list@.len() && self.client_list@[k]@.id == id);
        }
    }

    /// The ledger with its five accounts, each at balance zero.
    pub fn new() -> (s: Self)
        ensures
            s@ == initial_accounts(),
            accounts_inv(s@),
    {
        let client_list = vec![
            Client::new(1, 100_000, 0),
            Client::new(2, 80_000, 0),
            Client::new(3, 1_000_000, 0),
            Client::new(4, 10_000_000, 0),
            Client::new(5, 500_000, 0),
        ];
        proof {
            let list = client_list@;
            assert(distinct(list));
            lemma_table_at(list, 0);
            lemma_table_at(list, 1);
            lemma_table_at(list, 2);
            lemma_table_at(list, 3);
            lemma_table_at(list, 4);
            assert forall|id: int| table(list).dom().contains(id) implies 1 <= id <= 5 by {
                let k = index_of(list, id);
                assert(0 <= k < list.len() && list[k]@.id == id);
            }
            assert(table(list) =~= initial_accounts());
        }
        let s = ApiState { client_list };
        proof {
            s.lemma_inv();
        }
        s
    }

    fn position(&self, client_id: i64) -> (found: Option<usize>)
        ensures
            accounts_inv(self@),
            match found {
                Some(i) => i < self.client_list@.len() && self.client_list@[i as int]@.id
                    == client_id && self@.dom().contains(client_id as int) && self@[client_id as int]
                    == self.client_list@[i as int]@,
                None => !self@.dom().contains(client_id as int),
            },
    {
        proof {
            use_type_invariant(self);
            self.lemma_inv();
        }
        let mut i: usize = 0;
        while i < self.client_list.len()
            invariant
                i <= self.client_list@.len(),
                forall|k: int| 0 <= k < i ==> (#[trigger] self.client_list@[k])@.id != client_id,
            decreases self.client_list@.len() - i,
        {
            if self.client_list[i].id() == client_id {
                proof {
                    use_type_invariant(self);
                    lemma_table_at(self.client_list@, i as int);
                }
                return Some(i);
            }
            i = i + 1;
        }
        proof {
            if holds(self.client_list@, client_id as int) {
                let k = index_of(self.client_list@, client_id as int);
                assert(self.client_list@[k]@.id != client_id);
            }
        }
        None
    }

    /// Decides what becomes of a request, and changes nothing: the account's
    /// place, the validated intent and the new balance where the request is
    /// accepted, the reason where it is not.
    fn decide(&self, client_id: i64, payload: TransactionRequest) -> (r: Result<
        (usize, ValidTransaction, i64),
        LedgerError,
    >)
        ensures
            match r {
                Ok((index, intent, new_saldo)) => {
                    &&& refusal(self@, client_id as int, payload@) is None
                    &&& index < self.client_list@.len()
                    &&& self.client_list@[index as int]@ == self@[client_id as int]
                    &&& self@[client_id as int].id == client_id
                    &&& intent@ == intent_of(payload@)
                    &&& new_saldo == future_value(
                        self@[client_id as int].saldo,
                        intent@,
                    )
                },
                Err(why) => refusal(self@, client_id as int, payload@) == Some(why),
            },
    {
        match self.position(client_id) {
            None => Err(LedgerError::NotFound),
            Some(index) => match validate(payload) {
                Err(failure) => Err(LedgerError::ValidationRejected(failure)),
                Ok(intent) => match self.client_list[index].future_value(&intent) {
                    Err(why) => Err(why),
                    Ok(new_saldo) => Ok((index, intent, new_saldo)),
                },
            },
        }
    }

    /// Applies an accepted intent to the account at `index`.
    fn commit(
        &mut self,
        index: usize,
        intent: ValidTransaction,
        new_saldo: i64,
        at: NaiveDateTime,
    ) -> (resp: TransactionOkResp)
        requires
            index < old(self).client_list@.len(),
            rejection(old(self).client_list@[index as int]@, intent@) is None,
            new_saldo == future_value(
                old(self).client_list@[index as int]@.saldo,
                intent@,
            ),
        ensures
            final(self)@ == old(self)@.insert(
                old(self).client_list@[index as int]@.id,
                applied(old(self).client_list@[index as int]@, intent@, at),
            ),
            resp.limite == old(self).client_list@[index as int]@.limite,
            resp.saldo == new_saldo,
            accounts_inv(final(self)@),
    {
        proof {
            use_type_invariant(&*self);
        }
        let mut list: Vec<Client> = Vec::new();
        std::mem::swap(&mut list, &mut self.client_list);
        let ghost before = list@;
        let target = &mut list[index];
        target.record(intent, new_saldo, at);
        let resp = TransactionOkResp { limite: target.limite(), saldo: target.saldo() };
        proof {
            assert(list@ =~= before.update(index as int, list@[index as int]));
            lemma_table_update(before, index as int, list@[index as int]);
        }
        self.client_list = list;
        proof {
            use_type_invariant(&*self);
            self.lemma_inv();
        }
        resp
    }

    /// The account that stands under `client_id`, if the ledger has one.
    pub fn lookup(&self, client_id: i64) -> (found: Option<&Client>)
        ensures
            accounts_inv(self@),
            match found {
                Some(c) => self@.dom().contains(client_id as int) && c@ == self@[client_id as int],
                None => !self@.dom().contains(client_id as int),
            },
    {
        match self.position(client_id) {
            Some(i) => Some(&self.client_list[i]),
            None => None,
        }
    }
}

/// Handles a request for the account `client_id`, with `at` as the moment of
/// application. The account is looked up, the request validated and the limit
/// checked, in that order; where all three pass, the account's history gains
/// the transaction and its balance changes, together. Where one fails the
/// ledger stays as it was.
pub fn client_transaction_at(
    state: &mut ApiState,
    client_id: i64,
    payload: TransactionRequest,
    at: NaiveDateTime,
) -> (r: Result<TransactionOkResp, LedgerError>)
    ensures
        final(state)@ == next_state(old(state)@, client_id as int, payload@, at),
        accounts_inv(final(state)@),
        match r {
            Ok(resp) => {
                &&& refusal(old(state)@, client_id as int, payload@) is None
                &&& resp.limite == final(state)@[client_id as int].limite
                &&& resp.saldo == final(state)@[client_id as int].saldo
            },
            Err(why) => {
                &&& refusal(old(state)@, client_id as int, payload@) == Some(why)
                &&& *final(state) == *old(state)
            },
        },
{
    match state.decide(client_id, payload) {
        Err(why) => {
            proof {
                use_type_invariant(&*state);
                state.lemma_inv();
            }
            Err(why)
        },
        Ok((index, intent, new_saldo)) => Ok(state.commit(index, intent, new_saldo, at)),
    }
}

/// Handles a request for the account `client_id`. The moment of application
/// is read from the clock, and only once the request has been accepted.
///
/// Everything but that moment is fixed by the ledger and the request: the
/// result, and the ledger afterwards up to the timestamp of the new entry.
pub fn client_transaction(state: &mut ApiState, client_id: i64, payload: TransactionRequest) -> (r:
    Result<TransactionOkResp, LedgerError>)
    ensures
        exists|at: NaiveDateTime|
            final(state)@ == #[trigger] next_state(old(state)@, client_id as int, payload@, at),
        accounts_inv(final(state)@),
        match r {
            Ok(resp) => {
                &&& refusal(old(state)@, client_id as int, payload@) is None
                &&& resp.limite == final(state)@[client_id as int].limite
                &&& resp.saldo == final(state)@[client_id as int].saldo
            },
            Err(why) => {
                &&& refusal(old(state)@, client_id as int, payload@) == Some(why)
                &&& *final(state) == *old(state)
            },
        },
{
    match state.decide(client_id, payload) {
        Err(why) => {
            proof {
                use_type_invariant(&*state);
                state.lemma_inv();
                let at: NaiveDateTime = arbitrary();
                assert(state@ == next_state(old(state)@, client_id as int, payload@, at));
            }
            Err(why)
        },
        Ok((index, intent, new_saldo)) => {
            let at = now();
            let resp = state.commit(index, intent, new_saldo, at);
            assert(state@ == next_state(old(state)@, client_id as int, payload@, at));
            Ok(resp)
        },
    }
}

/// Draws the statement of one account at `at`.
fn statement(target: &Client, at: NaiveDateTime) -> (resp: ClientBalanceResponse)
    ensures
        resp@ == statement_of(target@, at),
        resp.saldo.data_extrato == at,
        resp.ultimas_transacoes@.len() <= STATEMENT_LEN,
        resp.ultimas_transacoes@.len() <= target@.transacoes.len(),
{
    let ultimas_transacoes = target.latest();
    assert(ultimas_transacoes@.len() == views(ultimas_transacoes@).len());
    ClientBalanceResponse {
        saldo: ClientBalanceSaldo {
            total: target.saldo(),
            data_extrato: at,
            limite: target.limite(),
        },
        ultimas_transacoes,
    }
}

/// The statement of the account `client_id`, with `at` as the moment at which
/// it is drawn. The ledger is only read.
pub fn client_balance_at(state: &ApiState, client_id: i64, at: NaiveDateTime) -> (r: Result<
    ClientBalanceResponse,
    LedgerError,
>)
    ensures
        accounts_inv(state@),
        match r {
            Ok(resp) => {
                &&& state@.dom().contains(client_id as int)
                &&& resp@ == statement_of(state@[client_id as int], at)
                &&& resp.ultimas_transacoes@.len() <= STATEMENT_LEN
                &&& resp.ultimas_transacoes@.len() <= state@[client_id as int].transacoes.len()
            },
            Err(why) => why == LedgerError::NotFound && !state@.dom().contains(client_id as int),
        },
{
    match state.lookup(client_id) {
        None => Err(LedgerError::NotFound),
        Some(target) => Ok(statement(target, at)),
    }
}

/// The statement of the account `client_id`, drawn now: the moment is read
/// from the clock, and everything else is fixed by the ledger. The ledger is
/// only read.
pub fn client_balance(state: &ApiState, client_id: i64) -> (r: Result<
    ClientBalanceResponse,
    LedgerError,
>)
    ensures
        accounts_inv(state@),
        match r {
            Ok(resp) => {
                &&& state@.dom().contains(client_id as int)
                &&& resp@ == statement_of(state@[client_id as int], resp.saldo.data_extrato)
                &&& resp.ultimas_transacoes@.len() <= STATEMENT_LEN
                &&& resp.ultimas_transacoes@.len() <= state@[client_id as int].transacoes.len()
            },
            Err(why) => why == LedgerError::NotFound && !state@.dom().contains(client_id as int),
        },
{
    match state.lookup(client_id) {
        None => Err(LedgerError::NotFound),
        Some(target) => {
            let at = now();
            Ok(statement(target, at))
        },
    }
}

} // verus!
