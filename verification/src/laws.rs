//! What holds of the ledger whatever is asked of it, stated over the same
//! models as the contracts of the operations.

use vstd::prelude::*;
use chrono::NaiveDateTime;
use crate::client::{future_value, ClientView, STATEMENT_LEN};
use crate::error::LedgerError;
use crate::state::{
    accounts_inv, initial_accounts, next_state, refusal, statement_of, Accounts,
};
use crate::transaction::{
    first_failure, intent_in, intent_of, intent_ok, stamped, Kind, RequestView,
};

verus! {

/// A request together with the moment at which the ledger handled it.
pub struct Submission {
    pub req: RequestView,
    pub at: NaiveDateTime,
}

/// The ledger after the submissions were handled one after another, in the
/// order of the sequence, all for the account `id`.
pub open spec fn run(s: Accounts, id: int, subs: Seq<Submission>) -> Accounts
    decreases subs.len(),
{
    if subs.len() == 0 {
        s
    } else {
        next_state(run(s, id, subs.drop_last()), id, subs.last().req, subs.last().at)
    }
}

/// The sum of the amounts of the submissions of kind `kind` that the ledger
/// accepted in that run.
pub open spec fn accepted_total(s: Accounts, id: int, subs: Seq<Submission>, kind: Kind) -> int
    decreases subs.len(),
{
    if subs.len() == 0 {
        0
    } else {
        let before = run(s, id, subs.drop_last());
        let req = subs.last().req;
        let earlier = accepted_total(s, id, subs.drop_last(), kind);
        if refusal(before, id, req) is None && intent_of(req).tipo == kind {
            earlier + req.valor
        } else {
            earlier
        }
    }
}

/// How many of the submissions the ledger accepted in that run.
pub open spec fn accepted_count(s: Accounts, id: int, subs: Seq<Submission>) -> nat
    decreases subs.len(),
{
    if subs.len() == 0 {
        0
    } else {
        let before = run(s, id, subs.drop_last());
        let earlier = accepted_count(s, id, subs.drop_last());
        if refusal(before, id, subs.last().req) is None {
            earlier + 1
        } else {
            earlier
        }
    }
}

/// The ledger starts out meeting its invariant.
pub proof fn lemma_initial_accounts_meet_invariant()
    ensures
        accounts_inv(initial_accounts()),
        forall|id: int| initial_accounts().dom().contains(id) <==> 1 <= id <= 5,
{
}

/// No request, accepted or not, takes a balance below the negative of the
/// account's limit: the invariant of the ledger survives every step.
pub proof fn lemma_step_keeps_invariant(s: Accounts, id: int, req: RequestView, at: NaiveDateTime)
    requires
        accounts_inv(s),
    ensures
        accounts_inv(next_state(s, id, req, at)),
        forall|a: int| #[trigger]
            next_state(s, id, req, at).dom().contains(a) ==> -next_state(s, id, req, at)[a].limite
                <= next_state(s, id, req, at)[a].saldo,
{
    let after = next_state(s, id, req, at);
    if refusal(s, id, req) is None {
        let before = s[id];
        let changed = after[id];
        assert forall|i: int| 0 <= i < changed.transacoes.len() implies intent_ok(
            intent_in(#[trigger] changed.transacoes[i]),
        ) by {
            if i < before.transacoes.len() {
                assert(changed.transacoes[i] == before.transacoes[i]);
            }
        }
        assert forall|a: int| after.dom().contains(a) implies (#[trigger] after[a]).id == a
            && after[a].inv() by {
            if a != id {
                assert(after[a] == s[a]);
            }
        }
    }
}

/// The set of accounts is fixed, and so is every limit: a request adds no
/// account, removes none, changes no limit and touches no account but its
/// own.
pub proof fn lemma_step_keeps_accounts(s: Accounts, id: int, req: RequestView, at: NaiveDateTime)
    ensures
        next_state(s, id, req, at).dom() == s.dom(),
        forall|a: int| #[trigger]
            s.dom().contains(a) ==> next_state(s, id, req, at)[a].limite == s[a].limite
                && next_state(s, id, req, at)[a].id == s[a].id,
        forall|a: int| #[trigger]
            s.dom().contains(a) && a != id ==> next_state(s, id, req, at)[a] == s[a],
{
    let after = next_state(s, id, req, at);
    assert(after.dom() =~= s.dom());
}

/// A request that is turned away, for whatever reason, leaves the ledger as
/// it was: the same balances and the same histories.
pub proof fn lemma_rejection_changes_nothing(
    s: Accounts,
    id: int,
    req: RequestView,
    at: NaiveDateTime,
)
    requires
        refusal(s, id, req) is Some,
    ensures
        next_state(s, id, req, at) == s,
{
}

/// A request is turned away exactly when the account is unknown, the request
/// is malformed, or the new balance would break the limit or leave the range
/// of `i64`; a well-formed credit never breaks the limit.
pub proof fn lemma_refusal_cases(s: Accounts, id: int, req: RequestView)
    requires
        accounts_inv(s),
    ensures
        refusal(s, id, req) == Some(LedgerError::NotFound) <==> !s.dom().contains(id),
        refusal(s, id, req) is Some && refusal(s, id, req).unwrap() is ValidationRejected
            <==> s.dom().contains(id) && first_failure(req) is Some,
        refusal(s, id, req) == Some(LedgerError::BalanceOverflow) <==> s.dom().contains(id)
            && first_failure(req) is None && future_value(s[id].saldo, intent_of(req))
            > i64::MAX,
        refusal(s, id, req) == Some(LedgerError::LimitExceeded) <==> s.dom().contains(id)
            && first_failure(req) is None && future_value(s[id].saldo, intent_of(req))
            < -s[id].limite,
        refusal(s, id, req) == Some(LedgerError::LimitExceeded) ==> intent_of(req).tipo
            == Kind::Debit,
{
}

/// After a request was accepted, the account's statement shows the new
/// transaction first, and the balance of the statement is the balance that
/// the request led to: the two change together.
pub proof fn lemma_accepted_shows_in_statement(
    s: Accounts,
    id: int,
    req: RequestView,
    at: NaiveDateTime,
    drawn: NaiveDateTime,
)
    requires
        refusal(s, id, req) is None,
    ensures
        ({
            let after = next_state(s, id, req, at)[id];
            let shown = statement_of(after, drawn);
            &&& shown.ultimas_transacoes.len() >= 1
            &&& shown.ultimas_transacoes[0] == stamped(intent_of(req), at)
            &&& shown.total == after.saldo
            &&& shown.total == future_value(s[id].saldo, intent_of(req))
            &&& shown.limite == s[id].limite
            &&& after.transacoes == s[id].transacoes.push(stamped(intent_of(req), at))
        }),
{
}

/// A statement shows at most ten transactions and never more than were
/// applied, the most recent first: the entry at place `i` is the one that
/// lies `i` places before the end of the history.
pub proof fn lemma_statement_order(c: ClientView, drawn: NaiveDateTime)
    ensures
        ({
            let shown = statement_of(c, drawn).ultimas_transacoes;
            let applied = c.transacoes;
            &&& shown.len() <= STATEMENT_LEN
            &&& shown.len() <= applied.len()
            &&& shown.len() == STATEMENT_LEN || shown.len() == applied.len()
            &&& forall|i: int|
                0 <= i < shown.len() ==> #[trigger] shown[i] == applied[applied.len() - 1 - i]
        }),
{
}

/// Requests for one account that are handled one after another, in any
/// order, leave the balance at the opening balance plus the credits that
/// were accepted less the debits that were accepted; the history grows by
/// one entry for each accepted request; and the invariant holds at the end.
pub proof fn lemma_serial_balance(s: Accounts, id: int, subs: Seq<Submission>)
    requires
        accounts_inv(s),
        s.dom().contains(id),
    ensures
        accounts_inv(run(s, id, subs)),
        run(s, id, subs).dom() == s.dom(),
        run(s, id, subs)[id].saldo == s[id].saldo + accepted_total(s, id, subs, Kind::Credit)
            - accepted_total(s, id, subs, Kind::Debit),
        run(s, id, subs)[id].transacoes.len() == s[id].transacoes.len() + accepted_count(
            s,
            id,
            subs,
        ),
        run(s, id, subs)[id].limite == s[id].limite,
    decreases subs.len(),
{
    if subs.len() > 0 {
        let earlier = subs.drop_last();
        lemma_serial_balance(s, id, earlier);
        let before = run(s, id, earlier);
        lemma_step_keeps_invariant(before, id, subs.last().req, subs.last().at);
        lemma_step_keeps_accounts(before, id, subs.last().req, subs.last().at);
    }
}

} // verus!
