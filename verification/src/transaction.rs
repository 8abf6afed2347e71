//! Transactions, the requests they come from, and the rules a request must
//! meet before it may touch an account.

use vstd::prelude::*;
use vstd::string::*;
use chrono::NaiveDateTime;

verus! {

/// The two kinds of transaction.
#[derive(Debug, Clone, Copy, PartialEq, Eq, Structural)]
pub enum Kind {
    Credit,
    Debit,
}

/// Why a request was turned away before any balance was read.
#[derive(Debug, Clone, Copy, PartialEq, Eq, Structural)]
pub enum ValidationFailure {
    InvalidKind,
    NonPositiveAmount,
    InvalidDescriptionLength,
}

/// The longest description a transaction may carry, in characters.
pub const MAX_DESCRIPTION_CHARS: usize = 10;

/// A request as it arrives: nothing about it has been checked yet.
#[derive(Debug, PartialEq, Eq)]
pub struct TransactionRequest {
    pub valor: i64,
    pub tipo: String,
    pub descricao: String,
}

/// What a request says, as mathematics.
pub struct RequestView {
    pub valor: int,
    pub tipo: Seq<char>,
    pub descricao: Seq<char>,
}

impl View for TransactionRequest {
    type V = RequestView;

    open spec fn view(&self) -> RequestView {
        RequestView { valor: self.valor as int, tipo: self.tipo@, descricao: self.descricao@ }
    }
}

/// A request that has passed every rule: the kind is one of the two, the
/// amount is positive and the description has between one and ten
/// characters. Only [`validate`] makes one.
#[derive(Debug, PartialEq, Eq)]
pub struct ValidTransaction {
    valor: i64,
    tipo: Kind,
    descricao: String,
}

/// A validated request, as mathematics.
pub struct IntentView {
    pub valor: int,
    pub tipo: Kind,
    pub descricao: Seq<char>,
}

impl View for ValidTransaction {
    type V = IntentView;

    closed spec fn view(&self) -> IntentView {
        IntentView { valor: self.valor as int, tipo: self.tipo, descricao: self.descricao@ }
    }
}

impl ValidTransaction {
    #[verifier::type_invariant]
    spec fn type_inv(self) -> bool {
        intent_ok(self@)
    }

    /// The amount, in minor units: always positive.
    pub fn valor(&self) -> (v: i64)
        ensures
            v == self@.valor,
            v > 0,
    {
        proof {
            use_type_invariant(self);
        }
        self.valor
    }

    /// The kind.
    pub fn tipo(&self) -> (k: Kind)
        ensures
            k == self@.tipo,
    {
        self.tipo
    }

    /// The description: between one and ten characters.
    pub fn descricao(&self) -> (text: &str)
        ensures
            text@ == self@.descricao,
            description_ok(text@),
    {
        proof {
            use_type_invariant(self);
        }
        self.descricao.as_str()
    }

    /// The transaction that this intent becomes when it is applied at `at`.
    pub(crate) fn stamp(self, at: NaiveDateTime) -> (t: Transaction)
        ensures
            t@ == stamped(self@, at),
            intent_ok(self@),
    {
        proof {
            use_type_invariant(&self);
        }
        Transaction {
            valor: self.valor,
            tipo: self.tipo,
            descricao: self.descricao,
            realizada_em: at,
        }
    }
}

/// A transaction that was applied to an account, with the moment at which
/// the ledger applied it.
#[derive(Debug, PartialEq, Eq)]
pub struct Transaction {
    pub valor: i64,
    pub tipo: Kind,
    pub descricao: String,
    pub realizada_em: NaiveDateTime,
}

/// An applied transaction, as mathematics.
pub struct TransactionView {
    pub valor: int,
    pub tipo: Kind,
    pub descricao: Seq<char>,
    pub realizada_em: NaiveDateTime,
}

impl View for Transaction {
    type V = TransactionView;

    open spec fn view(&self) -> TransactionView {
        TransactionView {
            valor: self.valor as int,
            tipo: self.tipo,
            descricao: self.descricao@,
            realizada_em: self.realizada_em,
        }
    }
}

impl Clone for Transaction {
    fn clone(&self) -> (r: Self)
        ensures
            r == *self,
    {
        Transaction {
            valor: self.valor,
            tipo: self.tipo,
            descricao: self.descricao.clone(),
            realizada_em: self.realizada_em,
        }
    }
}

/// The kind that a code stands for: `"c"` is a credit, `"d"` a debit, and
/// nothing else is a kind.
pub open spec fn kind_of(code: Seq<char>) -> Option<Kind> {
    if code == "c"@ {
        Some(Kind::Credit)
    } else if code == "d"@ {
        Some(Kind::Debit)
    } else {
        None
    }
}

/// The code that stands for a kind.
pub open spec fn code_of(kind: Kind) -> Seq<char> {
    match kind {
        Kind::Credit => "c"@,
        Kind::Debit => "d"@,
    }
}

/// Every kind is read back from its own code, and only from it.
pub proof fn lemma_kind_codes(kind: Kind, code: Seq<char>)
    ensures
        kind_of(code_of(kind)) == Some(kind),
        kind_of(code) == Some(kind) <==> code == code_of(kind),
{
    reveal_strlit("c");
    reveal_strlit("d");
    assert("c"@[0] != "d"@[0]);
}

impl Kind {
    /// The code that stands for this kind: `"c"` or `"d"`.
    pub fn code(self) -> (text: &'static str)
        ensures
            text@ == code_of(self),
    {
        match self {
            Kind::Credit => "c",
            Kind::Debit => "d",
        }
    }
}

/// Whether a description has an acceptable number of characters.
pub open spec fn description_ok(text: Seq<char>) -> bool {
    1 <= text.len() <= MAX_DESCRIPTION_CHARS
}

/// The first rule that a request breaks, if it breaks any. The rules are
/// tried in a fixed order: kind, amount, description.
pub open spec fn first_failure(req: RequestView) -> Option<ValidationFailure> {
    if kind_of(req.tipo) is None {
        Some(ValidationFailure::InvalidKind)
    } else if req.valor <= 0 {
        Some(ValidationFailure::NonPositiveAmount)
    } else if !description_ok(req.descricao) {
        Some(ValidationFailure::InvalidDescriptionLength)
    } else {
        None
    }
}

/// A request passes exactly when it meets all three rules; a request that
/// breaks any one of them is turned away, whatever the other two say.
pub proof fn lemma_every_rule_is_checked(req: RequestView)
    ensures
        first_failure(req) is None <==> kind_of(req.tipo) is Some && req.valor > 0
            && description_ok(req.descricao),
        kind_of(req.tipo) is None ==> first_failure(req) is Some,
        req.valor <= 0 ==> first_failure(req) is Some,
        !description_ok(req.descricao) ==> first_failure(req) is Some,
{
}

/// The intent that a valid request carries.
pub open spec fn intent_of(req: RequestView) -> IntentView
    recommends
        first_failure(req) is None,
{
    IntentView { valor: req.valor, tipo: kind_of(req.tipo).unwrap(), descricao: req.descricao }
}

/// What holds of every validated request and of every stored transaction.
pub open spec fn intent_ok(intent: IntentView) -> bool {
    intent.valor > 0 && description_ok(intent.descricao)
}

/// The transaction that an intent becomes when it is applied at `at`.
pub open spec fn stamped(intent: IntentView, at: NaiveDateTime) -> TransactionView {
    TransactionView {
        valor: intent.valor,
        tipo: intent.tipo,
        descricao: intent.descricao,
        realizada_em: at,
    }
}

/// What a stored transaction asked for, without its timestamp.
pub open spec fn intent_in(t: TransactionView) -> IntentView {
    IntentView { valor: t.valor, tipo: t.tipo, descricao: t.descricao }
}

/// Reads a kind code.
pub fn parse_kind(code: &str) -> (k: Option<Kind>)
    ensures
        k == kind_of(code@),
{
    proof {
        reveal_strlit("c");
        reveal_strlit("d");
    }
    if code.unicode_len() != 1 {
        None
    } else {
        let c = code.get_char(0);
        if c == 'c' {
            assert(code@ =~= "c"@);
            Some(Kind::Credit)
        } else if c == 'd' {
            assert(code@ =~= "d"@);
            Some(Kind::Debit)
        } else {
            None
        }
    }
}

/// Checks a request against the three rules and, where it passes, gives the
/// typed intent it carries.
pub fn validate(payload: TransactionRequest) -> (r: Result<ValidTransaction, ValidationFailure>)
    ensures
        match r {
            Ok(intent) => first_failure(payload@) is None && intent@ == intent_of(payload@)
                && intent_ok(intent@),
            Err(why) => first_failure(payload@) == Some(why),
        },
{
    let kind = parse_kind(payload.tipo.as_str());
    match kind {
        None => Err(ValidationFailure::InvalidKind),
        Some(tipo) => {
            if payload.valor <= 0 {
                Err(ValidationFailure::NonPositiveAmount)
            } else {
                let n = payload.descricao.as_str().unicode_len();
                if n == 0 || n > MAX_DESCRIPTION_CHARS {
                    Err(ValidationFailure::InvalidDescriptionLength)
                } else {
                    Ok(ValidTransaction { valor: payload.valor, tipo, descricao: payload.descricao })
                }
            }
        },
    }
}

} // verus!
