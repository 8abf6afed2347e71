//! The ways in which the ledger turns a call away.

use vstd::prelude::*;
use crate::transaction::ValidationFailure;

verus! {

/// Why the ledger did not do what it was asked. None of these is fatal, and
/// none leaves a trace in any account.
#[derive(Debug, Clone, Copy, PartialEq, Eq, Structural)]
pub enum LedgerError {
    /// The account identifier is not one of the ledger's accounts.
    NotFound,
    /// The request is malformed.
    ValidationRejected(ValidationFailure),
    /// The request is well formed, but the balance would fall below the
    /// negative of the credit limit.
    LimitExceeded,
    /// The request is well formed and within the limit, but the balance
    /// would no longer fit in 64 bits.
    BalanceOverflow,
}

/// The text that tells a caller why a call was turned away.
pub open spec fn reason_text(e: LedgerError) -> Seq<char> {
    match e {
        LedgerError::NotFound => "Id inválido"@,
        LedgerError::ValidationRejected(ValidationFailure::InvalidKind) =>
            "Tipo inválido. Precisa ser \"c\" ou \"d\""@,
        LedgerError::ValidationRejected(ValidationFailure::NonPositiveAmount) =>
            "Valor deve ser positivo e maior do que zero"@,
        LedgerError::ValidationRejected(ValidationFailure::InvalidDescriptionLength) =>
            "Descrição precisa estar entre 1 e 10 caracteres."@,
        LedgerError::LimitExceeded => "erro"@,
        LedgerError::BalanceOverflow => "Saldo fora do intervalo suportado"@,
    }
}

impl LedgerError {
    /// Whether the call failed because the request itself is malformed.
    pub fn is_validation(&self) -> (b: bool)
        ensures
            b == (*self is ValidationRejected),
    {
        match self {
            LedgerError::ValidationRejected(_) => true,
            _ => false,
        }
    }

    /// The human-readable reason.
    pub fn reason(&self) -> (text: &'static str)
        ensures
            text@ == reason_text(*self),
    {
        match self {
            LedgerError::NotFound => "Id inválido",
            LedgerError::ValidationRejected(ValidationFailure::InvalidKind) =>
                "Tipo inválido. Precisa ser \"c\" ou \"d\"",
            LedgerError::ValidationRejected(ValidationFailure::NonPositiveAmount) =>
                "Valor deve ser positivo e maior do que zero",
            LedgerError::ValidationRejected(ValidationFailure::InvalidDescriptionLength) =>
                "Descrição precisa estar entre 1 e 10 caracteres.",
            LedgerError::LimitExceeded => "erro",
            LedgerError::BalanceOverflow => "Saldo fora do intervalo suportado",
        }
    }
}

} // verus!
