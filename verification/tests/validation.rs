use ledger::error::LedgerError;
use ledger::transaction::{
    parse_kind, validate, Kind, TransactionRequest, ValidationFailure, MAX_DESCRIPTION_CHARS,
};

fn request(valor: i64, tipo: &str, descricao: &str) -> TransactionRequest {
    TransactionRequest { valor, tipo: tipo.to_string(), descricao: descricao.to_string() }
}

#[test]
fn kind_codes_are_c_and_d() {
    assert_eq!(parse_kind("c"), Some(Kind::Credit));
    assert_eq!(parse_kind("d"), Some(Kind::Debit));
}

#[test]
fn every_kind_is_read_back_from_its_code() {
    assert_eq!(Kind::Credit.code(), "c");
    assert_eq!(Kind::Debit.code(), "d");
    assert_eq!(parse_kind(Kind::Credit.code()), Some(Kind::Credit));
    assert_eq!(parse_kind(Kind::Debit.code()), Some(Kind::Debit));
}

#[test]
fn other_kind_codes_are_refused() {
    assert_eq!(parse_kind(""), None);
    assert_eq!(parse_kind("x"), None);
    assert_eq!(parse_kind("C"), None);
    assert_eq!(parse_kind("D"), None);
    assert_eq!(parse_kind("cd"), None);
    assert_eq!(parse_kind("cc"), None);
    assert_eq!(parse_kind(" c"), None);
    assert_eq!(parse_kind("credit"), None);
    assert_eq!(parse_kind("é"), None);
}

#[test]
fn valid_credit_becomes_an_intent() {
    let intent = validate(request(1000, "c", "dep")).unwrap();
    assert_eq!(intent.valor(), 1000);
    assert_eq!(intent.tipo(), Kind::Credit);
    assert_eq!(intent.descricao(), "dep");
}

#[test]
fn valid_debit_becomes_an_intent() {
    let intent = validate(request(1, "d", "x")).unwrap();
    assert_eq!(intent.valor(), 1);
    assert_eq!(intent.tipo(), Kind::Debit);
    assert_eq!(intent.descricao(), "x");
}

#[test]
fn unknown_kind_is_rejected() {
    assert_eq!(validate(request(10, "x", "dep")), Err(ValidationFailure::InvalidKind));
    assert_eq!(validate(request(10, "", "dep")), Err(ValidationFailure::InvalidKind));
}

#[test]
fn zero_amount_is_rejected() {
    assert_eq!(validate(request(0, "c", "dep")), Err(ValidationFailure::NonPositiveAmount));
}

#[test]
fn negative_amount_is_rejected() {
    assert_eq!(validate(request(-1, "d", "dep")), Err(ValidationFailure::NonPositiveAmount));
    assert_eq!(
        validate(request(i64::MIN, "c", "dep")),
        Err(ValidationFailure::NonPositiveAmount)
    );
}

#[test]
fn largest_amount_is_valid() {
    let intent = validate(request(i64::MAX, "c", "max")).unwrap();
    assert_eq!(intent.valor(), i64::MAX);
}

#[test]
fn empty_description_is_rejected() {
    assert_eq!(validate(request(10, "c", "")), Err(ValidationFailure::InvalidDescriptionLength));
}

#[test]
fn eleven_character_description_is_rejected() {
    assert_eq!(
        validate(request(10, "c", "abcdefghijk")),
        Err(ValidationFailure::InvalidDescriptionLength)
    );
}

#[test]
fn description_of_one_and_of_ten_characters_is_valid() {
    assert_eq!(MAX_DESCRIPTION_CHARS, 10);
    assert!(validate(request(10, "c", "a")).is_ok());
    assert!(validate(request(10, "c", "abcdefghij")).is_ok());
}

#[test]
fn description_length_counts_characters_not_bytes() {
    let ten = "çãõéíáúâêô";
    assert_eq!(ten.chars().count(), 10);
    assert_eq!(ten.len(), 20);
    let intent = validate(request(10, "d", ten)).unwrap();
    assert_eq!(intent.descricao(), ten);

    let eleven = "çãõéíáúâêôü";
    assert_eq!(eleven.chars().count(), 11);
    assert_eq!(
        validate(request(10, "d", eleven)),
        Err(ValidationFailure::InvalidDescriptionLength)
    );
}

#[test]
fn kind_is_checked_before_amount_and_description() {
    assert_eq!(validate(request(0, "x", "")), Err(ValidationFailure::InvalidKind));
    assert_eq!(validate(request(-5, "credit", "abcdefghijk")), Err(ValidationFailure::InvalidKind));
}

#[test]
fn amount_is_checked_before_description() {
    assert_eq!(validate(request(0, "c", "")), Err(ValidationFailure::NonPositiveAmount));
    assert_eq!(
        validate(request(-1, "d", "abcdefghijk")),
        Err(ValidationFailure::NonPositiveAmount)
    );
}

#[test]
fn each_error_has_its_reason() {
    assert_eq!(LedgerError::NotFound.reason(), "Id inválido");
    assert_eq!(
        LedgerError::ValidationRejected(ValidationFailure::InvalidKind).reason(),
        "Tipo inválido. Precisa ser \"c\" ou \"d\""
    );
    assert_eq!(
        LedgerError::ValidationRejected(ValidationFailure::NonPositiveAmount).reason(),
        "Valor deve ser positivo e maior do que zero"
    );
    assert_eq!(
        LedgerError::ValidationRejected(ValidationFailure::InvalidDescriptionLength).reason(),
        "Descrição precisa estar entre 1 e 10 caracteres."
    );
    assert_eq!(LedgerError::LimitExceeded.reason(), "erro");
    assert_eq!(LedgerError::BalanceOverflow.reason(), "Saldo fora do intervalo suportado");
}

#[test]
fn only_validation_errors_count_as_validation() {
    assert!(LedgerError::ValidationRejected(ValidationFailure::InvalidKind).is_validation());
    assert!(LedgerError::ValidationRejected(ValidationFailure::NonPositiveAmount).is_validation());
    assert!(
        LedgerError::ValidationRejected(ValidationFailure::InvalidDescriptionLength)
            .is_validation()
    );
    assert!(!LedgerError::NotFound.is_validation());
    assert!(!LedgerError::LimitExceeded.is_validation());
    assert!(!LedgerError::BalanceOverflow.is_validation());
}
