use chrono::{DateTime, NaiveDateTime};
use ledger::client::STATEMENT_LEN;
use ledger::error::LedgerError;
use ledger::state::{client_balance, client_balance_at, client_transaction_at, ApiState};
use ledger::transaction::{Kind, TransactionRequest};

fn ask(valor: i64, tipo: &str, descricao: &str) -> TransactionRequest {
    TransactionRequest { valor, tipo: tipo.to_string(), descricao: descricao.to_string() }
}

fn instant(secs: i64) -> NaiveDateTime {
    DateTime::from_timestamp(secs, 0).unwrap().naive_utc()
}

#[test]
fn statement_of_unknown_account_is_not_found() {
    let state = ApiState::new();
    assert_eq!(client_balance(&state, 999), Err(LedgerError::NotFound));
    assert_eq!(client_balance_at(&state, 999, instant(1)), Err(LedgerError::NotFound));
    assert_eq!(client_balance(&state, 0), Err(LedgerError::NotFound));
}

#[test]
fn statement_of_a_fresh_account_is_empty() {
    let state = ApiState::new();
    let resp = client_balance_at(&state, 4, instant(42)).unwrap();
    assert_eq!(resp.saldo.total, 0);
    assert_eq!(resp.saldo.limite, 10_000_000);
    assert_eq!(resp.saldo.data_extrato, instant(42));
    assert!(resp.ultimas_transacoes.is_empty());
}

#[test]
fn statement_shows_the_new_transaction_and_the_new_balance() {
    let mut state = ApiState::new();
    let ok = client_transaction_at(&mut state, 1, ask(1000, "c", "dep"), instant(10)).unwrap();
    let resp = client_balance_at(&state, 1, instant(11)).unwrap();
    assert_eq!(resp.saldo.total, ok.saldo);
    assert_eq!(resp.saldo.total, 1000);
    assert_eq!(resp.saldo.limite, ok.limite);
    assert_eq!(resp.ultimas_transacoes.len(), 1);
    let shown = &resp.ultimas_transacoes[0];
    assert_eq!(shown.valor, 1000);
    assert_eq!(shown.tipo, Kind::Credit);
    assert_eq!(shown.descricao, "dep");
    assert_eq!(shown.realizada_em, instant(10));
}

#[test]
fn eleven_credits_show_the_last_ten_most_recent_first() {
    let mut state = ApiState::new();
    for i in 1..=11 {
        let text = format!("n{}", i);
        let r = client_transaction_at(&mut state, 1, ask(1, "c", &text), instant(i));
        assert_eq!(r.unwrap().saldo, i);
    }
    let resp = client_balance_at(&state, 1, instant(100)).unwrap();
    assert_eq!(resp.saldo.total, 11);
    assert_eq!(resp.ultimas_transacoes.len(), 10);
    let texts: Vec<&str> = resp.ultimas_transacoes.iter().map(|t| t.descricao.as_str()).collect();
    assert_eq!(texts, vec!["n11", "n10", "n9", "n8", "n7", "n6", "n5", "n4", "n3", "n2"]);
    let moments: Vec<NaiveDateTime> =
        resp.ultimas_transacoes.iter().map(|t| t.realizada_em).collect();
    let expected: Vec<NaiveDateTime> = (2..=11).rev().map(instant).collect();
    assert_eq!(moments, expected);
    assert_eq!(state.lookup(1).unwrap().transacoes().len(), 11);
}

#[test]
fn statement_never_shows_more_than_were_applied() {
    let mut state = ApiState::new();
    assert_eq!(STATEMENT_LEN, 10);
    for n in 1..=12usize {
        client_transaction_at(&mut state, 2, ask(n as i64, "c", "step"), instant(n as i64))
            .unwrap();
        let resp = client_balance_at(&state, 2, instant(50)).unwrap();
        assert_eq!(resp.ultimas_transacoes.len(), n.min(10));
        assert_eq!(resp.ultimas_transacoes[0].valor, n as i64);
        let oldest = resp.ultimas_transacoes.last().unwrap().valor;
        assert_eq!(oldest, if n <= 10 { 1 } else { n as i64 - 9 });
    }
}

#[test]
fn exactly_ten_transactions_are_all_shown() {
    let mut state = ApiState::new();
    for i in 1..=10 {
        client_transaction_at(&mut state, 5, ask(i, "d", "ten"), instant(i)).unwrap();
    }
    let resp = client_balance_at(&state, 5, instant(11)).unwrap();
    assert_eq!(resp.saldo.total, -55);
    let amounts: Vec<i64> = resp.ultimas_transacoes.iter().map(|t| t.valor).collect();
    assert_eq!(amounts, vec![10, 9, 8, 7, 6, 5, 4, 3, 2, 1]);
}

#[test]
fn refused_requests_leave_no_trace_in_the_statement() {
    let mut state = ApiState::new();
    client_transaction_at(&mut state, 2, ask(100, "d", "ok"), instant(1)).unwrap();
    let before = client_balance_at(&state, 2, instant(9)).unwrap();
    assert!(client_transaction_at(&mut state, 2, ask(80_000, "d", "over"), instant(2)).is_err());
    assert!(client_transaction_at(&mut state, 2, ask(5, "z", "kind"), instant(3)).is_err());
    assert!(client_transaction_at(&mut state, 2, ask(0, "c", "zero"), instant(4)).is_err());
    assert!(client_transaction_at(&mut state, 2, ask(5, "c", ""), instant(5)).is_err());
    let after = client_balance_at(&state, 2, instant(9)).unwrap();
    assert_eq!(before, after);
    assert_eq!(after.saldo.total, -100);
    assert_eq!(after.ultimas_transacoes.len(), 1);
}

#[test]
fn statement_does_not_change_the_ledger() {
    let mut state = ApiState::new();
    client_transaction_at(&mut state, 3, ask(9, "c", "seed"), instant(1)).unwrap();
    let before = state.clone();
    let first = client_balance_at(&state, 3, instant(7)).unwrap();
    let second = client_balance_at(&state, 3, instant(7)).unwrap();
    assert_eq!(first, second);
    assert_eq!(state, before);
}

#[test]
fn statement_is_dated_with_the_time_of_the_read() {
    let mut state = ApiState::new();
    client_transaction_at(&mut state, 1, ask(1, "c", "old"), instant(1_000)).unwrap();
    let earliest = chrono::Utc::now().naive_utc();
    let resp = client_balance(&state, 1).unwrap();
    let latest = chrono::Utc::now().naive_utc();
    assert!(earliest <= resp.saldo.data_extrato);
    assert!(resp.saldo.data_extrato <= latest);
    assert_eq!(resp.ultimas_transacoes[0].realizada_em, instant(1_000));
    assert_eq!(resp.saldo.total, 1);
    assert_eq!(resp.saldo.limite, 100_000);
}

#[test]
fn account_shows_its_latest_transactions() {
    let mut state = ApiState::new();
    for i in 1..=3 {
        client_transaction_at(&mut state, 4, ask(i * 10, "c", "x"), instant(i)).unwrap();
    }
    let account = state.lookup(4).unwrap();
    let amounts: Vec<i64> = account.latest().iter().map(|t| t.valor).collect();
    assert_eq!(amounts, vec![30, 20, 10]);
}
