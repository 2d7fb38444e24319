use precrypt_server::balance::{balance_ge_one, check_ownership};
use precrypt_server::errors::AccessError;

fn b(s: &str) -> Vec<u8> {
    s.as_bytes().to_vec()
}

#[test]
fn whole_tokens_pass() {
    assert_eq!(balance_ge_one(&b("1")), Some(true));
    assert_eq!(balance_ge_one(&b("10")), Some(true));
    assert_eq!(balance_ge_one(&b("2.000")), Some(true));
    assert_eq!(balance_ge_one(&b("1.5")), Some(true));
    assert_eq!(balance_ge_one(&b("01")), Some(true));
}

#[test]
fn fractions_and_zero_fail() {
    assert_eq!(balance_ge_one(&b("0")), Some(false));
    assert_eq!(balance_ge_one(&b("0.5")), Some(false));
    assert_eq!(balance_ge_one(&b("0.999999")), Some(false));
    assert_eq!(balance_ge_one(&b("000.0")), Some(false));
}

#[test]
fn malformed_balances_are_rejected() {
    assert_eq!(balance_ge_one(&b("")), None);
    assert_eq!(balance_ge_one(&b("abc")), None);
    assert_eq!(balance_ge_one(&b("1e3")), None);
    assert_eq!(balance_ge_one(&b(".5")), None);
    assert_eq!(balance_ge_one(&b("5.")), None);
    assert_eq!(balance_ge_one(&b("1.2.3")), None);
    assert_eq!(balance_ge_one(&b("-1")), None);
    assert_eq!(balance_ge_one(&b(" 1")), None);
}

#[test]
fn ownership_needs_one_whole_token_somewhere() {
    assert_eq!(check_ownership(&Vec::new()), Ok(false));
    assert_eq!(check_ownership(&vec![b("0"), b("0.9")]), Ok(false));
    assert_eq!(check_ownership(&vec![b("0"), b("3.5")]), Ok(true));
    assert_eq!(check_ownership(&vec![b("1")]), Ok(true));
}

#[test]
fn one_malformed_balance_is_a_hard_failure() {
    assert_eq!(
        check_ownership(&vec![b("1"), b("x")]),
        Err(AccessError::MalformedBalance)
    );
}
