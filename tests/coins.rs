use one_core::{Coin, Coins, Error};

fn coin(amount: u128, denom: &str) -> Coin {
    Coin::new(amount, denom)
}

#[test]
fn adding() {
    let mut coins = Coins::empty();

    coins.add(coin(12345, "umars")).unwrap();
    coins.add(coin(23456, "uastro")).unwrap();
    coins.add(coin(34567, "uosmo")).unwrap();
    coins.add(coin(88888, "umars")).unwrap();

    let vec: Vec<Coin> = coins.to_vec();

    assert_eq!(
        vec,
        vec![coin(23456, "uastro"), coin(12345 + 88888, "umars"), coin(34567, "uosmo")],
    );
}

#[test]
fn comparing() {
    let coins1 = Coins::from_coins(vec![
        coin(23456, "uastro"),
        coin(88888, "umars"),
        coin(34567, "uosmo"),
    ]).unwrap();

    let mut coins2 = Coins::from_coins(coins1.to_vec()).unwrap();
    assert_eq!(coins1, coins2);

    coins2.add(coin(1, "umars")).unwrap();
    assert_ne!(coins1, coins2);
}

#[test]
fn adding_overflow_keeps_ledger() {
    let mut coins = Coins::empty();
    coins.add(coin(u128::MAX, "uatom")).unwrap();
    let err = coins.add(coin(1, "uatom")).unwrap_err();
    assert_eq!(err, Error::Overflow);
    assert_eq!(coins.to_vec(), vec![coin(u128::MAX, "uatom")]);
}

#[test]
fn empty_ledger() {
    let coins = Coins::empty();
    assert!(coins.is_empty());
    assert_eq!(coins.len(), 0);
    assert_eq!(coins, Coins::from_coins(vec![]).unwrap());
}

#[test]
fn ledger_order_is_independent_of_insertion_order() {
    let a = Coins::from_coins(vec![coin(1, "b"), coin(2, "a"), coin(3, "c")]).unwrap();
    let b = Coins::from_coins(vec![coin(3, "c"), coin(1, "b"), coin(2, "a")]).unwrap();
    assert_eq!(a, b);
    assert_eq!(a.to_vec(), vec![coin(2, "a"), coin(1, "b"), coin(3, "c")]);
}

#[test]
fn from_coins_adds_up_repeated_denom() {
    let a = Coins::from_coins(vec![coin(1, "uatom"), coin(5, "uatom")]).unwrap();
    assert_eq!(a.to_vec(), vec![coin(6, "uatom")]);
}

#[test]
fn from_coins_reports_overflow() {
    let err = Coins::from_coins(vec![coin(u128::MAX, "uatom"), coin(1, "uosmo"), coin(1, "uatom")])
        .unwrap_err();
    assert_eq!(err, Error::Overflow);
}

#[test]
fn ledger_text() {
    assert_eq!(Coins::empty().to_text(), "[]");
    let coins = Coins::from_coins(vec![coin(23456, "uosmo"), coin(12345, "uatom")]).unwrap();
    assert_eq!(coins.to_text(), "12345uatom,23456uosmo");
    let one = Coins::from_coins(vec![coin(0, "ujuno")]).unwrap();
    assert_eq!(one.to_text(), "0ujuno");
}
