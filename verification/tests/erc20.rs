use substrate_pallets::erc20::{AccountId, Erc20, Event};

fn default_caller() -> AccountId {
    AccountId::from([0x1; 32])
}

#[test]
fn mint_works() {
    let erc20 = Erc20::mint(default_caller(), 666);
    assert_eq!(erc20.total_supply(), 666);
}

#[test]
fn approve_works() {
    let caller = default_caller();
    let mut erc20 = Erc20::mint(caller, 100);
    assert!(erc20.transfer(caller, AccountId::from([0x1; 32]), 10));
    assert_eq!(erc20.balance_of(AccountId::from([0x1; 32])), 110);
    assert!(erc20.approve(caller, AccountId::from([0x2; 32]), 50));
    assert_eq!(erc20.balance_of(AccountId::from([0x1; 32])), 110);
    assert_eq!(erc20.approval(caller, AccountId::from([0x2; 32])), 60);
    assert_eq!(erc20.approval(caller, AccountId::from([0x0; 32])), 0);
    assert_eq!(erc20.approval(caller, AccountId::from([0x1; 32])), 0);
}

#[test]
fn mint_gives_the_supply_to_the_creator() {
    let a = AccountId::from([7; 32]);
    let erc20 = Erc20::mint(a, 500);
    assert_eq!(erc20.balance_of(a), 500);
    assert_eq!(erc20.balance_of(AccountId::from([8; 32])), 0);
    assert_eq!(erc20.events(), &vec![Event::Transfer { from: None, to: Some(a), value: 500 }]);
}

#[test]
fn transfer_between_two_accounts_keeps_the_supply() {
    let a = AccountId::from([1; 32]);
    let b = AccountId::from([2; 32]);
    let mut erc20 = Erc20::mint(a, 100);
    assert!(erc20.transfer(a, b, 30));
    assert_eq!(erc20.balance_of(a), 70);
    assert_eq!(erc20.balance_of(b), 30);
    assert_eq!(erc20.balance_of(a) + erc20.balance_of(b), erc20.total_supply());
    assert!(erc20.transfer(b, a, 30));
    assert_eq!(erc20.balance_of(a), 100);
    assert_eq!(erc20.balance_of(b), 0);
}

#[test]
fn transfer_beyond_the_balance_is_refused() {
    let a = AccountId::from([1; 32]);
    let b = AccountId::from([2; 32]);
    let mut erc20 = Erc20::mint(a, 10);
    assert!(!erc20.transfer(a, b, 11));
    assert!(!erc20.transfer(b, a, 1));
    assert_eq!(erc20.balance_of(a), 10);
    assert_eq!(erc20.balance_of(b), 0);
    assert_eq!(erc20.events().len(), 1);
    assert!(erc20.transfer(a, b, 10));
    assert_eq!(erc20.balance_of(a), 0);
}

#[test]
fn approve_beyond_the_balance_is_refused() {
    let a = AccountId::from([1; 32]);
    let b = AccountId::from([2; 32]);
    let mut erc20 = Erc20::mint(a, 10);
    assert!(!erc20.approve(a, b, 11));
    assert_eq!(erc20.approval(a, b), 0);
    assert!(erc20.approve(a, b, 4));
    assert_eq!(erc20.approval(a, b), 6);
    assert_eq!(erc20.approval(b, a), 4);
    assert_eq!(erc20.balance_of(a), 10);
    assert_eq!(
        erc20.events().last(),
        Some(&Event::Approve { approver: Some(a), user: Some(b), amount: 4 })
    );
}
