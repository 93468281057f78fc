//! An ERC-20 style token contract: a fixed supply minted to its creator,
//! balances that callers transfer, and allowances that callers approve.
use vstd::prelude::*;
use crate::storage::{StorageMap, StoreKey};

verus! {

/// An account of the contract's chain: 32 bytes.
#[derive(Clone, Copy, Debug, PartialEq, Eq)]
pub struct AccountId(pub [u8; 32]);

impl View for AccountId {
    type V = Seq<u8>;

    open spec fn view(&self) -> Seq<u8> {
        self.0@
    }
}

impl From<[u8; 32]> for AccountId {
    fn from(bytes: [u8; 32]) -> (r: Self) {
        AccountId(bytes)
    }
}

impl vstd::std_specs::convert::FromSpecImpl<[u8; 32]> for AccountId {
    open spec fn obeys_from_spec() -> bool {
        true
    }

    open spec fn from_spec(bytes: [u8; 32]) -> AccountId {
        AccountId(bytes)
    }
}

impl StoreKey for AccountId {
    fn same_key(&self, other: &Self) -> (b: bool) {
        let mut i: usize = 0;
        while i < 32
            invariant
                0 <= i <= 32,
                self@.len() == 32,
                other@.len() == 32,
                forall|j: int| 0 <= j < i ==> self@[j] == other@[j],
            decreases 32 - i,
        {
            if self.0[i] != other.0[i] {
                return false;
            }
            i = i + 1;
        }
        assert(self@ =~= other@);
        true
    }

    fn copy_key(&self) -> (k: Self) {
        *self
    }
}

impl StoreKey for (AccountId, AccountId) {
    fn same_key(&self, other: &Self) -> (b: bool) {
        self.0.same_key(&other.0) && self.1.same_key(&other.1)
    }

    fn copy_key(&self) -> (k: Self) {
        (self.0, self.1)
    }
}

/// What the contract reports of the calls that move or approve tokens.
#[derive(Clone, Copy, Debug, PartialEq, Eq)]
pub enum Event {
    /// Tokens went from one account (none when minted) to another.
    Transfer { from: Option<AccountId>, to: Option<AccountId>, value: u128 },
    /// An approver approved an amount for a user.
    Approve { approver: Option<AccountId>, user: Option<AccountId>, amount: u128 },
}

/// The sum of the values of a finite map.
pub open spec fn map_total<K>(m: Map<K, u128>) -> int
    decreases m.dom().len(),
    when m.dom().finite()
{
    if m.dom().len() == 0 {
        0
    } else {
        let k = m.dom().choose();
        m[k] + map_total(m.remove(k))
    }
}

/// The sum of a finite map is any one value plus the sum of the others.
pub proof fn lemma_map_total_split<K>(m: Map<K, u128>, k: K)
    requires
        m.dom().finite(),
        m.dom().contains(k),
    ensures
        map_total(m) == m[k] + map_total(m.remove(k)),
    decreases m.dom().len(),
{
    let c = m.dom().choose();
    if c != k {
        let mc = m.remove(c);
        let mk = m.remove(k);
        lemma_map_total_split(mc, k);
        lemma_map_total_split(mk, c);
        assert(mc.remove(k) =~= mk.remove(c));
    }
}

/// Putting `v` under `k` changes the sum by `v` less what `k` held.
pub proof fn lemma_map_total_insert<K>(m: Map<K, u128>, k: K, v: u128)
    requires
        m.dom().finite(),
    ensures
        map_total(m.insert(k, v)) == map_total(m) - (if m.dom().contains(k) {
            m[k] as int
        } else {
            0
        }) + v,
{
    let m2 = m.insert(k, v);
    lemma_map_total_split(m2, k);
    assert(m2.remove(k) =~= m.remove(k));
    if m.dom().contains(k) {
        lemma_map_total_split(m, k);
    } else {
        assert(m.remove(k) =~= m);
    }
}

/// The balance of `owner` in `m`; zero where there is none.
pub open spec fn balance_in(m: Map<Seq<u8>, u128>, owner: Seq<u8>) -> u128 {
    if m.dom().contains(owner) {
        m[owner]
    } else {
        0
    }
}

/// The amount approved from `approver` to `user` in `m`; zero where there is none.
pub open spec fn allowance_in(m: Map<(Seq<u8>, Seq<u8>), u128>, approver: Seq<u8>, user: Seq<u8>) -> u128 {
    if m.dom().contains((approver, user)) {
        m[(approver, user)]
    } else {
        0
    }
}

/// The contract's storage.
pub struct Erc20 {
    total_supply: u128,
    balances: StorageMap<AccountId, u128>,
    allowance: StorageMap<(AccountId, AccountId), u128>,
    events: Vec<Event>,
}

impl Erc20 {
    pub closed spec fn wf(&self) -> bool {
        self.balances.wf() && self.allowance.wf()
    }

    /// The number of tokens minted.
    pub closed spec fn supply(&self) -> u128 {
        self.total_supply
    }

    /// The balance of each account that has one.
    pub closed spec fn balances_map(&self) -> Map<Seq<u8>, u128> {
        self.balances@
    }

    /// The amount each approver approved for each user.
    pub closed spec fn allowances_map(&self) -> Map<(Seq<u8>, Seq<u8>), u128> {
        self.allowance@
    }

    /// The events emitted so far, oldest first.
    pub closed spec fn event_log(&self) -> Seq<Event> {
        self.events@
    }

    /// The sum of all balances.
    pub open spec fn total_balance(&self) -> int {
        map_total(self.balances_map())
    }

    /// The balance of `owner`, zero where it has none.
    pub open spec fn balance(&self, owner: AccountId) -> u128 {
        balance_in(self.balances_map(), owner@)
    }

    /// The contract created by `caller` with `initial_supply` tokens, all of
    /// them the caller's.
    pub fn mint(caller: AccountId, initial_supply: u128) -> (r: Self)
        ensures
            r.wf(),
            r.supply() == initial_supply,
            r.balances_map() == Map::<Seq<u8>, u128>::empty().insert(caller@, initial_supply),
            r.allowances_map() == Map::<(Seq<u8>, Seq<u8>), u128>::empty(),
            r.event_log() == seq![Event::Transfer { from: None, to: Some(caller), value: initial_supply }],
            r.total_balance() == r.supply(),
    {
        let mut balances = StorageMap::new();
        balances.insert(caller, initial_supply);
        let mut events = Vec::new();
        events.push(Event::Transfer { from: None, to: Some(caller), value: initial_supply });
        proof {
            lemma_map_total_insert(Map::<Seq<u8>, u128>::empty(), caller@, initial_supply);
            assert(map_total(Map::<Seq<u8>, u128>::empty()) == 0);
        }
        Erc20 { total_supply: initial_supply, balances, allowance: StorageMap::new(), events }
    }

    /// The number of tokens minted.
    pub fn total_supply(&self) -> (r: u128)
        ensures
            r == self.supply(),
    {
        self.total_supply
    }

    /// The balance of `owner`.
    pub fn balance_of(&self, owner: AccountId) -> (r: u128)
        requires
            self.wf(),
        ensures
            r == self.balance(owner),
    {
        self.balance_of_or_zero(&owner)
    }

    /// The balance of `owner`, zero where it has none.
    pub fn balance_of_or_zero(&self, owner: &AccountId) -> (r: u128)
        requires
            self.wf(),
        ensures
            r == self.balance(*owner),
    {
        match self.balances.get(owner) {
            Some(b) => b,
            None => 0,
        }
    }

    /// Moves `value` tokens from `caller` to `to`; `false`, and nothing
    /// changes, where the caller has fewer. Both balances are read before
    /// either is written, so a transfer to oneself adds `value`.
    pub fn transfer(&mut self, caller: AccountId, to: AccountId, value: u128) -> (r: bool)
        requires
            old(self).wf(),
            old(self).balance(caller) >= value ==> old(self).balance(to) + value <= u128::MAX,
        ensures
            final(self).wf(),
            r == (old(self).balance(caller) >= value),
            !r ==> *final(self) == *old(self),
            r ==> {
                &&& final(self).supply() == old(self).supply()
                &&& final(self).balances_map() == old(self).balances_map().insert(
                    caller@,
                    (old(self).balance(caller) - value) as u128,
                ).insert(to@, (old(self).balance(to) + value) as u128)
                &&& final(self).allowances_map() == old(self).allowances_map()
                &&& final(self).event_log() == old(self).event_log().push(
                    Event::Transfer { from: Some(caller), to: Some(to), value },
                )
            },
            r && caller@ != to@ ==> final(self).total_balance() == old(self).total_balance(),
    {
        let from = caller;
        let from_balance = self.balance_of_or_zero(&from);
        if from_balance < value {
            return false;
        }
        let to_balance = self.balance_of_or_zero(&to);
        proof {
            let m0 = self.balances@;
            self.balances.lemma_finite();
            lemma_map_total_insert(m0, from@, (from_balance - value) as u128);
            lemma_map_total_insert(m0.insert(from@, (from_balance - value) as u128), to@, (to_balance + value) as u128);
        }
        self.balances.insert(from, from_balance - value);
        self.balances.insert(to, to_balance + value);
        self.events.push(Event::Transfer { from: Some(from), to: Some(to), value });
        true
    }

    /// Records an approval from `caller` to `user`: the pair (caller, user)
    /// gets the caller's balance less `amount`, and the pair (user, caller)
    /// gets the user's balance plus `amount`. `false`, and nothing changes,
    /// where the caller's balance is below `amount`. Balances do not change.
    pub fn approve(&mut self, caller: AccountId, user: AccountId, amount: u128) -> (r: bool)
        requires
            old(self).wf(),
            old(self).balance(caller) >= amount ==> old(self).balance(user) + amount <= u128::MAX,
        ensures
            final(self).wf(),
            r == (old(self).balance(caller) >= amount),
            !r ==> *final(self) == *old(self),
            r ==> {
                &&& final(self).supply() == old(self).supply()
                &&& final(self).balances_map() == old(self).balances_map()
                &&& final(self).allowances_map() == old(self).allowances_map().insert(
                    (caller@, user@),
                    (old(self).balance(caller) - amount) as u128,
                ).insert((user@, caller@), (old(self).balance(user) + amount) as u128)
                &&& final(self).event_log() == old(self).event_log().push(
                    Event::Approve { approver: Some(caller), user: Some(user), amount },
                )
            },
    {
        let approver = caller;
        let approver_balance = self.balance_of_or_zero(&approver);
        if approver_balance < amount {
            return false;
        }
        let user_balance = self.balance_of_or_zero(&user);
        self.allowance.insert((approver, user), approver_balance - amount);
        self.allowance.insert((user, approver), user_balance + amount);
        self.events.push(Event::Approve { approver: Some(approver), user: Some(user), amount });
        true
    }

    /// The amount that `caller` approved for `to`, zero where none was.
    pub fn approval(&self, caller: AccountId, to: AccountId) -> (r: u128)
        requires
            self.wf(),
        ensures
            r == allowance_in(self.allowances_map(), caller@, to@),
    {
        match self.allowance.get(&(caller, to)) {
            Some(a) => a,
            None => 0,
        }
    }

    /// The events emitted so far, oldest first.
    pub fn events(&self) -> (r: &Vec<Event>)
        ensures
            r@ == self.event_log(),
    {
        &self.events
    }
}

} // verus!
