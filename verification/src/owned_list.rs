//! What the linked items of an account mean: the sequence of kitties that the
//! account owns, in the order in which they were appended.
use vstd::prelude::*;
use crate::kitties::{KittyLinkedItem, OwnedKey, appended, empty_item, read_item, removed};
use crate::storage::map_get;

verus! {

/// The neighbour before position `i` of `s`; `None` (the head) for the first.
pub open spec fn prev_in(s: Seq<u32>, i: int) -> Option<u32> {
    if i == 0 {
        None
    } else {
        Some(s[i - 1])
    }
}

/// The neighbour after position `i` of `s`; `None` (the head) for the last.
pub open spec fn next_in(s: Seq<u32>, i: int) -> Option<u32> {
    if i + 1 >= s.len() {
        None
    } else {
        Some(s[i + 1])
    }
}

/// The head of the list `s`: its last and its first kitty.
pub open spec fn head_of(s: Seq<u32>) -> KittyLinkedItem {
    if s.len() == 0 {
        empty_item()
    } else {
        KittyLinkedItem { prev: Some(s.last()), next: Some(s[0]) }
    }
}

/// The node of position `i` of the list `s`.
pub open spec fn node_of(s: Seq<u32>, i: int) -> KittyLinkedItem {
    KittyLinkedItem { prev: prev_in(s, i), next: next_in(s, i) }
}

/// `m` holds, for `account`, exactly the list `s` of distinct kitties.
pub open spec fn holds_list(m: Map<OwnedKey, KittyLinkedItem>, account: u64, s: Seq<u32>) -> bool {
    &&& s.no_duplicates()
    &&& read_item(m, account, None) == head_of(s)
    &&& forall|i: int|
        #![trigger s[i]]
        0 <= i < s.len() ==> m.dom().contains((account, Some(s[i]))) && m[(account, Some(s[i]))]
            == node_of(s, i)
    &&& forall|k: u32| #[trigger] m.dom().contains((account, Some(k))) ==> s.contains(k)
}

/// Storage that holds nothing holds the empty list for every account.
pub proof fn lemma_empty_storage_holds_empty_list(account: u64)
    ensures
        holds_list(Map::<OwnedKey, KittyLinkedItem>::empty(), account, Seq::<u32>::empty()),
{
}

/// The list of an account depends on that account's keys alone.
pub proof fn lemma_list_depends_on_own_keys(
    m1: Map<OwnedKey, KittyLinkedItem>,
    m2: Map<OwnedKey, KittyLinkedItem>,
    account: u64,
    s: Seq<u32>,
)
    requires
        holds_list(m1, account, s),
        forall|k: Option<u32>| #[trigger] map_get(m1, (account, k)) == map_get(m2, (account, k)),
    ensures
        holds_list(m2, account, s),
{
    assert(map_get(m1, (account, None)) == map_get(m2, (account, None)));
    assert forall|i: int| 0 <= i < s.len() implies m2.dom().contains((account, Some(s[i])))
        && m2[(account, Some(s[i]))] == node_of(s, i) by {
        assert(map_get(m1, (account, Some(s[i]))) == map_get(m2, (account, Some(s[i]))));
    }
    assert forall|k: u32| #[trigger] m2.dom().contains((account, Some(k))) implies s.contains(k) by {
        assert(map_get(m1, (account, Some(k))) == map_get(m2, (account, Some(k))));
    }
}

/// Appending a kitty that an account's list does not hold puts it at the end
/// of that list.
pub proof fn lemma_append_extends_list(
    m: Map<OwnedKey, KittyLinkedItem>,
    account: u64,
    s: Seq<u32>,
    kitty_id: u32,
)
    requires
        holds_list(m, account, s),
        !s.contains(kitty_id),
    ensures
        holds_list(appended(m, account, kitty_id), account, s.push(kitty_id)),
{
    let a = account;
    let s2 = s.push(kitty_id);
    let r = appended(m, a, kitty_id);
    let n = s.len() as int;
    assert(s2.len() == n + 1);
    assert(s2[n] == kitty_id);
    assert forall|i: int| 0 <= i < n implies s2[i] == s[i] by {}
    if n == 0 {
        assert(r[(a, None)] == KittyLinkedItem { prev: Some(kitty_id), next: Some(kitty_id) });
        assert(r[(a, Some(kitty_id))] == empty_item());
        assert forall|k: u32| #[trigger] r.dom().contains((a, Some(k))) implies s2.contains(k) by {
            if k != kitty_id {
                assert(m.dom().contains((a, Some(k))));
            } else {
                assert(s2[0] == k);
            }
        }
    } else {
        let t = s[n - 1];
        assert(s.contains(t));
        assert(t != kitty_id);
        assert(m.dom().contains((a, Some(t))));
        assert(r[(a, None)] == head_of(s2));
        assert(r[(a, Some(kitty_id))] == node_of(s2, n));
        assert(r[(a, Some(t))] == node_of(s2, n - 1));
        assert forall|i: int| #![trigger s2[i]] 0 <= i < s2.len() implies r.dom().contains(
            (a, Some(s2[i])),
        ) && r[(a, Some(s2[i]))] == node_of(s2, i) by {
            if i < n - 1 {
                assert(s[i] == s2[i]);
                assert(s[i] != t);
                assert(s.contains(s[i]));
                assert(s[i] != kitty_id);
                assert(m[(a, Some(s[i]))] == node_of(s, i));
            }
        }
        assert forall|k: u32| #[trigger] r.dom().contains((a, Some(k))) implies s2.contains(k) by {
            if k != kitty_id && k != t {
                assert(m.dom().contains((a, Some(k))));
                let i = choose|i: int| 0 <= i < s.len() && s[i] == k;
                assert(s2[i] == k);
            } else if k == kitty_id {
                assert(s2[n] == k);
            } else {
                assert(s2[n - 1] == k);
            }
        }
    }
    assert forall|i: int, j: int| 0 <= i < s2.len() && 0 <= j < s2.len() && i != j implies s2[i]
        != s2[j] by {
        if i == n {
            assert(s[j] == s2[j]);
        } else if j == n {
            assert(s[i] == s2[i]);
        }
    }
}

proof fn lemma_lists_agree_at(
    m: Map<OwnedKey, KittyLinkedItem>,
    account: u64,
    s1: Seq<u32>,
    s2: Seq<u32>,
    i: int,
)
    requires
        holds_list(m, account, s1),
        holds_list(m, account, s2),
        0 <= i < s1.len(),
        i < s2.len(),
    ensures
        s1[i] == s2[i],
    decreases i,
{
    if i > 0 {
        lemma_lists_agree_at(m, account, s1, s2, i - 1);
        assert(m[(account, Some(s1[i - 1]))] == node_of(s1, i - 1));
        assert(m[(account, Some(s2[i - 1]))] == node_of(s2, i - 1));
    }
}

proof fn lemma_list_not_shorter(m: Map<OwnedKey, KittyLinkedItem>, account: u64, s1: Seq<u32>, s2: Seq<u32>)
    requires
        holds_list(m, account, s1),
        holds_list(m, account, s2),
    ensures
        s1.len() >= s2.len(),
{
    let n = s1.len() as int;
    if n < s2.len() && n > 0 {
        lemma_lists_agree_at(m, account, s1, s2, n - 1);
        assert(m[(account, Some(s1[n - 1]))] == node_of(s1, n - 1));
        assert(m[(account, Some(s2[n - 1]))] == node_of(s2, n - 1));
    }
}

/// The storage determines an account's list: two lists that it holds for the
/// same account are the same.
pub proof fn lemma_list_is_unique(m: Map<OwnedKey, KittyLinkedItem>, account: u64, s1: Seq<u32>, s2: Seq<u32>)
    requires
        holds_list(m, account, s1),
        holds_list(m, account, s2),
    ensures
        s1 == s2,
{
    lemma_list_not_shorter(m, account, s1, s2);
    lemma_list_not_shorter(m, account, s2, s1);
    assert forall|i: int| 0 <= i < s1.len() implies s1[i] == s2[i] by {
        lemma_lists_agree_at(m, account, s1, s2, i);
    }
    assert(s1 =~= s2);
}

/// Appending to one account's list leaves every other account's keys as they were.
pub proof fn lemma_append_keeps_other_accounts(
    m: Map<OwnedKey, KittyLinkedItem>,
    account: u64,
    kitty_id: u32,
    other: u64,
)
    requires
        other != account,
    ensures
        forall|k: Option<u32>| #[trigger]
            map_get(appended(m, account, kitty_id), (other, k)) == map_get(m, (other, k)),
{
}

/// Removing from one account's list leaves every other account's keys as they were.
pub proof fn lemma_remove_keeps_other_accounts(
    m: Map<OwnedKey, KittyLinkedItem>,
    account: u64,
    kitty_id: u32,
    other: u64,
)
    requires
        other != account,
    ensures
        forall|k: Option<u32>| #[trigger]
            map_get(removed(m, account, kitty_id), (other, k)) == map_get(m, (other, k)),
{
}

/// Transferring the kitty at position `j` of `from`'s list to another account
/// that does not hold it takes it out of `from`'s list and puts it at the end
/// of `to`'s.
pub proof fn lemma_transfer_moves_kitty(
    m: Map<OwnedKey, KittyLinkedItem>,
    from: u64,
    to: u64,
    s_from: Seq<u32>,
    s_to: Seq<u32>,
    j: int,
)
    requires
        from != to,
        holds_list(m, from, s_from),
        holds_list(m, to, s_to),
        0 <= j < s_from.len(),
        !s_to.contains(s_from[j]),
    ensures
        holds_list(appended(removed(m, from, s_from[j]), to, s_from[j]), from, s_from.remove(j)),
        holds_list(appended(removed(m, from, s_from[j]), to, s_from[j]), to, s_to.push(s_from[j])),
{
    let id = s_from[j];
    let m1 = removed(m, from, id);
    let m2 = appended(m1, to, id);
    lemma_remove_shrinks_list(m, from, s_from, j);
    lemma_remove_keeps_other_accounts(m, from, id, to);
    lemma_list_depends_on_own_keys(m, m1, to, s_to);
    lemma_append_extends_list(m1, to, s_to, id);
    lemma_append_keeps_other_accounts(m1, to, id, from);
    lemma_list_depends_on_own_keys(m1, m2, from, s_from.remove(j));
}

/// Removing a kitty that is not on an account's list changes nothing.
pub proof fn lemma_remove_absent_is_noop(
    m: Map<OwnedKey, KittyLinkedItem>,
    account: u64,
    s: Seq<u32>,
    kitty_id: u32,
)
    requires
        holds_list(m, account, s),
        !s.contains(kitty_id),
    ensures
        removed(m, account, kitty_id) == m,
{
}

/// Removing the kitty at position `j` of an account's list leaves the list
/// without it, the others in the same order.
pub proof fn lemma_remove_shrinks_list(
    m: Map<OwnedKey, KittyLinkedItem>,
    account: u64,
    s: Seq<u32>,
    j: int,
)
    requires
        holds_list(m, account, s),
        0 <= j < s.len(),
    ensures
        holds_list(removed(m, account, s[j]), account, s.remove(j)),
{
    let a = account;
    let id = s[j];
    let n = s.len() as int;
    let s2 = s.remove(j);
    let r = removed(m, a, id);
    s.remove_ensures(j);
    assert(m.dom().contains((a, Some(id))));
    assert(m[(a, Some(id))] == node_of(s, j));
    // entries that the removal does not touch keep their nodes
    assert forall|i: int| #![trigger s2[i]]
        0 <= i < s2.len() && (i < j - 1 || i > j) implies r.dom().contains((a, Some(s2[i])))
        && r[(a, Some(s2[i]))] == node_of(s2, i) by {
        let i0 = if i < j {
            i
        } else {
            i + 1
        };
        assert(s2[i] == s[i0]);
        assert(s[i0] != id);
        if j > 0 {
            assert(s[i0] != s[j - 1]);
        }
        if j + 1 < n {
            assert(s[i0] != s[j + 1]);
        }
        assert(m[(a, Some(s[i0]))] == node_of(s, i0));
    }
    if n == 1 {
        assert(r[(a, None)] == empty_item());
    } else if j == 0 {
        assert(s[1] != id);
        assert(m[(a, Some(s[1]))] == node_of(s, 1));
        assert(r[(a, None)] == head_of(s2));
        assert(r[(a, Some(s2[0]))] == node_of(s2, 0));
    } else if j == n - 1 {
        assert(s[n - 2] != id);
        assert(m[(a, Some(s[n - 2]))] == node_of(s, n - 2));
        assert(r[(a, None)] == head_of(s2));
        assert(r[(a, Some(s2[n - 2]))] == node_of(s2, n - 2));
    } else {
        assert(s[j - 1] != id);
        assert(s[j + 1] != id);
        assert(s[j + 1] != s[j - 1]);
        assert(m[(a, Some(s[j - 1]))] == node_of(s, j - 1));
        assert(m[(a, Some(s[j + 1]))] == node_of(s, j + 1));
        assert(r[(a, None)] == head_of(s2));
        assert(r[(a, Some(s2[j - 1]))] == node_of(s2, j - 1));
        assert(r[(a, Some(s2[j]))] == node_of(s2, j));
    }
    assert forall|k: u32| #[trigger] r.dom().contains((a, Some(k))) implies s2.contains(k) by {
        assert(m.dom().contains((a, Some(k))));
        assert(k != id);
        let i = choose|i: int| 0 <= i < s.len() && s[i] == k;
        if i < j {
            assert(s2[i] == k);
        } else {
            assert(s2[i - 1] == k);
        }
    }
    assert forall|x: int, y: int| 0 <= x < s2.len() && 0 <= y < s2.len() && x != y implies s2[x]
        != s2[y] by {
        let x0 = if x < j {
            x
        } else {
            x + 1
        };
        let y0 = if y < j {
            y
        } else {
            y + 1
        };
        assert(s2[x] == s[x0]);
        assert(s2[y] == s[y0]);
    }
}

} // verus!
