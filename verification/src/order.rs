//! The order in which rows come out when they are ranked by a key, largest
//! first: rows with the same key keep the order they had.

use vstd::prelude::*;

verus! {

/// How many entries at the head of `order` have a key of at least `key`.
pub open spec fn landing(keys: Seq<u128>, order: Seq<int>, key: u128) -> int
    decreases order.len(),
{
    if order.len() == 0 || keys[order.first()] < key {
        0
    } else {
        1 + landing(keys, order.drop_first(), key)
    }
}

/// The places of the first `n` keys, ranked: each key in turn goes behind
/// every key that is at least as large.
pub open spec fn descending_order_of(keys: Seq<u128>, n: nat) -> Seq<int>
    decreases n,
{
    if n == 0 {
        Seq::empty()
    } else {
        let earlier = descending_order_of(keys, (n - 1) as nat);
        earlier.insert(landing(keys, earlier, keys[n - 1]), n - 1)
    }
}

/// The places of `keys`, ranked by key, largest first.
pub open spec fn descending_order(keys: Seq<u128>) -> Seq<int> {
    descending_order_of(keys, keys.len())
}

/// Whether `order` lists each of the first `n` places of `keys` once, larger
/// keys before smaller ones and equal keys by place.
pub open spec fn ranks_first(keys: Seq<u128>, n: nat, order: Seq<int>) -> bool {
    &&& order.len() == n
    &&& forall|a: int| 0 <= a < order.len() ==> 0 <= #[trigger] order[a] < n
    &&& forall|place: int| 0 <= place < n ==> #[trigger] order.contains(place)
    &&& forall|a: int, b: int|
        0 <= a < b < order.len() ==> keys[#[trigger] order[a]] > keys[#[trigger] order[b]] || (
        keys[order[a]] == keys[order[b]] && order[a] < order[b])
}

/// `rows` in the order that `order` gives.
pub open spec fn arranged<T>(rows: Seq<T>, order: Seq<int>) -> Seq<T> {
    Seq::new(order.len(), |a: int| rows[order[a]])
}

/// The numbers in `order`.
pub open spec fn places(order: Seq<usize>) -> Seq<int> {
    Seq::new(order.len(), |a: int| order[a] as int)
}

/// How many rows a limit of `top` lets through out of `len`: five where no
/// limit is given, all of them where the limit is negative.
pub open spec fn limit(top: Option<i32>, len: nat) -> int {
    let asked = match top {
        Some(n) => n,
        None => 5,
    };
    if asked < 0 || asked > len {
        len as int
    } else {
        asked as int
    }
}

proof fn lemma_landing(keys: Seq<u128>, order: Seq<int>, key: u128)
    ensures
        0 <= landing(keys, order, key) <= order.len(),
        forall|a: int| 0 <= a < landing(keys, order, key) ==> keys[#[trigger] order[a]] >= key,
        landing(keys, order, key) < order.len() ==> keys[order[landing(keys, order, key)]] < key,
    decreases order.len(),
{
    if order.len() == 0 || keys[order.first()] < key {
    } else {
        let rest = order.drop_first();
        lemma_landing(keys, rest, key);
        let p = landing(keys, rest, key);
        assert forall|a: int| 0 <= a < p + 1 implies keys[#[trigger] order[a]] >= key by {
            if a > 0 {
                assert(order[a] == rest[a - 1]);
            }
        }
        if p + 1 < order.len() {
            assert(order[p + 1] == rest[p]);
        }
    }
}

/// The ranking lists every place once, larger keys first, equal keys in the
/// order they had.
pub proof fn lemma_descending_order_of(keys: Seq<u128>, n: nat)
    requires
        n <= keys.len(),
    ensures
        ranks_first(keys, n, descending_order_of(keys, n)),
    decreases n,
{
    if n > 0 {
        let earlier = descending_order_of(keys, (n - 1) as nat);
        lemma_descending_order_of(keys, (n - 1) as nat);
        let key = keys[n - 1];
        let p = landing(keys, earlier, key);
        lemma_landing(keys, earlier, key);
        let order = earlier.insert(p, n - 1);
        assert forall|place: int| 0 <= place < n implies #[trigger] order.contains(place) by {
            if place == n - 1 {
                assert(order[p] == place);
            } else {
                assert(earlier.contains(place));
                let a = choose|a: int| 0 <= a < earlier.len() && earlier[a] == place;
                if a < p {
                    assert(order[a] == place);
                } else {
                    assert(order[a + 1] == place);
                }
            }
        }
        assert forall|a: int, b: int| 0 <= a < b < order.len() implies keys[#[trigger] order[a]]
            > keys[#[trigger] order[b]] || (keys[order[a]] == keys[order[b]] && order[a]
            < order[b]) by {
            if b < p {
                assert(order[a] == earlier[a] && order[b] == earlier[b]);
            } else if b == p {
                assert(order[a] == earlier[a]);
            } else if a < p {
                assert(order[a] == earlier[a] && order[b] == earlier[b - 1]);
            } else if a == p {
                assert(order[b] == earlier[b - 1]);
                if p < b - 1 {
                    assert(keys[earlier[p]] >= keys[earlier[b - 1]]);
                }
            } else {
                assert(order[a] == earlier[a - 1] && order[b] == earlier[b - 1]);
            }
        }
    }
}

/// There is one ranking only: an order that lists the first `n` places once,
/// larger keys first and equal keys by place, is the ranking.
pub proof fn lemma_ranking_is_unique(keys: Seq<u128>, n: nat, order: Seq<int>)
    requires
        n <= keys.len(),
        ranks_first(keys, n, order),
    ensures
        order == descending_order_of(keys, n),
    decreases n,
{
    if n == 0 {
        assert(order =~= descending_order_of(keys, 0));
    } else {
        let newest = n - 1;
        assert(order.contains(newest));
        let p = choose|p: int| 0 <= p < order.len() && order[p] == newest;
        let rest = order.remove(p);
        assert forall|a: int| 0 <= a < rest.len() implies 0 <= #[trigger] rest[a] < newest by {
            let from = if a < p { a } else { a + 1 };
            assert(rest[a] == order[from]);
            if from < p {
                assert(keys[order[from]] > keys[order[p]] || order[from] < order[p]);
            } else {
                assert(keys[order[p]] > keys[order[from]] || order[p] < order[from]);
            }
        }
        assert forall|place: int| 0 <= place < newest implies #[trigger] rest.contains(place) by {
            assert(order.contains(place));
            let a = choose|a: int| 0 <= a < order.len() && order[a] == place;
            if a < p {
                assert(rest[a] == place);
            } else {
                assert(rest[a - 1] == place);
            }
        }
        assert forall|a: int, b: int| 0 <= a < b < rest.len() implies keys[#[trigger] rest[a]]
            > keys[#[trigger] rest[b]] || (keys[rest[a]] == keys[rest[b]] && rest[a]
            < rest[b]) by {
            let from_a = if a < p { a } else { a + 1 };
            let from_b = if b < p { b } else { b + 1 };
            assert(rest[a] == order[from_a] && rest[b] == order[from_b]);
        }
        lemma_ranking_is_unique(keys, newest as nat, rest);
        let key = keys[newest];
        lemma_landing(keys, rest, key);
        let landed = landing(keys, rest, key);
        if landed < p {
            assert(rest[landed] == order[landed]);
            assert(keys[order[landed]] > keys[order[p]] || (keys[order[landed]] == keys[order[p]]
                && order[landed] < order[p]));
        } else if landed > p {
            assert(rest[p] == order[p + 1]);
            assert(keys[order[p]] > keys[order[p + 1]] || (keys[order[p]] == keys[order[p + 1]]
                && order[p] < order[p + 1]));
            assert(rest[p] < newest);
        }
        assert(order =~= rest.insert(p, newest));
    }
}

/// The ranking of `keys` lists every place once, larger keys first, equal
/// keys in the order they had.
pub proof fn lemma_descending_order(keys: Seq<u128>)
    ensures
        ranks_first(keys, keys.len(), descending_order(keys)),
{
    lemma_descending_order_of(keys, keys.len());
}

/// Ranks the places of `keys` by key, largest first, equal keys in the order
/// they have.
pub fn rank_descending(keys: &Vec<u128>) -> (order: Vec<usize>)
    ensures
        places(order@) == descending_order(keys@),
        order.len() == keys.len(),
        forall|a: int| 0 <= a < order.len() ==> #[trigger] order[a] < keys.len(),
{
    let mut order: Vec<usize> = Vec::new();
    let mut n: usize = 0;
    assert(places(order@) =~= descending_order_of(keys@, 0));
    while n < keys.len()
        invariant
            n <= keys.len(),
            places(order@) == descending_order_of(keys@, n as nat),
            ranks_first(keys@, n as nat, places(order@)),
        decreases keys.len() - n,
    {
        let key: u128 = keys[n];
        let ghost earlier = places(order@);
        let mut p: usize = 0;
        assert(earlier.skip(0) =~= earlier);
        while p < order.len() && keys[order[p]] >= key
            invariant
                n < keys.len(),
                p <= order.len(),
                earlier == places(order@),
                ranks_first(keys@, n as nat, earlier),
                landing(keys@, earlier, key) == p + landing(keys@, earlier.skip(p as int), key),
            decreases order.len() - p,
        {
            proof {
                assert(earlier[p as int] == order[p as int]);
                assert(earlier.skip(p as int).first() == earlier[p as int]);
                assert(earlier.skip(p as int).drop_first() =~= earlier.skip(p + 1));
            }
            p += 1;
        }
        proof {
            if p < order.len() {
                assert(earlier[p as int] == order[p as int]);
                assert(earlier.skip(p as int).first() == earlier[p as int]);
            }
            assert(landing(keys@, earlier, key) == p);
            lemma_descending_order_of(keys@, (n + 1) as nat);
        }
        order.insert(p, n);
        assert(places(order@) =~= earlier.insert(p as int, n as int));
        n += 1;
    }
    proof {
        assert forall|a: int| 0 <= a < order.len() implies #[trigger] order[a] < keys.len() by {
            assert(places(order@)[a] == order[a]);
        }
    }
    order
}

} // verus!
