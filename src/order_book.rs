use vstd::prelude::*;
use std::collections::HashMap;
use crate::exchange::{Order, Pair};
use crate::message::{MessageId, Price};

verus! {

broadcast use vstd::std_specs::hash::group_hash_axioms;

/// Level `o` comes before a level at price `p`: in a book by rising price
/// (asks) a lower price does, in one by falling price (bids) a higher one.
pub open spec fn comes_before(o: Order, p: Price, rising: bool) -> bool {
    if rising {
        o.price < p
    } else {
        o.price > p
    }
}

/// How many leading levels of `s` come before price `p`.
pub open spec fn position(s: Seq<Order>, p: Price, rising: bool) -> int
    decreases s.len(),
{
    if s.len() == 0 {
        0
    } else if comes_before(s[0], p, rising) {
        1 + position(s.drop_first(), p, rising)
    } else {
        0
    }
}

/// The levels of `s` are strictly in order: by rising price for asks, by
/// falling price for bids.
pub open spec fn ordered(s: Seq<Order>, rising: bool) -> bool {
    forall|i: int, j: int|
        0 <= i < j < s.len() ==> comes_before(#[trigger] s[i], (#[trigger] s[j]).price, rising)
}

/// The first `position` levels come before `p`, and the next one does not.
proof fn lemma_position(s: Seq<Order>, p: Price, rising: bool)
    ensures
        0 <= position(s, p, rising) <= s.len(),
        forall|j: int| 0 <= j < position(s, p, rising) ==> comes_before(#[trigger] s[j], p, rising),
        position(s, p, rising) < s.len() ==> !comes_before(s[position(s, p, rising)], p, rising),
    decreases s.len(),
{
    if s.len() > 0 && comes_before(s[0], p, rising) {
        let t = s.drop_first();
        lemma_position(t, p, rising);
        assert forall|j: int| 0 <= j < position(s, p, rising) implies comes_before(#[trigger] s[j], p, rising) by {
            if j > 0 {
                assert(s[j] == t[j - 1]);
            }
        }
        if position(s, p, rising) < s.len() {
            assert(s[position(s, p, rising)] == t[position(t, p, rising)]);
        }
    }
}

/// An update keeps an ordered book ordered.
pub proof fn lemma_placed_ordered(s: Seq<Order>, o: Order, rising: bool)
    requires
        ordered(s, rising),
    ensures
        ordered(placed(s, o, rising), rising),
{
    lemma_position(s, o.price, rising);
    let i = position(s, o.price, rising);
    let rest = if i < s.len() && s[i].price == o.price {
        s.remove(i)
    } else {
        s
    };
    assert(ordered(rest, rising)) by {
        if i < s.len() && s[i].price == o.price {
            assert forall|a: int, b: int| 0 <= a < b < rest.len() implies comes_before(
                #[trigger] rest[a],
                (#[trigger] rest[b]).price,
                rising,
            ) by {
                let a2 = if a < i { a } else { a + 1 };
                let b2 = if b < i { b } else { b + 1 };
                assert(rest[a] == s[a2] && rest[b] == s[b2]);
            }
        }
    }
    assert forall|j: int| 0 <= j < i implies comes_before(#[trigger] rest[j], o.price, rising) by {
        assert(rest[j] == s[j]);
    }
    assert forall|j: int| i <= j < rest.len() implies comes_before(o, (#[trigger] rest[j]).price, rising) by {
        if i < s.len() && s[i].price == o.price {
            assert(rest[j] == s[j + 1]);
            assert(comes_before(s[i], s[j + 1].price, rising));
        } else {
            assert(rest[j] == s[j]);
            if j > i {
                assert(comes_before(s[i], s[j].price, rising));
            }
        }
    }
    if o.amount > 0 {
        let out = rest.insert(i, o);
        assert forall|a: int, b: int| 0 <= a < b < out.len() implies comes_before(
            #[trigger] out[a],
            (#[trigger] out[b]).price,
            rising,
        ) by {
            if a < i {
                assert(out[a] == rest[a]);
                if b < i {
                    assert(out[b] == rest[b]);
                } else if b == i {
                    assert(out[b] == o);
                } else {
                    assert(out[b] == rest[b - 1]);
                    assert(comes_before(rest[a], o.price, rising));
                    assert(comes_before(o, rest[b - 1].price, rising));
                }
            } else if a == i {
                assert(out[a] == o);
                assert(out[b] == rest[b - 1]);
            } else {
                assert(out[a] == rest[a - 1]);
                assert(out[b] == rest[b - 1]);
            }
        }
    }
}

/// The book `s` after the update `o`: the level at `o.price` is replaced by
/// `o`, or dropped when `o.amount` is zero; a new price is inserted in order.
pub open spec fn placed(s: Seq<Order>, o: Order, rising: bool) -> Seq<Order> {
    let i = position(s, o.price, rising);
    let rest = if i < s.len() && s[i].price == o.price {
        s.remove(i)
    } else {
        s
    };
    if o.amount > 0 {
        rest.insert(i, o)
    } else {
        rest
    }
}

/// The book `s` after the updates `os`, in order.
pub open spec fn placed_all(s: Seq<Order>, os: Seq<Order>, rising: bool) -> Seq<Order>
    decreases os.len(),
{
    if os.len() == 0 {
        s
    } else {
        placed(placed_all(s, os.drop_last(), rising), os.last(), rising)
    }
}

/// A sequence of updates keeps an ordered book ordered.
pub proof fn lemma_placed_all_ordered(s: Seq<Order>, os: Seq<Order>, rising: bool)
    requires
        ordered(s, rising),
    ensures
        ordered(placed_all(s, os, rising), rising),
    decreases os.len(),
{
    if os.len() > 0 {
        lemma_placed_all_ordered(s, os.drop_last(), rising);
        lemma_placed_ordered(placed_all(s, os.drop_last(), rising), os.last(), rising);
    }
}

/// Where a level at price `p` belongs in `orders`: `Ok` with the index of
/// the level at that price, or `Err` with the index to insert it at.
fn search(orders: &Vec<Order>, p: Price, rising: bool) -> (r: Result<usize, usize>)
    ensures
        match r {
            Ok(i) => i == position(orders@, p, rising) && i < orders@.len() && orders@[i as int].price == p,
            Err(i) => i == position(orders@, p, rising) && i <= orders@.len() && !(i < orders@.len() && orders@[i as int].price == p),
        },
{
    let n = orders.len();
    let mut k: usize = 0;
    assert(orders@.skip(0) =~= orders@);
    while k < n
        invariant
            n == orders@.len(),
            k <= n,
            position(orders@, p, rising) == k + position(orders@.skip(k as int), p, rising),
        decreases n - k,
    {
        let o = orders[k];
        assert(orders@.skip(k as int)[0] == o);
        assert(orders@.skip(k as int).drop_first() =~= orders@.skip(k + 1));
        let before = if rising {
            o.price < p
        } else {
            o.price > p
        };
        if !before {
            if o.price == p {
                return Ok(k);
            } else {
                return Err(k);
            }
        }
        k = k + 1;
    }
    Err(k)
}

/// Applies `new_order` at the index that `position` found for its price.
pub fn add_to_orders(orders: &mut Vec<Order>, new_order: Order, position: &Result<usize, usize>)
    requires
        match *position {
            Ok(i) => i < old(orders)@.len(),
            Err(i) => i <= old(orders)@.len(),
        },
    ensures
        final(orders)@ == match *position {
            Ok(i) => if new_order.amount > 0 {
                old(orders)@.remove(i as int).insert(i as int, new_order)
            } else {
                old(orders)@.remove(i as int)
            },
            Err(i) => if new_order.amount > 0 {
                old(orders)@.insert(i as int, new_order)
            } else {
                old(orders)@
            },
        },
{
    match position {
        Ok(pos) => {
            orders.remove(*pos);
            if new_order.amount > 0 {
                orders.insert(*pos, new_order);
            }
        },
        Err(pos) => {
            if new_order.amount > 0 {
                orders.insert(*pos, new_order);
            }
        },
    }
}

/// Updates an ask book (by rising price) with `new_order`.
pub fn add_to_ask_orders(orders: &mut Vec<Order>, new_order: Order)
    ensures
        final(orders)@ == placed(old(orders)@, new_order, true),
        ordered(old(orders)@, true) ==> ordered(final(orders)@, true),
{
    proof {
        if ordered(old(orders)@, true) {
            lemma_placed_ordered(old(orders)@, new_order, true);
        }
    }
    let position = search(orders, new_order.price, true);
    add_to_orders(orders, new_order, &position);
}

/// Updates a bid book (by falling price) with `new_order`.
pub fn add_to_bid_orders(orders: &mut Vec<Order>, new_order: Order)
    ensures
        final(orders)@ == placed(old(orders)@, new_order, false),
        ordered(old(orders)@, false) ==> ordered(final(orders)@, false),
{
    proof {
        if ordered(old(orders)@, false) {
            lemma_placed_ordered(old(orders)@, new_order, false);
        }
    }
    let position = search(orders, new_order.price, false);
    add_to_orders(orders, new_order, &position);
}

/// Applies `updates` in order to the book `orders`.
fn apply_all(orders: &mut Vec<Order>, updates: &Vec<Order>, rising: bool)
    ensures
        final(orders)@ == placed_all(old(orders)@, updates@, rising),
{
    let mut k: usize = 0;
    while k < updates.len()
        invariant
            k <= updates@.len(),
            orders@ == placed_all(old(orders)@, updates@.take(k as int), rising),
        decreases updates@.len() - k,
    {
        assert(updates@.take(k + 1).drop_last() =~= updates@.take(k as int));
        if rising {
            add_to_ask_orders(orders, updates[k]);
        } else {
            add_to_bid_orders(orders, updates[k]);
        }
        k = k + 1;
    }
    assert(updates@.take(k as int) =~= updates@);
}

/// The pair stored under `id` after updates of its books: a pair seen for
/// the first time is stored as it came; a known one has each update applied
/// to its books.
pub open spec fn updated_pair(
    store: Map<MessageId, Pair>,
    id: MessageId,
    bid_orders: Seq<Order>,
    ask_orders: Seq<Order>,
) -> (Seq<Order>, Seq<Order>) {
    if store.contains_key(id) {
        (
            placed_all(store[id].bid_orders@, bid_orders, false),
            placed_all(store[id].ask_orders@, ask_orders, true),
        )
    } else {
        (bid_orders, ask_orders)
    }
}

fn copy_orders(v: &Vec<Order>) -> (r: Vec<Order>)
    ensures
        r@ == v@,
{
    let mut r: Vec<Order> = Vec::new();
    let mut k: usize = 0;
    while k < v.len()
        invariant
            k <= v@.len(),
            r@ == v@.take(k as int),
        decreases v@.len() - k,
    {
        r.push(v[k]);
        k = k + 1;
        assert(r@ =~= v@.take(k as int));
    }
    assert(v@.take(k as int) =~= v@);
    r
}

impl Pair {
    /// Bids by strictly falling price, asks by strictly rising price.
    pub open spec fn wf(self) -> bool {
        ordered(self.bid_orders@, false) && ordered(self.ask_orders@, true)
    }

    pub fn copy(&self) -> (r: Pair)
        ensures
            r.id == self.id,
            r.bid_orders@ == self.bid_orders@,
            r.ask_orders@ == self.ask_orders@,
    {
        Pair {
            id: self.id,
            bid_orders: copy_orders(&self.bid_orders),
            ask_orders: copy_orders(&self.ask_orders),
        }
    }
}

/// Folds a depth update of instrument `id` into the books kept in `store`
/// and returns the instrument's books after it.
pub fn create_updated_pair(
    store: &mut HashMap<MessageId, Pair>,
    id: MessageId,
    bid_orders: Vec<Order>,
    ask_orders: Vec<Order>,
) -> (r: Pair)
    ensures
        r.id == id,
        (r.bid_orders@, r.ask_orders@) == updated_pair(old(store)@, id, bid_orders@, ask_orders@),
        final(store)@.contains_key(id),
        final(store)@.remove(id) == old(store)@.remove(id),
        final(store)@[id].bid_orders@ == r.bid_orders@,
        final(store)@[id].ask_orders@ == r.ask_orders@,
        (if old(store)@.contains_key(id) {
            old(store)@[id].wf()
        } else {
            ordered(bid_orders@, false) && ordered(ask_orders@, true)
        }) ==> r.wf(),
{
    proof {
        if old(store)@.contains_key(id) && old(store)@[id].wf() {
            lemma_placed_all_ordered(old(store)@[id].bid_orders@, bid_orders@, false);
            lemma_placed_all_ordered(old(store)@[id].ask_orders@, ask_orders@, true);
        }
    }
    match store.remove(&id) {
        Some(mut p) => {
            apply_all(&mut p.bid_orders, &bid_orders, false);
            apply_all(&mut p.ask_orders, &ask_orders, true);
            let stored = Pair { id, bid_orders: copy_orders(&p.bid_orders), ask_orders: copy_orders(&p.ask_orders) };
            store.insert(id, stored);
            assert(store@.remove(id) =~= old(store)@.remove(id));
            Pair { id, bid_orders: p.bid_orders, ask_orders: p.ask_orders }
        },
        None => {
            let pair = Pair { id, bid_orders, ask_orders };
            store.insert(id, pair.copy());
            assert(store@.remove(id) =~= old(store)@.remove(id));
            pair
        },
    }
}

} // verus!
