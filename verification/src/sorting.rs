//! Ordering rows by a key, newest or largest first, and cutting one page
//! out of an ordered list.

use vstd::prelude::*;

verus! {

/// Where a row with the key `key` goes into `order`, a list of positions
/// whose keys descend: behind every row whose key is at least `key`.
pub open spec fn insert_pos(keys: Seq<i64>, order: Seq<int>, key: i64) -> int
    decreases order.len(),
{
    if order.len() == 0 {
        0
    } else if keys[order.last()] >= key {
        order.len() as int
    } else {
        insert_pos(keys, order.drop_last(), key)
    }
}

/// The positions of `keys` in descending order of their keys; positions
/// with equal keys stay in their order.
pub open spec fn descending_order(keys: Seq<i64>) -> Seq<int>
    decreases keys.len(),
{
    if keys.len() == 0 {
        Seq::empty()
    } else {
        let before = descending_order(keys.drop_last());
        before.insert(insert_pos(keys, before, keys.last()), keys.len() - 1)
    }
}

/// Whether `order` lists each position of `keys` once, by descending key,
/// positions with equal keys in their own order.
pub open spec fn is_descending_order(keys: Seq<i64>, order: Seq<int>) -> bool {
    &&& order.len() == keys.len()
    &&& forall|k: int| 0 <= k < order.len() ==> 0 <= #[trigger] order[k] < keys.len()
    &&& forall|a: int, b: int| 0 <= a < b < order.len() ==> #[trigger] order[a] != #[trigger] order[b]
    &&& forall|a: int, b: int|
        0 <= a < b < order.len() ==> keys[#[trigger] order[a]] >= keys[#[trigger] order[b]]
    &&& forall|a: int, b: int|
        0 <= a < b < order.len() && keys[#[trigger] order[a]] == keys[#[trigger] order[b]]
            ==> order[a] < order[b]
}

/// The insertion position lies within the list, every row before it has a
/// key of at least `key`, and every row from it on has a smaller key.
pub proof fn lemma_insert_pos(keys: Seq<i64>, order: Seq<int>, key: i64)
    requires
        forall|k: int| 0 <= k < order.len() ==> 0 <= #[trigger] order[k] < keys.len(),
        forall|a: int, b: int|
            0 <= a < b < order.len() ==> keys[#[trigger] order[a]] >= keys[#[trigger] order[b]],
    ensures
        0 <= insert_pos(keys, order, key) <= order.len(),
        forall|k: int| 0 <= k < insert_pos(keys, order, key) ==> keys[#[trigger] order[k]] >= key,
        forall|k: int|
            insert_pos(keys, order, key) <= k < order.len() ==> keys[#[trigger] order[k]] < key,
    decreases order.len(),
{
    if order.len() > 0 {
        if keys[order.last()] >= key {
            assert forall|k: int| 0 <= k < order.len() implies keys[#[trigger] order[k]]
                >= key by {
                if k < order.len() - 1 {
                    assert(keys[order[k]] >= keys[order[order.len() - 1]]);
                }
            }
        } else {
            let init = order.drop_last();
            assert forall|a: int, b: int| 0 <= a < b < init.len() implies keys[#[trigger] init[a]]
                >= keys[#[trigger] init[b]] by {
                assert(keys[order[a]] >= keys[order[b]]);
            }
            lemma_insert_pos(keys, init, key);
            assert forall|k: int| 0 <= k < insert_pos(keys, order, key) implies keys[
            #[trigger] order[k]] >= key by {
                assert(order[k] == init[k]);
            }
            assert forall|k: int|
                insert_pos(keys, order, key) <= k < order.len() implies keys[#[trigger] order[k]]
                < key by {
                if k < init.len() {
                    assert(order[k] == init[k]);
                }
            }
        }
    }
}

/// The insertion position depends only on the keys of the listed rows.
pub proof fn lemma_insert_pos_keys(keys: Seq<i64>, other: Seq<i64>, order: Seq<int>, key: i64)
    requires
        forall|k: int|
            0 <= k < order.len() ==> 0 <= #[trigger] order[k] < keys.len() && order[k]
                < other.len() && keys[order[k]] == other[order[k]],
    ensures
        insert_pos(keys, order, key) == insert_pos(other, order, key),
    decreases order.len(),
{
    if order.len() > 0 {
        assert(keys[order[order.len() - 1]] == other[order[order.len() - 1]]);
        let init = order.drop_last();
        assert forall|k: int| 0 <= k < init.len() implies 0 <= #[trigger] init[k] < keys.len()
            && init[k] < other.len() && keys[init[k]] == other[init[k]] by {
            assert(init[k] == order[k]);
        }
        lemma_insert_pos_keys(keys, other, init, key);
    }
}

/// The descending order of a list of keys lists each position once, by
/// descending key, and keeps positions with equal keys in their order.
pub proof fn lemma_descending_order(keys: Seq<i64>)
    ensures
        is_descending_order(keys, descending_order(keys)),
    decreases keys.len(),
{
    if keys.len() > 0 {
        let init = keys.drop_last();
        let before = descending_order(init);
        lemma_descending_order(init);
        let key = keys.last();
        let last = keys.len() - 1;
        assert forall|k: int| 0 <= k < before.len() implies 0 <= #[trigger] before[k] < keys.len()
            && keys[before[k]] == init[before[k]] by {}
        assert forall|a: int, b: int| 0 <= a < b < before.len() implies keys[#[trigger] before[a]]
            >= keys[#[trigger] before[b]] by {
            assert(init[before[a]] >= init[before[b]]);
        }
        lemma_insert_pos(keys, before, key);
        let pos = insert_pos(keys, before, key);
        let order = before.insert(pos, last);
        assert(order == descending_order(keys));
        assert forall|k: int| 0 <= k < order.len() implies 0 <= #[trigger] order[k]
            < keys.len() by {
            if k < pos {
                assert(order[k] == before[k]);
            } else if k > pos {
                assert(order[k] == before[k - 1]);
            }
        }
        assert forall|a: int, b: int| 0 <= a < b < order.len() implies #[trigger] order[a]
            != #[trigger] order[b] && keys[order[a]] >= keys[order[b]] && (keys[order[a]]
            == keys[order[b]] ==> order[a] < order[b]) by {
            let x = if a < pos {
                a
            } else {
                a - 1
            };
            let y = if b < pos {
                b
            } else {
                b - 1
            };
            if a != pos {
                assert(order[a] == before[x]);
                assert(0 <= before[x] < init.len());
                assert(keys[before[x]] == init[before[x]]);
            }
            if b != pos {
                assert(order[b] == before[y]);
                assert(0 <= before[y] < init.len());
                assert(keys[before[y]] == init[before[y]]);
            }
            if a != pos && b != pos {
                assert(x < y);
                assert(before[x] != before[y]);
                assert(init[before[x]] >= init[before[y]]);
                assert(init[before[x]] == init[before[y]] ==> before[x] < before[y]);
            } else if a == pos {
                assert(order[a] == last);
                assert(keys[before[y]] < key);
            } else {
                assert(order[b] == last);
                assert(keys[before[x]] >= key);
            }
        }
    }
}

/// The positions of `order` as mathematical integers.
pub open spec fn positions(order: Seq<usize>) -> Seq<int> {
    order.map_values(|i: usize| i as int)
}

/// Orders the positions of `keys` by descending key; positions with equal
/// keys stay in their order.
pub fn sort_descending(keys: &Vec<i64>) -> (order: Vec<usize>)
    ensures
        positions(order@) == descending_order(keys@),
        is_descending_order(keys@, positions(order@)),
{
    let mut order: Vec<usize> = Vec::new();
    let mut i: usize = 0;
    assert(keys@.subrange(0, 0) =~= Seq::<i64>::empty());
    assert(positions(order@) =~= Seq::<int>::empty());
    while i < keys.len()
        invariant
            i <= keys.len(),
            positions(order@) == descending_order(keys@.subrange(0, i as int)),
            order@.len() == i,
        decreases keys.len() - i,
    {
        let key = keys[i];
        let ghost prefix = keys@.subrange(0, i as int);
        let ghost next = keys@.subrange(0, i as int + 1);
        let ghost before = positions(order@);
        proof {
            assert(next.drop_last() =~= prefix);
            assert(next.last() == key);
            lemma_descending_order(prefix);
            assert forall|k: int| 0 <= k < before.len() implies 0 <= #[trigger] before[k]
                < next.len() && before[k] < keys@.len() && next[before[k]]
                == keys@[before[k]] by {}
            lemma_insert_pos_keys(next, keys@, before, key);
        }
        let mut pos: usize = order.len();
        assert(before.subrange(0, pos as int) =~= before);
        while pos > 0 && keys[order[pos - 1]] < key
            invariant
                pos <= order@.len(),
                order@.len() == i,
                i < keys.len(),
                before == positions(order@),
                forall|k: int| 0 <= k < before.len() ==> 0 <= #[trigger] before[k] < keys@.len(),
                insert_pos(keys@, before, key) == insert_pos(
                    keys@,
                    before.subrange(0, pos as int),
                    key,
                ),
            decreases pos,
        {
            proof {
                let part = before.subrange(0, pos as int);
                assert(part.last() == before[pos as int - 1]);
                assert(part.drop_last() =~= before.subrange(0, pos as int - 1));
            }
            pos -= 1;
        }
        proof {
            let part = before.subrange(0, pos as int);
            if pos > 0 {
                assert(part.last() == before[pos as int - 1]);
            }
            assert(insert_pos(keys@, part, key) == pos);
            assert(positions(order@.insert(pos as int, i)) =~= before.insert(pos as int, i as int));
        }
        order.insert(pos, i);
        i += 1;
    }
    proof {
        assert(keys@.subrange(0, i as int) =~= keys@);
        lemma_descending_order(keys@);
    }
    order
}

/// The rows of `rows` in the order that `order` gives their positions.
pub open spec fn arranged<T>(rows: Seq<T>, order: Seq<int>) -> Seq<T> {
    order.map_values(|i: int| rows[i])
}

/// The rows `skip` to `skip + size` of a list, as far as it reaches.
pub open spec fn window<T>(rows: Seq<T>, skip: int, size: int) -> Seq<T> {
    let from = if skip < rows.len() {
        skip
    } else {
        rows.len() as int
    };
    let to = if skip + size < rows.len() {
        skip + size
    } else {
        rows.len() as int
    };
    rows.subrange(from, to)
}

/// A count of rows as a signed number; a count beyond its range counts as
/// its maximum.
pub open spec fn row_count(n: nat) -> i64 {
    if n > i64::MAX {
        i64::MAX
    } else {
        n as i64
    }
}

/// A count of rows as a signed number.
pub fn count_rows(n: usize) -> (r: i64)
    ensures
        r == row_count(n as nat),
{
    if n as u64 > 0x7FFF_FFFF_FFFF_FFFF {
        0x7FFF_FFFF_FFFF_FFFF
    } else {
        n as i64
    }
}

/// The bounds of the window of a list of `len` rows.
pub fn window_bounds(len: usize, skip: u64, size: u32) -> (r: (usize, usize))
    requires
        size >= 0,
    ensures
        r.0 <= r.1 <= len,
        r.0 == if skip < len {
            skip as int
        } else {
            len as int
        },
        r.1 == if skip + size < len {
            skip + size
        } else {
            len as int
        },
{
    let from: usize = if skip < len as u64 {
        skip as usize
    } else {
        len
    };
    let end: u128 = skip as u128 + size as u128;
    let to: usize = if end < len as u128 {
        end as usize
    } else {
        len
    };
    (from, to)
}

} // verus!
