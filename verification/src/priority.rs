//! The order in which search results are shown.
use crate::plugin_config::PluginPriority;
use vstd::prelude::*;

verus! {

/// Holds all values used for ordering search results.
///
/// `value` is an order-preserving integer key of the floating-point relevance of the result (how
/// well it matches the query and how recently and often it was used): a result with a larger
/// relevance has a larger `value`.
#[derive(Debug, Clone, Copy)]
pub struct Priority {
    pub plugin_priority: PluginPriority,
    pub value: u64,
    pub execlen: usize,
}

/// The ordering tuple of a result: results of known plugins first, then by plugin priority, then
/// by descending relevance, then by descending length of the name.
pub open spec fn priority_key(p: Option<Priority>) -> (int, int, int, int) {
    match p {
        Some(x) => (0, x.plugin_priority.rank(), -(x.value as int), -(x.execlen as int)),
        None => (1, 0, 0, 0),
    }
}

/// Lexicographic order on ordering tuples.
pub open spec fn key_lt(a: (int, int, int, int), b: (int, int, int, int)) -> bool {
    ||| a.0 < b.0
    ||| a.0 == b.0 && a.1 < b.1
    ||| a.0 == b.0 && a.1 == b.1 && a.2 < b.2
    ||| a.0 == b.0 && a.1 == b.1 && a.2 == b.2 && a.3 < b.3
}

/// `a` is shown before `b` whatever their positions.
pub open spec fn ranks_before(a: Option<Priority>, b: Option<Priority>) -> bool {
    key_lt(priority_key(a), priority_key(b))
}

/// Whether a result with priority `a` is shown before one with priority `b`.
pub fn ranks_before_exec(a: &Option<Priority>, b: &Option<Priority>) -> (r: bool)
    ensures
        r == ranks_before(*a, *b),
{
    match (a, b) {
        (Some(x), Some(y)) => {
            let rx: u8 = match x.plugin_priority {
                PluginPriority::High => 0,
                PluginPriority::Default => 1,
                PluginPriority::Low => 2,
            };
            let ry: u8 = match y.plugin_priority {
                PluginPriority::High => 0,
                PluginPriority::Default => 1,
                PluginPriority::Low => 2,
            };
            if rx != ry {
                rx < ry
            } else if x.value != y.value {
                x.value > y.value
            } else {
                x.execlen > y.execlen
            }
        },
        (Some(_), None) => true,
        (None, _) => false,
    }
}

/// `perm` lists the positions of `keys` in the order in which a stable sort by `ranks_before`
/// places them.
pub open spec fn is_stable_order(keys: Seq<Option<Priority>>, perm: Seq<int>) -> bool {
    &&& perm.len() == keys.len()
    &&& forall|i: int| 0 <= i < perm.len() ==> 0 <= #[trigger] perm[i] < keys.len()
    &&& perm.no_duplicates()
    &&& forall|p: int, q: int|
        0 <= p < q < perm.len() ==> !ranks_before(keys[#[trigger] perm[q]], keys[#[trigger] perm[p]])
    &&& forall|p: int, q: int|
        0 <= p < q < perm.len() && !ranks_before(keys[#[trigger] perm[p]], keys[#[trigger] perm[q]])
            ==> perm[p] < perm[q]
}

/// Sorts `items` stably so that an item whose key ranks before another comes first; the
/// result lists the items as `perm` lists their positions.
pub fn sort_by_priority<T>(items: Vec<T>, keys: &Vec<Option<Priority>>) -> (r: (
    Vec<T>,
    Ghost<Seq<int>>,
))
    requires
        items@.len() == keys@.len(),
    ensures
        is_stable_order(keys@, r.1@),
        r.0@.len() == items@.len(),
        forall|j: int| 0 <= j < r.0@.len() ==> r.0@[j] == items@[#[trigger] r.1@[j]],
{
    let ghost orig = items@;
    let mut items = items;
    let mut out: Vec<T> = Vec::new();
    let mut idx: Vec<usize> = Vec::new();
    let n = items.len();
    let mut i: usize = 0;
    while i < n
        invariant
            n == keys@.len(),
            orig.len() == n,
            0 <= i <= n,
            items@ == orig.subrange(i as int, n as int),
            out@.len() == i,
            idx@.len() == i,
            forall|j: int| 0 <= j < i ==> #[trigger] idx@[j] < i,
            idx@.no_duplicates(),
            forall|j: int| 0 <= j < i ==> out@[j] == orig[#[trigger] idx@[j] as int],
            forall|p: int, q: int|
                0 <= p < q < i ==> !ranks_before(
                    keys@[#[trigger] idx@[q] as int],
                    keys@[#[trigger] idx@[p] as int],
                ),
            forall|p: int, q: int|
                0 <= p < q < i && !ranks_before(
                    keys@[#[trigger] idx@[p] as int],
                    keys@[#[trigger] idx@[q] as int],
                ) ==> idx@[p] < idx@[q],
        decreases n - i,
    {
        let item = items.remove(0);
        let ki = &keys[i];
        let mut pos: usize = 0;
        while pos < idx.len()
            invariant
                idx@.len() == i,
                i < n,
                n == keys@.len(),
                forall|j: int| 0 <= j < i ==> #[trigger] idx@[j] < i,
                0 <= pos <= i,
                *ki == keys@[i as int],
                forall|p: int| 0 <= p < pos ==> !ranks_before(*ki, keys@[#[trigger] idx@[p] as int]),
            ensures
                0 <= pos <= i,
                forall|p: int| 0 <= p < pos ==> !ranks_before(*ki, keys@[#[trigger] idx@[p] as int]),
                pos < i ==> ranks_before(*ki, keys@[idx@[pos as int] as int]),
            decreases i - pos,
        {
            if ranks_before_exec(ki, &keys[idx[pos]]) {
                break;
            }
            pos = pos + 1;
        }
        let ghost old_idx = idx@;
        let ghost old_out = out@;
        proof {
            assert forall|q: int| pos <= q < i implies ranks_before(
                keys@[i as int],
                keys@[#[trigger] old_idx[q] as int],
            ) by {
                if q > pos {
                    assert(!ranks_before(keys@[old_idx[q] as int], keys@[old_idx[pos as int] as int]));
                }
            }
            assert(orig[i as int] == item);
        }
        out.insert(pos, item);
        idx.insert(pos, i);
        proof {
            assert(items@ =~= orig.subrange(i + 1, n as int));
            assert forall|j: int| 0 <= j < i + 1 implies #[trigger] idx@[j] < i + 1 by {
                if j < pos {
                    assert(idx@[j] == old_idx[j]);
                } else if j > pos {
                    assert(idx@[j] == old_idx[j - 1]);
                }
            }
            assert forall|a: int, b: int| 0 <= a < b < idx@.len() implies idx@[a] != idx@[b] by {
                if a < pos && b < pos {
                } else if a > pos && b > pos {
                    assert(idx@[a] == old_idx[a - 1]);
                    assert(idx@[b] == old_idx[b - 1]);
                } else if a < pos && b > pos {
                    assert(idx@[b] == old_idx[b - 1]);
                } else if a == pos {
                    if b > pos {
                        assert(idx@[b] == old_idx[b - 1]);
                    }
                } else {
                    assert(idx@[a] == old_idx[a]);
                }
            }
            assert forall|j: int| 0 <= j < i + 1 implies out@[j] == orig[#[trigger] idx@[j] as int] by {
                if j < pos {
                    assert(out@[j] == old_out[j]);
                    assert(idx@[j] == old_idx[j]);
                } else if j > pos {
                    assert(out@[j] == old_out[j - 1]);
                    assert(idx@[j] == old_idx[j - 1]);
                }
            }
            assert forall|p: int, q: int| 0 <= p < q < i + 1 implies !ranks_before(
                keys@[#[trigger] idx@[q] as int],
                keys@[#[trigger] idx@[p] as int],
            ) by {
                let ip = if p < pos { p } else if p == pos { -1 } else { p - 1 };
                let iq = if q < pos { q } else if q == pos { -1 } else { q - 1 };
                if p != pos && q != pos {
                    assert(idx@[p] == old_idx[ip]);
                    assert(idx@[q] == old_idx[iq]);
                } else if p == pos {
                    assert(idx@[q] == old_idx[iq]);
                } else {
                    assert(idx@[p] == old_idx[ip]);
                }
            }
            assert forall|p: int, q: int|
                0 <= p < q < i + 1 && !ranks_before(
                    keys@[#[trigger] idx@[p] as int],
                    keys@[#[trigger] idx@[q] as int],
                ) implies idx@[p] < idx@[q] by {
                let ip = if p < pos { p } else if p == pos { -1 } else { p - 1 };
                let iq = if q < pos { q } else if q == pos { -1 } else { q - 1 };
                if p != pos && q != pos {
                    assert(idx@[p] == old_idx[ip]);
                    assert(idx@[q] == old_idx[iq]);
                } else if p == pos {
                    assert(idx@[q] == old_idx[iq]);
                } else {
                    assert(idx@[p] == old_idx[ip]);
                }
            }
        }
        i = i + 1;
    }
    let ghost perm = idx@.map_values(|x: usize| x as int);
    proof {
        assert forall|p: int, q: int| 0 <= p < q < perm.len() implies perm[p] != perm[q] by {
            assert(idx@[p] != idx@[q]);
        }
    }
    (out, Ghost(perm))
}

} // verus!
