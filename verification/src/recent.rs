//! Remembers which search results were activated, how often and how recently.
use std::collections::hash_map::DefaultHasher;
use std::collections::HashMap;
use std::hash::Hash;
use std::hash::Hasher;
use vstd::std_specs::hash::DefaultHasherAdditionalSpecFns;
use vstd::prelude::*;

verus! {

broadcast use vstd::std_specs::hash::group_hash_axioms;

/// How many recently activated results are remembered in order.
pub const SHORTTERM_CAP: usize = 20;

/// The total activation count above which all counts are halved.
pub const LONGTERM_CAP: usize = 100;

/// The state of a `DefaultHasher` after `<str as Hash>::hash` wrote the string `s` into a hasher
/// whose state was `state`.
pub uninterp spec fn str_hash_writes(state: Seq<Seq<u8>>, s: Seq<char>) -> Seq<Seq<u8>>;

/// Hashes a string into a `DefaultHasher` through `<str as Hash>::hash`.
///
/// Trusted: the new state of the hasher is named by `str_hash_writes` of the old state and the
/// string; nothing else is claimed of it.
#[verifier::external_body]
fn hash_str_into(key: &str, hasher: &mut DefaultHasher)
    ensures
        final(hasher)@ == str_hash_writes(old(hasher)@, key@),
{
    key.hash(hasher);
}

/// The key under which a command string is stored: its `DefaultHasher` hash.
pub open spec fn key_hash(s: Seq<char>) -> u64 {
    DefaultHasher::spec_finish(str_hash_writes(Seq::empty(), s))
}

/// Hashes a command string with a freshly created `DefaultHasher`.
pub fn hash_key(key: &str) -> (h: u64)
    ensures
        h == key_hash(key@),
{
    let mut hasher = DefaultHasher::new();
    hash_str_into(key, &mut hasher);
    hasher.finish()
}

/// The sum of all values of a finite map.
pub open spec fn map_total(m: Map<u64, usize>) -> int
    decreases m.dom().len(),
{
    if m.dom().finite() && m.dom().len() > 0 {
        let k = m.dom().choose();
        m[k] + map_total(m.remove(k))
    } else {
        0
    }
}

/// Removing one key of a finite map takes exactly its value out of the total.
pub proof fn lemma_map_total_remove(m: Map<u64, usize>, k: u64)
    requires
        m.dom().finite(),
        m.contains_key(k),
    ensures
        map_total(m) == m[k] + map_total(m.remove(k)),
    decreases m.dom().len(),
{
    let c = m.dom().choose();
    assert(m.dom().contains(c));
    if c != k {
        lemma_map_total_remove(m.remove(c), k);
        lemma_map_total_remove(m.remove(k), c);
        assert(m.remove(c).remove(k) =~= m.remove(k).remove(c));
    } else {
        assert(m.remove(c) =~= m.remove(k));
    }
}

/// Totals are never negative.
pub proof fn lemma_map_total_nonneg(m: Map<u64, usize>)
    ensures
        map_total(m) >= 0,
    decreases m.dom().len(),
{
    if m.dom().finite() && m.dom().len() > 0 {
        let k = m.dom().choose();
        lemma_map_total_nonneg(m.remove(k));
    }
}

/// Every count halved, rounding down, with the counts that reach zero removed.
pub open spec fn halve(m: Map<u64, usize>) -> Map<u64, usize> {
    Map::new(|k: u64| m.contains_key(k) && m[k] / 2 > 0, |k: u64| (m[k] / 2) as usize)
}

/// Halving never increases the total, and strictly decreases a positive total.
pub proof fn lemma_halve_total(m: Map<u64, usize>)
    requires
        m.dom().finite(),
    ensures
        halve(m).dom().finite(),
        map_total(halve(m)) <= map_total(m),
        map_total(m) > 0 ==> map_total(halve(m)) < map_total(m),
    decreases m.dom().len(),
{
    assert(halve(m).dom() =~= m.dom().filter(|k: u64| m[k] / 2 > 0));
    if m.dom().len() == 0 {
        assert(halve(m).dom() =~= Set::empty());
    } else {
        let k = m.dom().choose();
        assert(m.dom().contains(k));
        lemma_halve_total(m.remove(k));
        lemma_map_total_remove(m, k);
        lemma_map_total_nonneg(m.remove(k));
        if m[k] / 2 > 0 {
            assert(halve(m.remove(k)) =~= halve(m).remove(k));
            lemma_map_total_remove(halve(m), k);
        } else {
            assert(halve(m.remove(k)) =~= halve(m));
        }
    }
}

/// The long-term counts after trimming: halved until their total is at most `LONGTERM_CAP`.
pub open spec fn trim_long(m: Map<u64, usize>) -> Map<u64, usize>
    decreases map_total(m),
{
    if m.dom().finite() && map_total(m) > LONGTERM_CAP {
        proof {
            lemma_halve_total(m);
            lemma_map_total_nonneg(halve(m));
        }
        trim_long(halve(m))
    } else {
        m
    }
}

/// `kept` is `m` with all but its `SHORTTERM_CAP` most recent entries dropped.
pub open spec fn trimmed_short(m: Map<u64, usize>, kept: Map<u64, usize>) -> bool {
    &&& kept.dom().subset_of(m.dom())
    &&& forall|k: u64| #[trigger] kept.contains_key(k) ==> kept[k] == m[k]
    &&& kept.dom().len() == if m.dom().len() > SHORTTERM_CAP {
        SHORTTERM_CAP as nat
    } else {
        m.dom().len()
    }
    &&& forall|k: u64, j: u64|
        #![trigger kept.contains_key(k), m.contains_key(j)]
        kept.contains_key(k) && m.contains_key(j) && !kept.contains_key(j) ==> m[j] < m[k]
}

/// `kept` is `m` with some of its least recent entries dropped, and at least `SHORTTERM_CAP`
/// kept.
pub open spec fn trimmed_short_upto(m: Map<u64, usize>, kept: Map<u64, usize>) -> bool {
    &&& kept.dom().subset_of(m.dom())
    &&& forall|k: u64| #[trigger] kept.contains_key(k) ==> kept[k] == m[k]
    &&& (kept.dom().len() < m.dom().len() ==> kept.dom().len() >= SHORTTERM_CAP)
    &&& forall|k: u64, j: u64|
        #![trigger kept.contains_key(k), m.contains_key(j)]
        kept.contains_key(k) && m.contains_key(j) && !kept.contains_key(j) ==> m[j] < m[k]
}

/// The largest value of `m`, or 0 where `m` is empty.
pub open spec fn max_index(m: Map<u64, usize>) -> usize {
    if m.dom().finite() && m.dom().len() > 0 {
        m[choose|k: u64| m.contains_key(k) && forall|j: u64| #[trigger] m.contains_key(j) ==> m[j] <= m[k]]
    } else {
        0
    }
}

/// A finite, non-empty map has a key of largest value.
pub proof fn lemma_max_exists(m: Map<u64, usize>)
    requires
        m.dom().finite(),
        m.dom().len() > 0,
    ensures
        exists|k: u64| m.contains_key(k) && forall|j: u64| #[trigger] m.contains_key(j) ==> m[j] <= m[k],
    decreases m.dom().len(),
{
    let c = m.dom().choose();
    assert(m.contains_key(c));
    let r = m.remove(c);
    if r.dom().len() == 0 {
        assert forall|j: u64| #[trigger] m.contains_key(j) implies m[j] <= m[c] by {
            if j != c {
                assert(r.contains_key(j));
            }
        }
    } else {
        lemma_max_exists(r);
        let k = choose|k: u64| r.contains_key(k) && forall|j: u64| #[trigger] r.contains_key(j) ==> r[j] <= r[k];
        if m[k] < m[c] {
            assert forall|j: u64| #[trigger] m.contains_key(j) implies m[j] <= m[c] by {
                if j != c {
                    assert(r.contains_key(j));
                }
            }
        } else {
            assert forall|j: u64| #[trigger] m.contains_key(j) implies m[j] <= m[k] by {
                if j != c {
                    assert(r.contains_key(j));
                }
            }
        }
    }
}

/// The largest value of a non-empty map bounds all its values and belongs to one of its keys.
pub proof fn lemma_max_index(m: Map<u64, usize>)
    requires
        m.dom().finite(),
    ensures
        forall|j: u64| #[trigger] m.contains_key(j) ==> m[j] <= max_index(m),
        m.dom().len() > 0 ==> exists|k: u64| #[trigger] m.contains_key(k) && m[k] == max_index(m),
{
    if m.dom().len() > 0 {
        lemma_max_exists(m);
    }
}

/// No two keys share an index.
pub open spec fn injective_values(m: Map<u64, usize>) -> bool {
    forall|a: u64, b: u64|
        #![trigger m.contains_key(a), m.contains_key(b)]
        m.contains_key(a) && m.contains_key(b) && a != b ==> m[a] != m[b]
}

/// The keys of a map, in the map's own order.
fn map_keys(m: &HashMap<u64, usize>) -> (ks: Vec<u64>)
    ensures
        ks@.to_set() == m@.dom(),
        ks@.no_duplicates(),
        ks@.len() == m@.dom().len(),
{
    let mut ks: Vec<u64> = Vec::new();
    let ghost all = vstd::std_specs::iter::IteratorSpec::remaining(&vstd::std_specs::hash::spec_keys_iter(m)).unref();
    for k in it: m.keys()
        invariant
            ks@.len() == it.index(),
            it.seq().unref() == all,
            forall|i: int| 0 <= i < ks@.len() ==> ks@[i] == *it.seq()[i],
    {
        ks.push(*k);
    }
    proof {
        assert(ks@ =~= all);
    }
    ks
}

/// The total of a map's values, or `None` where it does not stay below `usize::MAX`.
fn checked_total(m: &HashMap<u64, usize>) -> (r: Option<usize>)
    ensures
        match r {
            Some(t) => t == map_total(m@),
            None => map_total(m@) > usize::MAX,
        },
{
    let lk = map_keys(m);
    let mut total: usize = 0;
    let ghost mut rest = m@;
    let mut i: usize = 0;
    while i < lk.len()
        invariant
            lk@.to_set() == m@.dom(),
            lk@.no_duplicates(),
            0 <= i <= lk@.len(),
            rest.dom().finite(),
            forall|k: u64|
                #[trigger] rest.contains_key(k) <==> m@.contains_key(k) && !lk@.subrange(
                    0,
                    i as int,
                ).contains(k),
            forall|k: u64| #[trigger] rest.contains_key(k) ==> rest[k] == m@[k],
            total + map_total(rest) == map_total(m@),
        decreases lk@.len() - i,
    {
        let k = lk[i];
        proof {
            assert(lk@.to_set().contains(k));
            assert(!lk@.subrange(0, i as int).contains(k)) by {
                if lk@.subrange(0, i as int).contains(k) {
                    let j = choose|j: int| 0 <= j < i && lk@.subrange(0, i as int)[j] == k;
                    assert(lk@[j] == lk@[i as int]);
                }
            }
            assert(rest.contains_key(k));
            lemma_map_total_remove(rest, k);
            lemma_map_total_nonneg(rest.remove(k));
        }
        let v = *m.get(&k).unwrap();
        if v > usize::MAX - total {
            return None;
        }
        total = total + v;
        proof {
            rest = rest.remove(k);
            let s0 = lk@.subrange(0, i as int);
            let s1 = lk@.subrange(0, i + 1);
            assert(s1 =~= s0.push(k));
            assert forall|x: u64| #[trigger] rest.contains_key(x) <==> m@.contains_key(x)
                && !s1.contains(x) by {
                if x == k {
                    assert(s1[i as int] == k);
                } else {
                    if s1.contains(x) {
                        let j = choose|j: int| 0 <= j < s1.len() && s1[j] == x;
                        assert(s0[j] == x);
                    }
                    if s0.contains(x) {
                        let j = choose|j: int| 0 <= j < s0.len() && s0[j] == x;
                        assert(s1[j] == x);
                    }
                }
            }
        }
        i = i + 1;
    }
    proof {
        assert(lk@.subrange(0, lk@.len() as int) =~= lk@);
        assert forall|k: u64| !rest.contains_key(k) by {
            if m@.contains_key(k) {
                assert(lk@.to_set().contains(k));
            }
        }
        assert(rest.dom() =~= Set::empty());
    }
    Some(total)
}

/// Every count halved, with the counts that reach zero removed.
fn halve_map(m: &HashMap<u64, usize>) -> (r: HashMap<u64, usize>)
    ensures
        r@ == halve(m@),
{
    let lk = map_keys(m);
    let mut r: HashMap<u64, usize> = HashMap::new();
    let mut i: usize = 0;
    while i < lk.len()
        invariant
            lk@.to_set() == m@.dom(),
            0 <= i <= lk@.len(),
            forall|k: u64|
                #[trigger] r@.contains_key(k) <==> halve(m@).contains_key(k)
                    && lk@.subrange(0, i as int).contains(k),
            forall|k: u64| #[trigger] r@.contains_key(k) ==> r@[k] == halve(m@)[k],
        decreases lk@.len() - i,
    {
        let k = lk[i];
        proof {
            assert(lk@.to_set().contains(k));
        }
        let v = *m.get(&k).unwrap();
        if v / 2 > 0 {
            r.insert(k, v / 2);
        }
        proof {
            let s0 = lk@.subrange(0, i as int);
            let s1 = lk@.subrange(0, i + 1);
            assert(s1 =~= s0.push(k));
            assert forall|x: u64| #[trigger] r@.contains_key(x) <==> halve(m@).contains_key(x)
                && s1.contains(x) by {
                if x == k {
                    assert(s1[i as int] == k);
                } else {
                    if s1.contains(x) {
                        let j = choose|j: int| 0 <= j < s1.len() && s1[j] == x;
                        assert(s0[j] == x);
                    }
                    if s0.contains(x) {
                        let j = choose|j: int| 0 <= j < s0.len() && s0[j] == x;
                        assert(s1[j] == x);
                    }
                }
            }
        }
        i = i + 1;
    }
    proof {
        assert(lk@.subrange(0, lk@.len() as int) =~= lk@);
        assert forall|k: u64| halve(m@).contains_key(k) implies lk@.contains(k) by {
            assert(lk@.to_set().contains(k));
        }
        assert(r@ =~= halve(m@));
    }
    r
}

/// A key of smallest value of a non-empty map.
fn min_key(m: &HashMap<u64, usize>) -> (r: u64)
    requires
        m@.dom().len() > 0,
    ensures
        m@.contains_key(r),
        forall|k: u64| #[trigger] m@.contains_key(k) ==> m@[r] <= m@[k],
{
    let lk = map_keys(m);
    proof {
        let k0 = m@.dom().choose();
        assert(lk@.to_set().contains(k0));
    }
    let mut best = lk[0];
    proof {
        assert(lk@.to_set().contains(best));
    }
    let mut best_v = *m.get(&best).unwrap();
    let mut i: usize = 1;
    while i < lk.len()
        invariant
            lk@.to_set() == m@.dom(),
            1 <= i <= lk@.len(),
            m@.contains_key(best),
            best_v == m@[best],
            forall|j: int| 0 <= j < i ==> best_v <= m@[#[trigger] lk@[j]],
        decreases lk@.len() - i,
    {
        let k = lk[i];
        proof {
            assert(lk@.to_set().contains(k));
        }
        let v = *m.get(&k).unwrap();
        if v < best_v {
            best = k;
            best_v = v;
        }
        i = i + 1;
    }
    proof {
        assert forall|k: u64| #[trigger] m@.contains_key(k) implies m@[best] <= m@[k] by {
            assert(lk@.to_set().contains(k));
            let j = choose|j: int| 0 <= j < lk@.len() && lk@[j] == k;
        }
    }
    best
}

/// The largest value of a map, or 0 where it is empty.
fn max_value(m: &HashMap<u64, usize>) -> (r: usize)
    ensures
        r == max_index(m@),
{
    proof {
        lemma_max_index(m@);
    }
    let lk = map_keys(m);
    let mut best: usize = 0;
    let mut i: usize = 0;
    while i < lk.len()
        invariant
            lk@.to_set() == m@.dom(),
            0 <= i <= lk@.len(),
            forall|j: int| 0 <= j < i ==> m@[#[trigger] lk@[j]] <= best,
            best == 0 || exists|j: int| 0 <= j < i && m@[#[trigger] lk@[j]] == best,
        decreases lk@.len() - i,
    {
        let k = lk[i];
        proof {
            assert(lk@.to_set().contains(k));
        }
        let v = *m.get(&k).unwrap();
        if v > best {
            best = v;
            proof {
                assert(m@[lk@[i as int]] == best);
            }
        }
        i = i + 1;
    }
    proof {
        assert forall|k: u64| #[trigger] m@.contains_key(k) implies m@[k] <= best by {
            assert(lk@.to_set().contains(k));
            let j = choose|j: int| 0 <= j < lk@.len() && lk@[j] == k;
        }
        if m@.dom().len() > 0 {
            let k = choose|k: u64| #[trigger] m@.contains_key(k) && m@[k] == max_index(m@);
            if best != 0 {
                let j = choose|j: int| 0 <= j < lk@.len() && m@[#[trigger] lk@[j]] == best;
                assert(lk@.to_set().contains(lk@[j]));
            }
        } else {
            assert(lk@.len() == 0);
        }
    }
    best
}

/// The short-term storage rebuilt from keys listed from least to most recent: each key is
/// indexed by its last position in the list.
pub open spec fn index_map(order: Seq<u64>) -> Map<u64, usize>
    decreases order.len(),
{
    if order.len() == 0 {
        Map::empty()
    } else {
        index_map(order.drop_last()).insert(order.last(), (order.len() - 1) as usize)
    }
}

/// Each key of `index_map(order)` is indexed by a position of `order` that holds it, and by the
/// last such position.
pub proof fn lemma_index_map(order: Seq<u64>)
    requires
        order.len() <= usize::MAX + 1,
    ensures
        index_map(order).dom().finite(),
        forall|k: u64| #[trigger] index_map(order).contains_key(k) <==> order.contains(k),
        forall|k: u64|
            #[trigger] index_map(order).contains_key(k) ==> {
                let i = index_map(order)[k] as int;
                &&& 0 <= i < order.len()
                &&& order[i] == k
                &&& forall|j: int| i < j < order.len() ==> order[j] != k
            },
        injective_values(index_map(order)),
    decreases order.len(),
{
    if order.len() > 0 {
        let s = order.drop_last();
        lemma_index_map(s);
        let m = index_map(order);
        assert forall|k: u64| #[trigger] m.contains_key(k) <==> order.contains(k) by {
            if k == order.last() {
                assert(order[order.len() - 1] == k);
            } else {
                if order.contains(k) {
                    let j = choose|j: int| 0 <= j < order.len() && order[j] == k;
                    assert(s[j] == k);
                }
                if s.contains(k) {
                    let j = choose|j: int| 0 <= j < s.len() && s[j] == k;
                    assert(order[j] == k);
                }
            }
        }
        assert forall|k: u64| #[trigger] m.contains_key(k) implies {
            let i = m[k] as int;
            &&& 0 <= i < order.len()
            &&& order[i] == k
            &&& forall|j: int| i < j < order.len() ==> order[j] != k
        } by {
            if k != order.last() {
                assert(index_map(s).contains_key(k));
                let i = index_map(s)[k] as int;
                assert(s[i] == k);
                assert forall|j: int| i < j < order.len() implies order[j] != k by {
                    if j < order.len() - 1 {
                        assert(s[j] == order[j]);
                    }
                }
            }
        }
        assert forall|a: u64, b: u64|
            #![trigger m.contains_key(a), m.contains_key(b)]
            m.contains_key(a) && m.contains_key(b) && a != b implies m[a] != m[b] by {
            if a != order.last() && b != order.last() {
                assert(index_map(s).contains_key(a));
                assert(index_map(s).contains_key(b));
            }
        }
    }
}

/// The keys of `m`, ordered by increasing value.
pub open spec fn sorted_by_value(m: Map<u64, usize>, order: Seq<u64>) -> bool {
    &&& order.to_set() == m.dom()
    &&& order.no_duplicates()
    &&& forall|i: int, j: int| 0 <= i < j < order.len() ==> m[order[i]] < m[order[j]]
}

/// Holds a long term storage that tracks how often a search result was activated, and a short
/// term storage that stores the order of recently activated search results (higher values are
/// more recent). Keys for both mappings are hashes of the activated result's command string.
#[derive(Debug)]
pub struct RecentUseStorage {
    long_term: HashMap<u64, usize>,
    short_term: HashMap<u64, usize>,
}

impl RecentUseStorage {
    /// How often each key was activated.
    pub closed spec fn long(&self) -> Map<u64, usize> {
        self.long_term@
    }

    /// The recency index of each key.
    pub closed spec fn short(&self) -> Map<u64, usize> {
        self.short_term@
    }

    /// The storage is well formed: no two keys share a recency index.
    pub open spec fn wf(&self) -> bool {
        &&& self.long().dom().finite()
        &&& self.short().dom().finite()
        &&& injective_values(self.short())
    }

    /// An empty storage.
    pub fn new() -> (s: RecentUseStorage)
        ensures
            s.wf(),
            s.long() == Map::<u64, usize>::empty(),
            s.short() == Map::<u64, usize>::empty(),
    {
        RecentUseStorage { long_term: HashMap::new(), short_term: HashMap::new() }
    }

    /// The activation counters can both take one more step without leaving `usize`.
    pub open spec fn can_add(&self) -> bool {
        &&& map_total(self.long()) < usize::MAX
        &&& forall|k: u64| #[trigger] self.short().contains_key(k) ==> self.short()[k] < usize::MAX
    }

    /// Whether `add` can count one more activation without leaving `usize`.
    pub fn has_room(&self) -> (b: bool)
        requires
            self.wf(),
        ensures
            b == self.can_add(),
    {
        match checked_total(&self.long_term) {
            None => {
                return false;
            },
            Some(t) => {
                if t == usize::MAX {
                    return false;
                }
            },
        }
        let sk = map_keys(&self.short_term);
        let mut j: usize = 0;
        while j < sk.len()
            invariant
                sk@.to_set() == self.short().dom(),
                0 <= j <= sk@.len(),
                forall|a: int| 0 <= a < j ==> self.short()[#[trigger] sk@[a]] < usize::MAX,
            decreases sk@.len() - j,
        {
            let k = sk[j];
            proof {
                assert(sk@.to_set().contains(k));
            }
            let v = *self.short_term.get(&k).unwrap();
            if v == usize::MAX {
                return false;
            }
            j = j + 1;
        }
        proof {
            assert forall|k: u64| #[trigger] self.short().contains_key(k) implies self.short()[k]
                < usize::MAX by {
                assert(sk@.to_set().contains(k));
                let a = choose|a: int| 0 <= a < sk@.len() && sk@[a] == k;
            }
        }
        true
    }

    /// `after` is this storage once an activation of `exec` is recorded: `exec` becomes the most
    /// recent entry and its count grows by one, after which both storages are trimmed.
    pub open spec fn records_add(&self, exec: Seq<char>, after: RecentUseStorage) -> bool {
        &&& trimmed_short(
            self.short().insert(key_hash(exec), (max_index(self.short()) + 1) as usize),
            after.short(),
        )
        &&& after.long() == trim_long(
            self.long().insert(key_hash(exec), (self.spec_get_freq(exec) + 1) as usize),
        )
    }

    /// Records an activation of `exec`: it becomes the most recent entry and its count grows by
    /// one, after which both storages are trimmed.
    pub fn add(&mut self, exec: &str)
        requires
            old(self).wf(),
            old(self).can_add(),
        ensures
            final(self).wf(),
            old(self).records_add(exec@, *final(self)),
            trimmed_short(
                old(self).short().insert(
                    key_hash(exec@),
                    (max_index(old(self).short()) + 1) as usize,
                ),
                final(self).short(),
            ),
            final(self).long() == trim_long(
                old(self).long().insert(key_hash(exec@), (old(self).spec_get_freq(exec@) + 1) as usize),
            ),
    {
        let key = hash_key(exec);
        proof {
            lemma_max_index(self.short());
            if self.long().contains_key(key) {
                lemma_map_total_remove(self.long(), key);
                lemma_map_total_nonneg(self.long().remove(key));
            }
        }
        let count = match self.long_term.get(&key) {
            Some(v) => *v,
            None => 0,
        };
        self.long_term.insert(key, count + 1);
        let top = max_value(&self.short_term);
        proof {
            if self.short().dom().len() > 0 {
                let k = choose|k: u64| #[trigger] self.short().contains_key(k) && self.short()[k] == max_index(self.short());
            }
        }
        self.short_term.insert(key, top + 1);
        proof {
            let m = self.short();
            assert forall|a: u64, b: u64|
                #![trigger m.contains_key(a), m.contains_key(b)]
                m.contains_key(a) && m.contains_key(b) && a != b implies m[a] != m[b] by {
            }
            // the new long-term total stays below usize::MAX
            let old_long = old(self).long();
            if old_long.contains_key(key) {
                lemma_map_total_remove(self.long(), key);
                assert(self.long().remove(key) =~= old_long.remove(key));
            } else {
                lemma_map_total_remove(self.long(), key);
                assert(self.long().remove(key) =~= old_long);
            }
        }
        self.trim();
    }

    /// Drops all but the most recent short-term entries, and halves the long-term counts until
    /// their total is at most `LONGTERM_CAP`.
    fn trim(&mut self)
        requires
            old(self).wf(),
            map_total(old(self).long()) <= usize::MAX,
        ensures
            final(self).wf(),
            trimmed_short(old(self).short(), final(self).short()),
            final(self).long() == trim_long(old(self).long()),
    {
        let ghost orig = self.short();
        while self.short_term.len() > SHORTTERM_CAP
            invariant
                self.wf(),
                trimmed_short_upto(orig, self.short()),
                map_total(self.long()) <= usize::MAX,
                self.long() == old(self).long(),
            decreases self.short().dom().len(),
        {
            let k = min_key(&self.short_term);
            self.short_term.remove(&k);
            proof {
                let m = self.short();
                assert forall|a: u64, b: u64|
                    #![trigger m.contains_key(a), m.contains_key(b)]
                    m.contains_key(a) && m.contains_key(b) && a != b implies m[a] != m[b] by {
                }
            }
        }
        proof {
            assert(self.short().dom().len() <= SHORTTERM_CAP);
            vstd::set_lib::lemma_len_subset(self.short().dom(), orig.dom());
        }
        loop
            invariant
                self.wf(),
                trimmed_short(orig, self.short()),
                trim_long(self.long()) == trim_long(old(self).long()),
                map_total(self.long()) <= usize::MAX,
            ensures
                self.wf(),
                trimmed_short(orig, self.short()),
                self.long() == trim_long(old(self).long()),
            decreases map_total(self.long()),
        {
            proof {
                lemma_map_total_nonneg(self.long());
            }
            let total = checked_total(&self.long_term).unwrap();
            if total <= LONGTERM_CAP {
                proof {
                    assert(trim_long(self.long()) == self.long());
                }
                break;
            }
            let halved = halve_map(&self.long_term);
            proof {
                lemma_halve_total(self.long());
                lemma_map_total_nonneg(halve(self.long()));
            }
            self.long_term = halved;
        }
    }

    /// Rebuilds a storage from its saved form: the long-term counts, and the short-term keys
    /// listed from least to most recent.
    pub fn from_parts(long_term: HashMap<u64, usize>, order: Vec<u64>) -> (s: RecentUseStorage)
        ensures
            s.wf(),
            s.long() == long_term@,
            s.short() == index_map(order@),
    {
        let mut short_term: HashMap<u64, usize> = HashMap::new();
        let mut i: usize = 0;
        while i < order.len()
            invariant
                0 <= i <= order@.len(),
                short_term@ == index_map(order@.subrange(0, i as int)),
            decreases order@.len() - i,
        {
            short_term.insert(order[i], i);
            proof {
                assert(order@.subrange(0, i + 1).drop_last() =~= order@.subrange(0, i as int));
            }
            i = i + 1;
        }
        proof {
            assert(order@.subrange(0, order@.len() as int) =~= order@);
            lemma_index_map(order@);
        }
        RecentUseStorage { long_term, short_term }
    }

    /// The saved form of the storage: the long-term counts, and the short-term keys listed from
    /// least to most recent.
    pub fn to_parts(&self) -> (r: (HashMap<u64, usize>, Vec<u64>))
        requires
            self.wf(),
        ensures
            r.0@ == self.long(),
            sorted_by_value(self.short(), r.1@),
    {
        let long = self.long_term.clone();
        let keys = map_keys(&self.short_term);
        let mut order: Vec<u64> = Vec::new();
        let mut i: usize = 0;
        while i < keys.len()
            invariant
                self.wf(),
                keys@.to_set() == self.short().dom(),
                keys@.no_duplicates(),
                0 <= i <= keys@.len(),
                order@.to_set() == keys@.subrange(0, i as int).to_set(),
                order@.no_duplicates(),
                forall|a: int, b: int|
                    0 <= a < b < order@.len() ==> self.short()[order@[a]] < self.short()[order@[b]],
                forall|a: int| 0 <= a < order@.len() ==> self.short().contains_key(#[trigger] order@[a]),
            decreases keys@.len() - i,
        {
            let k = keys[i];
            proof {
                assert(keys@.to_set().contains(k));
            }
            let v = *self.short_term.get(&k).unwrap();
            let mut pos: usize = 0;
            while pos < order.len()
                invariant
                    self.wf(),
                    self.short().contains_key(k),
                    v == self.short()[k],
                    0 <= pos <= order@.len(),
                    forall|a: int| 0 <= a < order@.len() ==> self.short().contains_key(#[trigger] order@[a]),
                    forall|a: int| 0 <= a < pos ==> self.short()[#[trigger] order@[a]] < v,
                ensures
                    0 <= pos <= order@.len(),
                    forall|a: int| 0 <= a < pos ==> self.short()[#[trigger] order@[a]] < v,
                    pos < order@.len() ==> self.short()[order@[pos as int]] >= v,
                decreases order@.len() - pos,
            {
                let w = *self.short_term.get(&order[pos]).unwrap();
                if w >= v {
                    break;
                }
                pos = pos + 1;
            }
            proof {
                assert(!order@.contains(k)) by {
                    if order@.contains(k) {
                        assert(order@.to_set().contains(k));
                        let j = choose|j: int| 0 <= j < i && keys@.subrange(0, i as int)[j] == k;
                        assert(keys@[j] == keys@[i as int]);
                    }
                }
                assert(forall|a: int| pos <= a < order@.len() ==> v < self.short()[#[trigger] order@[a]]) by {
                    assert forall|a: int| pos <= a < order@.len() implies v < self.short()[#[trigger] order@[a]] by {
                        if pos < order@.len() {
                            assert(self.short()[order@[pos as int]] >= v);
                            assert(order@[pos as int] != k);
                            if a > pos {
                                assert(self.short()[order@[pos as int]] < self.short()[order@[a]]);
                            }
                        }
                    }
                }
            }
            let ghost old_order = order@;
            order.insert(pos, k);
            proof {
                assert(order@ =~= old_order.subrange(0, pos as int).push(k) + old_order.subrange(pos as int, old_order.len() as int));
                let s0 = keys@.subrange(0, i as int);
                let s1 = keys@.subrange(0, i + 1);
                assert(s1 =~= s0.push(k));
                assert forall|x: u64| order@.to_set().contains(x) <==> s1.to_set().contains(x) by {
                    if order@.contains(x) {
                        let j = choose|j: int| 0 <= j < order@.len() && order@[j] == x;
                        if j < pos {
                            assert(old_order[j] == x);
                        } else if j > pos {
                            assert(old_order[j - 1] == x);
                        }
                        if x != k {
                            assert(old_order.to_set().contains(x));
                            assert(s0.contains(x));
                            let t = choose|t: int| 0 <= t < s0.len() && s0[t] == x;
                            assert(s1[t] == x);
                        } else {
                            assert(s1[i as int] == x);
                        }
                    }
                    if s1.contains(x) {
                        let t = choose|t: int| 0 <= t < s1.len() && s1[t] == x;
                        if t < i {
                            assert(s0[t] == x);
                            assert(old_order.to_set().contains(x));
                            let j = choose|j: int| 0 <= j < old_order.len() && old_order[j] == x;
                            if j < pos {
                                assert(order@[j] == x);
                            } else {
                                assert(order@[j + 1] == x);
                            }
                        } else {
                            assert(order@[pos as int] == x);
                        }
                    }
                }
                assert(order@.to_set() =~= keys@.subrange(0, i + 1).to_set());
            }
            i = i + 1;
        }
        proof {
            assert(keys@.subrange(0, keys@.len() as int) =~= keys@);
            assert(order@.to_set() =~= self.short().dom());
        }
        (long, order)
    }

    /// The recency index of `exec`, or 0 if it was not activated recently.
    pub open spec fn spec_get_recent(&self, exec: Seq<char>) -> usize {
        if self.short().contains_key(key_hash(exec)) {
            self.short()[key_hash(exec)]
        } else {
            0
        }
    }

    /// How often `exec` was activated, or 0 if it is not remembered.
    pub open spec fn spec_get_freq(&self, exec: Seq<char>) -> usize {
        if self.long().contains_key(key_hash(exec)) {
            self.long()[key_hash(exec)]
        } else {
            0
        }
    }

    /// The recency index of a command: higher is more recent, 0 is never or long ago.
    pub fn get_recent(&self, exec: &str) -> (r: usize)
        ensures
            r == self.spec_get_recent(exec@),
    {
        let key = hash_key(exec);
        match self.short_term.get(&key) {
            Some(v) => *v,
            None => 0,
        }
    }

    /// How often a command was activated.
    pub fn get_freq(&self, exec: &str) -> (r: usize)
        ensures
            r == self.spec_get_freq(exec@),
    {
        let key = hash_key(exec);
        match self.long_term.get(&key) {
            Some(v) => *v,
            None => 0,
        }
    }
}

} // verus!

verus! {

/// Law: the command just activated is the most recent entry of the short-term storage, more
/// recent than every other entry that remains after trimming.
pub proof fn law_add_makes_most_recent(short: Map<u64, usize>, h: u64, kept: Map<u64, usize>)
    requires
        short.dom().finite(),
        max_index(short) < usize::MAX,
        trimmed_short(short.insert(h, (max_index(short) + 1) as usize), kept),
    ensures
        kept.contains_key(h),
        kept[h] == max_index(short) + 1,
        forall|k: u64| #[trigger] kept.contains_key(k) && k != h ==> kept[k] < kept[h],
{
    let m = short.insert(h, (max_index(short) + 1) as usize);
    lemma_max_index(short);
    assert(m.contains_key(h));
    assert(kept.dom().len() > 0) by {
        assert(m.dom().len() > 0) by {
            assert(m.dom().contains(h));
        }
    }
    if !kept.contains_key(h) {
        let k = kept.dom().choose();
        assert(kept.contains_key(k));
        assert(m[h] < m[k]);
        assert(short.contains_key(k));
    }
    assert forall|k: u64| #[trigger] kept.contains_key(k) && k != h implies kept[k] < kept[h] by {
        assert(short.contains_key(k));
    }
}

/// Law: after trimming, at most `SHORTTERM_CAP` recent entries remain.
pub proof fn law_trim_short_bounded(m: Map<u64, usize>, kept: Map<u64, usize>)
    requires
        trimmed_short(m, kept),
    ensures
        kept.dom().len() <= SHORTTERM_CAP,
{
}

/// Law: after trimming, the long-term counts total at most `LONGTERM_CAP`.
pub proof fn law_trim_long_bounded(m: Map<u64, usize>)
    requires
        m.dom().finite(),
    ensures
        map_total(trim_long(m)) <= LONGTERM_CAP,
        trim_long(m).dom().finite(),
    decreases map_total(m),
{
    if map_total(m) > LONGTERM_CAP {
        lemma_halve_total(m);
        lemma_map_total_nonneg(halve(m));
        law_trim_long_bounded(halve(m));
    }
}

/// Law: while the counts stay within `LONGTERM_CAP`, an activation raises the count of its
/// command by exactly one and leaves every other count unchanged.
pub proof fn law_add_counts_once(long: Map<u64, usize>, h: u64, count: usize)
    requires
        long.dom().finite(),
        count == (if long.contains_key(h) { long[h] } else { 0usize }),
        map_total(long) + 1 <= LONGTERM_CAP,
    ensures
        trim_long(long.insert(h, (count + 1) as usize)) == long.insert(h, (count + 1) as usize),
{
    let n = long.insert(h, (count + 1) as usize);
    lemma_map_total_remove(n, h);
    if long.contains_key(h) {
        lemma_map_total_remove(long, h);
        assert(n.remove(h) =~= long.remove(h));
    } else {
        assert(n.remove(h) =~= long);
    }
}

/// Law: saving a storage and loading it back keeps the same recently used commands in the same
/// order of recency.
pub proof fn law_roundtrip_keeps_recency_order(short: Map<u64, usize>, order: Seq<u64>)
    requires
        short.dom().finite(),
        sorted_by_value(short, order),
        order.len() <= usize::MAX,
    ensures
        index_map(order).dom() == short.dom(),
        forall|a: u64, b: u64|
            #![trigger short.contains_key(a), short.contains_key(b)]
            short.contains_key(a) && short.contains_key(b) ==> (short[a] < short[b] <==> index_map(
                order,
            )[a] < index_map(order)[b]),
{
    lemma_index_map(order);
    let m = index_map(order);
    assert forall|k: u64| m.contains_key(k) <==> short.contains_key(k) by {
        assert(order.to_set().contains(k) <==> order.contains(k));
    }
    assert(m.dom() =~= short.dom());
    assert forall|a: u64, b: u64|
        #![trigger short.contains_key(a), short.contains_key(b)]
        short.contains_key(a) && short.contains_key(b) implies (short[a] < short[b] <==> m[a] < m[b]) by {
        assert(order.contains(a));
        assert(order.contains(b));
        let ia = m[a] as int;
        let ib = m[b] as int;
        if ia < ib {
            assert(short[order[ia]] < short[order[ib]]);
        } else if ib < ia {
            assert(short[order[ib]] < short[order[ia]]);
        }
    }
}

} // verus!
