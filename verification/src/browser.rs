//! The logic of the plugins that search the bookmarks and the history of the web browser.
use crate::protocol::{PluginResponse, PluginSearchResult};
use crate::text::{chars_of, contains, contains_seq, ends_with, has_suffix, join_path, joined_path, starts_with, trim, trim_seq};
use vstd::prelude::*;
use vstd::string::StrSliceExecFns;

verus! {

/// The default web browser, as far as the plugins care.
#[derive(Debug, Clone, Copy, PartialEq, Eq, Structural)]
pub enum Browser {
    Unknown,
    Firefox,
}

impl Browser {
    /// The browser that `xdg-settings get default-web-browser` names in `setting` (`None` when
    /// the command failed): Firefox when the trimmed answer mentions `firefox`.
    pub fn from_setting(setting: Option<&str>) -> (b: Browser)
        ensures
            b == match setting {
                Some(s) => if contains_seq(trim_seq(s@), "firefox"@) {
                    Browser::Firefox
                } else {
                    Browser::Unknown
                },
                None => Browser::Unknown,
            },
    {
        match setting {
            Some(s) => if contains(&trim(&chars_of(s)), &chars_of("firefox")) {
                Browser::Firefox
            } else {
                Browser::Unknown
            },
            None => Browser::Unknown,
        }
    }
}

/// The position of the first of `entries` that names a profile ending in `.default-release`.
pub open spec fn default_release(entries: Seq<String>) -> Option<int> {
    if exists|i: int| 0 <= i < entries.len() && has_suffix(entries[i]@, ".default-release"@) {
        Some(
            choose|i: int|
                0 <= i < entries.len() && has_suffix(entries[i]@, ".default-release"@) && forall|j: int|
                    0 <= j < i ==> !has_suffix(#[trigger] entries[j]@, ".default-release"@),
        )
    } else {
        None
    }
}

/// The database of the browser's places, given the entries of the Firefox directory: the
/// `places.sqlite` file of the first profile whose name ends in `.default-release`.
pub fn places_db(entries: &Vec<String>) -> (r: Option<String>)
    ensures
        match default_release(entries@) {
            Some(i) => r matches Some(p) && p@ == joined_path(entries@[i]@, "places.sqlite"@),
            None => r is None,
        },
{
    let mut i: usize = 0;
    while i < entries.len()
        invariant
            0 <= i <= entries@.len(),
            forall|j: int| 0 <= j < i ==> !has_suffix(#[trigger] entries@[j]@, ".default-release"@),
        decreases entries@.len() - i,
    {
        if ends_with(entries[i].as_str(), ".default-release") {
            proof {
                let w = choose|w: int|
                    0 <= w < entries@.len() && has_suffix(entries@[w]@, ".default-release"@) && forall|j: int|
                        0 <= j < w ==> !has_suffix(#[trigger] entries@[j]@, ".default-release"@);
                if w < i {
                    assert(!has_suffix(entries@[w]@, ".default-release"@));
                }
                if i < w {
                    assert(!has_suffix(entries@[i as int]@, ".default-release"@));
                }
            }
            return Some(join_path(entries[i].as_str(), "places.sqlite"));
        }
        i = i + 1;
    }
    None
}

/// A bookmark of the browser.
#[derive(Debug, Clone)]
pub struct Bookmark {
    pub bookmark_name: Option<String>,
    pub url: String,
    pub title: Option<String>,
    pub description: Option<String>,
}

/// A page of the browser's history.
#[derive(Debug, Clone)]
pub struct HistoryEntry {
    pub url: String,
    pub title: Option<String>,
    pub description: Option<String>,
}

/// The text of an optional description, empty when there is none.
pub open spec fn text_or_empty(o: Option<String>) -> Seq<char> {
    match o {
        Some(s) => s@,
        None => Seq::empty(),
    }
}

/// A copy of an optional description, empty when there is none.
fn or_empty(o: &Option<String>) -> (s: String)
    ensures
        s@ == text_or_empty(*o),
{
    match o {
        Some(d) => d.clone(),
        None => String::new(),
    }
}

impl Bookmark {
    /// The result that shows this bookmark, numbered `id`: its name (its address when it has
    /// none), described by its description.
    pub fn map_to_plugin_response(&self, id: usize) -> (r: PluginResponse)
        ensures
            r matches PluginResponse::Append(x) && {
                &&& x.id == id as u32
                &&& x.name@ == match self.bookmark_name {
                    Some(n) => n@,
                    None => self.url@,
                }
                &&& x.description@ == text_or_empty(self.description)
                &&& x.keywords is None && x.icon is None && x.exec_command is None && x.window is None
            },
    {
        let name = match &self.bookmark_name {
            Some(n) => n.clone(),
            None => self.url.clone(),
        };
        PluginResponse::Append(
            PluginSearchResult {
                id: #[verifier::truncate] (id as u32),
                name,
                description: or_empty(&self.description),
                keywords: None,
                icon: None,
                exec_command: None,
                window: None,
            },
        )
    }
}

impl HistoryEntry {
    /// The result that shows this page, numbered `id`: its address, described by its
    /// description.
    pub fn map_to_plugin_response(&self, id: usize) -> (r: PluginResponse)
        ensures
            r matches PluginResponse::Append(x) && {
                &&& x.id == id as u32
                &&& x.name@ == self.url@
                &&& x.description@ == text_or_empty(self.description)
                &&& x.keywords is None && x.icon is None && x.exec_command is None && x.window is None
            },
    {
        PluginResponse::Append(
            PluginSearchResult {
                id: #[verifier::truncate] (id as u32),
                name: self.url.clone(),
                description: or_empty(&self.description),
                keywords: None,
                icon: None,
                exec_command: None,
                window: None,
            },
        )
    }
}

/// The query of a search of `prefix`: what follows the prefix, or nothing when the query does
/// not start with it.
pub open spec fn after_prefix(q: Seq<char>, prefix: Seq<char>) -> Seq<char> {
    if crate::search::has_prefix(q, prefix) {
        q.subrange(prefix.len() as int, q.len() as int)
    } else {
        Seq::empty()
    }
}

/// What follows `prefix` in `query`, or nothing.
pub fn strip_prefix_or_empty(query: &str, prefix: &str) -> (r: String)
    ensures
        r@ == after_prefix(query@, prefix@),
{
    if starts_with(query, prefix) {
        query.substring_char(prefix.unicode_len(), query.unicode_len()).to_owned()
    } else {
        String::new()
    }
}

} // verus!

verus! {

/// A multimap of the `btreemultimap` crate, whose keys are kept in order.
#[verifier::external_type_specification]
#[verifier::external_body]
#[verifier::reject_recursive_types(K)]
#[verifier::reject_recursive_types(V)]
pub struct ExBTreeMultiMap<K, V>(btreemultimap::BTreeMultiMap<K, V>);

/// The values of each key of a multimap, in the order they were inserted.
pub uninterp spec fn multimap_groups(m: btreemultimap::BTreeMultiMap<u64, usize>) -> Map<u64, Seq<usize>>;

/// `btreemultimap::BTreeMultiMap::new`: an empty multimap.
#[verifier::external_body]
fn groups_new() -> (m: btreemultimap::BTreeMultiMap<u64, usize>)
    ensures
        multimap_groups(m).dom().is_empty(),
{
    btreemultimap::BTreeMultiMap::new()
}

/// `btreemultimap::BTreeMultiMap::insert`: the value is appended to those of its key.
#[verifier::external_body]
fn groups_insert(m: &mut btreemultimap::BTreeMultiMap<u64, usize>, k: u64, v: usize)
    ensures
        multimap_groups(*final(m)) == multimap_groups(*old(m)).insert(
            k,
            if multimap_groups(*old(m)).contains_key(k) {
                multimap_groups(*old(m))[k].push(v)
            } else {
                seq![v]
            },
        ),
{
    m.insert(k, v)
}

/// `btreemultimap::BTreeMultiMap::into_iter`: the keys in increasing order, each with its
/// values.
#[verifier::external_body]
fn groups_into_list(m: btreemultimap::BTreeMultiMap<u64, usize>) -> (l: Vec<(u64, Vec<usize>)>)
    ensures
        forall|i: int, j: int| 0 <= i < j < l@.len() ==> l@[i].0 < l@[j].0,
        forall|i: int|
            0 <= i < l@.len() ==> multimap_groups(m).contains_key(#[trigger] l@[i].0) && l@[i].1@ == multimap_groups(
                m,
            )[l@[i].0],
        forall|k: u64| multimap_groups(m).contains_key(k) ==> exists|i: int| 0 <= i < l@.len() && #[trigger] l@[i].0 == k,
{
    m.into_iter().collect()
}

/// The entry `a` is shown before the entry `b`: it overlaps the query more, or as much and
/// comes first.
pub open spec fn ranked_before(ov: Seq<usize>, a: int, b: int) -> bool {
    ov[a] > ov[b] || (ov[a] == ov[b] && a < b)
}

/// The key under which an entry with overlap `o` is grouped: larger overlaps come first.
pub open spec fn rank_key(o: usize) -> u64 {
    (u64::MAX - o) as u64
}

/// The ranked list `r` of the kept entries.
pub open spec fn is_ranking(ov: Seq<usize>, kept: Seq<bool>, r: Seq<usize>) -> bool {
    &&& forall|p: int| 0 <= p < r.len() ==> #[trigger] r[p] < ov.len() && kept[r[p] as int]
    &&& forall|i: int| 0 <= i < ov.len() && kept[i] ==> r.contains(i as usize)
    &&& forall|p: int, q: int| 0 <= p < q < r.len() ==> ranked_before(ov, #[trigger] r[p] as int, #[trigger] r[q] as int)
}

/// Orders the kept entries by decreasing overlap with the query, entries of equal overlap in
/// their order.
pub fn rank_by_overlap(overlaps: &Vec<usize>, kept: &Vec<bool>) -> (r: Vec<usize>)
    requires
        kept@.len() == overlaps@.len(),
    ensures
        is_ranking(overlaps@, kept@, r@),
        r@.no_duplicates(),
{
    let ghost ov = overlaps@;
    let mut m = groups_new();
    let mut i: usize = 0;
    while i < overlaps.len()
        invariant
            ov == overlaps@,
            kept@.len() == ov.len(),
            0 <= i <= ov.len(),
            forall|k: u64| #[trigger] multimap_groups(m).contains_key(k) ==> {
                let g = multimap_groups(m)[k];
                &&& forall|a: int, b: int| 0 <= a < b < g.len() ==> g[a] < g[b]
                &&& forall|a: int| 0 <= a < g.len() ==> #[trigger] g[a] < i && kept@[g[a] as int] && rank_key(ov[g[a] as int]) == k
            },
            forall|e: int|
                0 <= e < i && kept@[e] ==> multimap_groups(m).contains_key(rank_key(#[trigger] ov[e])) && multimap_groups(
                    m,
                )[rank_key(ov[e])].contains(e as usize),
        decreases ov.len() - i,
    {
        if kept[i] {
            let k: u64 = u64::MAX - (overlaps[i] as u64);
            let ghost before = multimap_groups(m);
            groups_insert(&mut m, k, i);
            proof {
                assert(k == rank_key(ov[i as int]));
                let after = multimap_groups(m);
                assert forall|e: int|
                    0 <= e < i + 1 && kept@[e] implies after.contains_key(rank_key(#[trigger] ov[e])) && after[rank_key(
                    ov[e],
                )].contains(e as usize) by {
                    if e < i {
                        let ke = rank_key(ov[e]);
                        assert(before.contains_key(ke) && before[ke].contains(e as usize));
                        if ke == k {
                            let t = choose|t: int| 0 <= t < before[ke].len() && before[ke][t] == e as usize;
                            assert(after[ke][t] == e as usize);
                        }
                    } else {
                        assert(after[k].last() == i);
                    }
                }
            }
        }
        i = i + 1;
    }
    let ghost groups = multimap_groups(m);
    let list = groups_into_list(m);
    let mut out: Vec<usize> = Vec::new();
    let ghost mut gi: Seq<int> = Seq::empty();
    let mut g: usize = 0;
    while g < list.len()
        invariant
            ov == overlaps@,
            kept@.len() == ov.len(),
            0 <= g <= list@.len(),
            gi.len() == out@.len(),
            forall|x: int, y: int| 0 <= x < y < list@.len() ==> list@[x].0 < list@[y].0,
            forall|x: int|
                0 <= x < list@.len() ==> groups.contains_key(#[trigger] list@[x].0) && list@[x].1@ == groups[list@[x].0],
            forall|k: u64| #[trigger] groups.contains_key(k) ==> {
                let gr = groups[k];
                &&& forall|a: int, b: int| 0 <= a < b < gr.len() ==> gr[a] < gr[b]
                &&& forall|a: int| 0 <= a < gr.len() ==> #[trigger] gr[a] < ov.len() && kept@[gr[a] as int] && rank_key(ov[gr[a] as int]) == k
            },
            forall|p: int| 0 <= p < out@.len() ==> 0 <= #[trigger] gi[p] < g && rank_key(ov[out@[p] as int]) == list@[gi[p]].0,
            forall|p: int| 0 <= p < out@.len() ==> #[trigger] out@[p] < ov.len() && kept@[out@[p] as int],
            forall|p: int, q: int| 0 <= p < q < out@.len() ==> ranked_before(ov, #[trigger] out@[p] as int, #[trigger] out@[q] as int),
            forall|x: int, a: int| 0 <= x < g && 0 <= a < list@[x].1@.len() ==> out@.contains(#[trigger] list@[x].1@[a]),
        decreases list@.len() - g,
    {
        let group = &list[g].1;
        let ghost key = list@[g as int].0;
        let mut e: usize = 0;
        while e < group.len()
            invariant
                ov == overlaps@,
                kept@.len() == ov.len(),
                0 <= g < list@.len(),
                key == list@[g as int].0,
                group@ == list@[g as int].1@,
                group@ == groups[key],
                groups.contains_key(key),
                0 <= e <= group@.len(),
                gi.len() == out@.len(),
                forall|x: int, y: int| 0 <= x < y < list@.len() ==> list@[x].0 < list@[y].0,
                forall|a: int, b: int| 0 <= a < b < group@.len() ==> group@[a] < group@[b],
                forall|a: int| 0 <= a < group@.len() ==> #[trigger] group@[a] < ov.len() && kept@[group@[a] as int] && rank_key(ov[group@[a] as int]) == key,
                forall|p: int| 0 <= p < out@.len() ==> 0 <= #[trigger] gi[p] <= g && rank_key(ov[out@[p] as int]) == list@[gi[p]].0,
                forall|p: int| 0 <= p < out@.len() && gi[p] == g ==> e > 0 && out@[p] <= group@[e - 1],
                forall|p: int| 0 <= p < out@.len() ==> #[trigger] out@[p] < ov.len() && kept@[out@[p] as int],
                forall|p: int, q: int| 0 <= p < q < out@.len() ==> ranked_before(ov, #[trigger] out@[p] as int, #[trigger] out@[q] as int),
                forall|x: int, a: int| 0 <= x < g && 0 <= a < list@[x].1@.len() ==> out@.contains(#[trigger] list@[x].1@[a]),
                forall|a: int| 0 <= a < e ==> out@.contains(#[trigger] group@[a]),
            decreases group@.len() - e,
        {
            let x = group[e];
            let ghost before = out@;
            proof {
                assert forall|p: int| 0 <= p < before.len() implies ranked_before(ov, before[p] as int, x as int) by {
                    if gi[p] < g {
                        assert(list@[gi[p]].0 < key);
                        assert(rank_key(ov[before[p] as int]) < rank_key(ov[x as int]));
                    } else {
                        assert(before[p] <= group@[e - 1]);
                        assert(group@[e - 1] < group@[e as int]);
                        assert(rank_key(ov[before[p] as int]) == rank_key(ov[x as int]));
                    }
                }
            }
            out.push(x);
            proof {
                gi = gi.push(g as int);
                assert forall|p: int, q: int| 0 <= p < q < out@.len() implies ranked_before(ov, #[trigger] out@[p] as int, #[trigger] out@[q] as int) by {
                    if q < before.len() {
                        assert(out@[p] == before[p] && out@[q] == before[q]);
                    } else {
                        assert(out@[p] == before[p]);
                    }
                }
                assert forall|x2: int, a: int| 0 <= x2 < g && 0 <= a < list@[x2].1@.len() implies out@.contains(#[trigger] list@[x2].1@[a]) by {
                    assert(before.contains(list@[x2].1@[a]));
                    let t = choose|t: int| 0 <= t < before.len() && before[t] == list@[x2].1@[a];
                    assert(out@[t] == before[t]);
                }
                assert forall|a: int| 0 <= a < e + 1 implies out@.contains(#[trigger] group@[a]) by {
                    if a < e {
                        assert(before.contains(group@[a]));
                        let t = choose|t: int| 0 <= t < before.len() && before[t] == group@[a];
                        assert(out@[t] == before[t]);
                    } else {
                        assert(out@[before.len() as int] == group@[a]);
                    }
                }
            }
            e = e + 1;
        }
        g = g + 1;
    }
    proof {
        assert forall|ix: int| 0 <= ix < ov.len() && kept@[ix] implies out@.contains(ix as usize) by {
            let k = rank_key(ov[ix]);
            assert(groups.contains_key(k) && groups[k].contains(ix as usize));
            let x = choose|x: int| 0 <= x < list@.len() && #[trigger] list@[x].0 == k;
            let a = choose|a: int| 0 <= a < groups[k].len() && groups[k][a] == ix as usize;
            assert(list@[x].1@[a] == ix as usize);
        }
        assert forall|p: int, q: int| 0 <= p < q < out@.len() implies out@[p] != out@[q] by {
            assert(ranked_before(ov, out@[p] as int, out@[q] as int));
        }
    }
    out
}

} // verus!

verus! {

/// `a` and `b` have a common substring of `k` characters.
pub open spec fn common_len(a: Seq<char>, b: Seq<char>, k: int) -> bool {
    exists|i: int, j: int|
        0 <= i && i + k <= a.len() && 0 <= j && j + k <= b.len() && #[trigger] a.subrange(i, i + k) == #[trigger] b.subrange(
            j,
            j + k,
        )
}

/// `textdistance::str::lcsstr`: the length of the longest common substring of `a` and `b`.
///
/// Trusted: as the crate documents it.
#[verifier::external_body]
fn lcsstr(a: &str, b: &str) -> (r: usize)
    ensures
        common_len(a@, b@, r as int),
        forall|k: int| k > r ==> !common_len(a@, b@, k),
{
    textdistance::str::lcsstr(a, b)
}

/// What `str::to_lowercase` makes of `s`.
pub uninterp spec fn lowercase(s: Seq<char>) -> Seq<char>;

/// `str::to_lowercase`.
///
/// Trusted: the result is named `lowercase` of the text it was given; nothing else is claimed.
#[verifier::external_body]
fn to_lowercase(s: &str) -> (r: String)
    ensures
        r@ == lowercase(s@),
{
    s.to_lowercase()
}

/// `r` is the longest common substring of `q` and one of `vs`.
pub open spec fn best_common(q: Seq<char>, vs: Seq<Seq<char>>, r: int) -> bool {
    &&& (vs.len() == 0 ==> r == 0)
    &&& (vs.len() > 0 ==> exists|i: int| 0 <= i < vs.len() && common_len(q, #[trigger] vs[i], r))
    &&& forall|i: int, k: int| 0 <= i < vs.len() && k > r ==> !#[trigger] common_len(q, vs[i], k)
}

/// The longest common substring of `q` and one of `vs`, in lower case.
fn best_overlap(q: &str, vs: &Vec<String>) -> (r: usize)
    ensures
        best_common(q@, vs@.map_values(|v: String| lowercase(v@)), r as int),
{
    let ghost lv = vs@.map_values(|v: String| lowercase(v@));
    let mut best: usize = 0;
    let mut i: usize = 0;
    while i < vs.len()
        invariant
            lv == vs@.map_values(|v: String| lowercase(v@)),
            0 <= i <= vs@.len(),
            i == 0 ==> best == 0,
            i > 0 ==> exists|j: int| 0 <= j < i && common_len(q@, #[trigger] lv[j], best as int),
            forall|j: int, k: int| 0 <= j < i && k > best ==> !#[trigger] common_len(q@, lv[j], k),
        decreases vs@.len() - i,
    {
        let l = lcsstr(q, to_lowercase(vs[i].as_str()).as_str());
        proof {
            assert(lv[i as int] == lowercase(vs@[i as int]@));
        }
        if i == 0 || l > best {
            best = l;
        } else {
            proof {
                assert(common_len(q@, lv[i as int], l as int));
            }
        }
        i = i + 1;
    }
    best
}

impl Bookmark {
    /// The texts of the bookmark that a search looks in: its name, address, title and
    /// description, those it has.
    pub open spec fn texts(&self) -> Seq<String> {
        (match self.bookmark_name {
            Some(n) => seq![n],
            None => Seq::empty(),
        }) + seq![self.url] + (match self.title {
            Some(t) => seq![t],
            None => Seq::empty(),
        }) + (match self.description {
            Some(d) => seq![d],
            None => Seq::empty(),
        })
    }

    /// How much of the lower-case query `query` the bookmark matches: the longest substring
    /// that the query shares with one of its texts in lower case.
    pub fn overlap(&self, query: &str) -> (r: usize)
        ensures
            best_common(query@, self.texts().map_values(|v: String| lowercase(v@)), r as int),
    {
        let mut vs: Vec<String> = Vec::new();
        match &self.bookmark_name {
            Some(n) => vs.push(n.clone()),
            None => {},
        }
        vs.push(self.url.clone());
        match &self.title {
            Some(t) => vs.push(t.clone()),
            None => {},
        }
        match &self.description {
            Some(d) => vs.push(d.clone()),
            None => {},
        }
        proof {
            assert(vs@ =~= self.texts());
        }
        best_overlap(query, &vs)
    }
}

impl HistoryEntry {
    /// The texts of the page that a search looks in: its address, title and description,
    /// those it has.
    pub open spec fn texts(&self) -> Seq<String> {
        seq![self.url] + (match self.title {
            Some(t) => seq![t],
            None => Seq::empty(),
        }) + (match self.description {
            Some(d) => seq![d],
            None => Seq::empty(),
        })
    }

    /// How much of the lower-case query `query` the page matches: the longest substring that
    /// the query shares with one of its texts in lower case.
    pub fn overlap(&self, query: &str) -> (r: usize)
        ensures
            best_common(query@, self.texts().map_values(|v: String| lowercase(v@)), r as int),
    {
        let mut vs: Vec<String> = Vec::new();
        vs.push(self.url.clone());
        match &self.title {
            Some(t) => vs.push(t.clone()),
            None => {},
        }
        match &self.description {
            Some(d) => vs.push(d.clone()),
            None => {},
        }
        proof {
            assert(vs@ =~= self.texts());
        }
        best_overlap(query, &vs)
    }
}

/// The query of a search in lower case.
pub fn lowercase_query(query: &str) -> (r: String)
    ensures
        r@ == lowercase(query@),
{
    to_lowercase(query)
}

} // verus!
