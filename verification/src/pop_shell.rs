//! The plugin that searches the windows of Pop Shell: its configuration and its search.
use crate::cosmic_toplevel::{all_words_in, words_in};
use crate::protocol::{IconSource, PluginResponse, PluginSearchResult};
use crate::text::{ascii_lowercase, ascii_words, chars_of, contains_seq, split_ascii_whitespace, string_of, sub_chars, to_ascii_lowercase};
use vstd::prelude::*;

verus! {

/// The default of a flag that is on unless configured off.
pub fn bool_true() -> (b: bool)
    ensures
        b,
{
    true
}

/// Which texts of a window a search looks in.
#[derive(Debug, Clone, Copy, PartialEq, Eq, Structural)]
pub struct SearchScope {
    pub name: bool,
    pub description: bool,
}

impl SearchScope {
    /// Both the name and the description are searched.
    pub fn default() -> (s: SearchScope)
        ensures
            s.name && s.description,
    {
        SearchScope { name: bool_true(), description: bool_true() }
    }
}

/// The configuration of the plugin.
#[derive(Debug, Clone, Copy, PartialEq, Eq, Structural)]
pub struct Config {
    pub search: SearchScope,
}

impl Config {
    /// The configuration when none is found.
    pub fn default() -> (c: Config)
        ensures
            c.search.name && c.search.description,
    {
        Config { search: SearchScope::default() }
    }

    /// A configuration file read later replaces what an earlier one set.
    pub fn apply(&mut self, other: Config)
        ensures
            *final(self) == other,
    {
        self.search = other.search;
    }
}

/// A window that Pop Shell lists.
#[derive(Debug)]
pub struct WindowItem {
    pub entity: (u32, u32),
    pub name: String,
    pub description: String,
    /// The file name of the desktop entry of the window's application.
    pub desktop_entry: String,
}

/// The icon shown for a window whose application has no icon found.
pub open spec fn fallback_icon() -> Seq<char> {
    "application-x-executable"@
}

/// A search for `q` keeps the window `item`: each word of the lower-case query occurs in its name
/// or each occurs in its description, ignoring ASCII case, where the scope searches that text.
pub open spec fn item_retained(item: WindowItem, scope: SearchScope, q: Seq<char>) -> bool {
    let words = ascii_words(ascii_lowercase(q));
    (scope.name && words_in(item.name@, words)) || (scope.description && words_in(item.description@, words))
}

/// The positions of the first `n` windows that a search keeps, in order.
pub open spec fn retained_positions(items: Seq<WindowItem>, scope: SearchScope, q: Seq<char>, n: int) -> Seq<int>
    decreases n,
{
    if n <= 0 {
        Seq::empty()
    } else if item_retained(items[n - 1], scope, q) {
        retained_positions(items, scope, q, n - 1).push(n - 1)
    } else {
        retained_positions(items, scope, q, n - 1)
    }
}

/// Law: a search for `q` keeps, in order of position, exactly the windows for which every word
/// of the lower-case query occurs in the lower-case name (when the scope searches names), or
/// every word occurs in the lower-case description (when it searches descriptions).
pub proof fn law_windows_retained(items: Seq<WindowItem>, scope: SearchScope, q: Seq<char>, n: int)
    requires
        0 <= n <= items.len(),
    ensures
        forall|k: int| 0 <= k < retained_positions(items, scope, q, n).len() ==> 0 <= #[trigger] retained_positions(items, scope, q, n)[k] < n,
        forall|k1: int, k2: int|
            0 <= k1 < k2 < retained_positions(items, scope, q, n).len() ==> #[trigger] retained_positions(items, scope, q, n)[k1]
                < #[trigger] retained_positions(items, scope, q, n)[k2],
        forall|i: int|
            0 <= i < n ==> (#[trigger] retained_positions(items, scope, q, n).contains(i) <==> {
                ||| scope.name && forall|w: int|
                    0 <= w < ascii_words(ascii_lowercase(q)).len() ==> contains_seq(
                        ascii_lowercase(items[i].name@),
                        #[trigger] ascii_words(ascii_lowercase(q))[w],
                    )
                ||| scope.description && forall|w: int|
                    0 <= w < ascii_words(ascii_lowercase(q)).len() ==> contains_seq(
                        ascii_lowercase(items[i].description@),
                        #[trigger] ascii_words(ascii_lowercase(q))[w],
                    )
            }),
    decreases n,
{
    if n > 0 {
        law_windows_retained(items, scope, q, n - 1);
        let prev = retained_positions(items, scope, q, n - 1);
        let cur = retained_positions(items, scope, q, n);
        assert forall|i: int| 0 <= i < n implies (cur.contains(i) <==> item_retained(items[i], scope, q)) by {
            if cur.contains(i) {
                let k = choose|k: int| 0 <= k < cur.len() && cur[k] == i;
                if k < prev.len() {
                    assert(prev[k] == i);
                    assert(prev.contains(i));
                }
            }
            if i < n - 1 {
                if prev.contains(i) {
                    let k = choose|k: int| 0 <= k < prev.len() && prev[k] == i;
                    assert(cur[k] == i);
                }
            } else {
                if item_retained(items[n - 1], scope, q) {
                    assert(cur[prev.len() as int] == i);
                } else {
                    assert(cur == prev);
                    if prev.contains(i) {
                        let k = choose|k: int| 0 <= k < prev.len() && prev[k] == i;
                        assert(prev[k] < n - 1);
                    }
                }
            }
        }
        assert forall|k1: int, k2: int| 0 <= k1 < k2 < cur.len() implies cur[k1] < cur[k2] by {
            if k2 >= prev.len() {
                assert(cur[k1] == prev[k1]);
            } else {
                assert(cur[k1] == prev[k1] && cur[k2] == prev[k2]);
            }
        }
    }
}

/// The icon of the window at position `i`: the one found for its application, if any.
pub open spec fn icon_at(icons: Seq<Option<String>>, i: int) -> Seq<char> {
    if 0 <= i < icons.len() && icons[i] is Some {
        icons[i]->0@
    } else {
        fallback_icon()
    }
}

/// `resp` shows the window `item` at position `i`, with the icon named `icon`.
pub open spec fn window_response(resp: PluginResponse, item: WindowItem, i: int, icon: Seq<char>) -> bool {
    match resp {
        PluginResponse::Append(r) => {
            &&& r.id == i
            &&& r.name == item.name
            &&& r.description == item.description
            &&& r.icon matches Some(IconSource::Name(n)) && n@ == icon
            &&& r.window == Some(item.entity)
            &&& r.keywords is None
            &&& r.exec_command is None
        },
        _ => false,
    }
}

/// Answers a search for `query` over the windows `items`: each window kept, in order, with the icon
/// that `icons` holds at its position or else the fallback icon; then `Finished`.
pub fn search_windows(items: &Vec<WindowItem>, icons: &Vec<Option<String>>, scope: SearchScope, query: &str) -> (rs: Vec<PluginResponse>)
    requires
        items@.len() <= u32::MAX,
    ensures
        ({
            let kept = retained_positions(items@, scope, query@, items@.len() as int);
            &&& rs@.len() == kept.len() + 1
            &&& forall|k: int| 0 <= k < kept.len() ==> window_response(#[trigger] rs@[k], items@[kept[k]], kept[k], icon_at(icons@, kept[k]))
            &&& rs@.last() is Finished
        }),
{
    let words = split_ascii_whitespace(&to_ascii_lowercase(&chars_of(query)));
    let mut rs: Vec<PluginResponse> = Vec::new();
    let mut i: usize = 0;
    while i < items.len()
        invariant
            items@.len() <= u32::MAX,
            0 <= i <= items@.len(),
            words@.map_values(|w: Vec<char>| w@) == ascii_words(ascii_lowercase(query@)),
            rs@.len() == retained_positions(items@, scope, query@, i as int).len(),
            forall|k: int| 0 <= k < rs@.len() ==> {
                let p = #[trigger] retained_positions(items@, scope, query@, i as int)[k];
                window_response(rs@[k], items@[p], p, icon_at(icons@, p))
            },
        decreases items@.len() - i,
    {
        let item = &items[i];
        let keep = (scope.name && all_words_in(item.name.as_str(), &words)) || (scope.description && all_words_in(
            item.description.as_str(),
            &words,
        ));
        if keep {
            let icon = if i < icons.len() {
                match &icons[i] {
                    Some(name) => name.clone(),
                    None => "application-x-executable".to_owned(),
                }
            } else {
                "application-x-executable".to_owned()
            };
            proof {
                reveal_strlit("application-x-executable");
            }
            rs.push(
                PluginResponse::Append(
                    PluginSearchResult {
                        id: i as u32,
                        name: item.name.clone(),
                        description: item.description.clone(),
                        keywords: None,
                        icon: Some(IconSource::Name(icon)),
                        exec_command: None,
                        window: Some(item.entity),
                    },
                ),
            );
        }
        i = i + 1;
    }
    let ghost before = rs@;
    rs.push(PluginResponse::Finished);
    proof {
        assert forall|k: int| 0 <= k < before.len() implies rs@[k] == before[k] by {}
    }
    rs
}

/// The window that the result `id` stands for, if there is one.
pub fn window_for(items: &Vec<WindowItem>, id: u32) -> (r: Option<(u32, u32)>)
    ensures
        (id as int) < items@.len() ==> r == Some(items@[id as int].entity),
        (id as int) >= items@.len() ==> r is None,
{
    if (id as usize) < items.len() {
        Some(items[id as usize].entity)
    } else {
        None
    }
}

/// The name of a desktop entry's file without its `.desktop` suffix, if it has that suffix.
pub open spec fn entry_stem(file: Seq<char>) -> Option<Seq<char>> {
    if file.len() >= 8 && file.subrange(file.len() - 8, file.len() as int) == ".desktop"@ {
        Some(file.subrange(0, file.len() - 8))
    } else {
        None
    }
}

/// The application name that a window's desktop entry file names, which the search looks up among
/// the desktop entries to find the window's icon.
pub fn desktop_entry_stem(file: &str) -> (r: Option<String>)
    ensures
        r matches Some(s) ==> entry_stem(file@) == Some(s@),
        r is None ==> entry_stem(file@) is None,
{
    let cs = chars_of(file);
    let suffix = chars_of(".desktop");
    proof {
        reveal_strlit(".desktop");
    }
    let n = cs.len();
    if n < 8 {
        return None;
    }
    let mut k: usize = 0;
    while k < 8
        invariant
            n == cs@.len(),
            cs@ == file@,
            n >= 8,
            suffix@ == ".desktop"@,
            suffix@.len() == 8,
            0 <= k <= 8,
            forall|j: int| 0 <= j < k ==> cs@[n - 8 + j] == suffix@[j],
        decreases 8 - k,
    {
        if cs[n - 8 + k] != suffix[k] {
            proof {
                assert(cs@.subrange(n - 8, n as int)[k as int] != ".desktop"@[k as int]);
            }
            return None;
        }
        k = k + 1;
    }
    proof {
        assert(cs@.subrange(n - 8, n as int) =~= ".desktop"@);
    }
    Some(string_of(&sub_chars(&cs, 0, n - 8)))
}

} // verus!
