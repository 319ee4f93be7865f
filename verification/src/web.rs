//! The logic of the plugin that searches the web: which search engines a query's first word
//! selects, the addresses it builds, and how a page names its icon.
use crate::pattern::{erase_matches, pattern_is_match, regex_compiles, regex_erased, regex_is_match, CompiledPattern};
use crate::protocol::{IconSource, PluginResponse, PluginSearchResult};
use crate::text::{ascii_words, chars_of, is_ascii_ws, split_ascii_whitespace, string_of, trim, trim_seq};
use slab::Slab;
use vstd::prelude::*;
use vstd::string::{StrSliceExecFns, StringExecFns, StringSliceAdditionalSpecFns};

verus! {

/// A search engine: its name, and the address that a query is appended to.
#[derive(Debug, Clone)]
pub struct Definition {
    pub name: String,
    pub query: String,
}

/// The words that select some search engines.
#[derive(Debug, Clone)]
pub struct Rule {
    pub matches: Vec<String>,
    pub queries: Vec<Definition>,
}

/// The rules of a configuration file.
#[derive(Debug, Clone)]
pub struct RawConfig {
    pub rules: Vec<Rule>,
}

/// The search engines of each rule, by key.
pub uninterp spec fn definitions_table(s: Slab<Vec<Definition>>) -> Map<usize, Seq<Definition>>;

/// `slab::Slab::new`: an empty slab.
#[verifier::external_body]
fn definitions_new() -> (fresh: Slab<Vec<Definition>>)
    ensures
        definitions_table(fresh).dom().is_empty(),
{
    Slab::new()
}

/// `slab::Slab::insert`: stores a value under a key that was vacant, and returns that key.
#[verifier::external_body]
fn definitions_insert(s: &mut Slab<Vec<Definition>>, v: Vec<Definition>) -> (k: usize)
    ensures
        !definitions_table(*old(s)).contains_key(k),
        definitions_table(*final(s)) == definitions_table(*old(s)).insert(k, v@),
{
    s.insert(v)
}

/// `slab::Slab::get`: the value stored under a key, if any.
#[verifier::external_body]
fn definitions_get(s: &Slab<Vec<Definition>>, k: usize) -> (r: Option<&Vec<Definition>>)
    ensures
        match r {
            Some(v) => definitions_table(*s).contains_key(k) && v@ == definitions_table(*s)[k],
            None => !definitions_table(*s).contains_key(k),
        },
{
    s.get(k)
}

/// The rule that each word selects: the last one recorded for it.
pub open spec fn word_map(m: Seq<(String, u32)>) -> Map<Seq<char>, u32>
    decreases m.len(),
{
    if m.len() == 0 {
        Map::empty()
    } else {
        word_map(m.drop_last()).insert(m.last().0@, m.last().1)
    }
}

/// The search engines, and the words that select them.
pub struct Config {
    matches: Vec<(String, u32)>,
    queries: Slab<Vec<Definition>>,
}

impl Config {
    /// The rule that each word selects.
    pub closed spec fn words(&self) -> Map<Seq<char>, u32> {
        word_map(self.matches@)
    }

    /// The search engines of each rule, by key.
    pub closed spec fn rules(&self) -> Map<usize, Seq<Definition>> {
        definitions_table(self.queries)
    }

    /// No rule.
    pub fn new() -> (c: Config)
        ensures
            c.words().dom().is_empty(),
            c.rules().dom().is_empty(),
    {
        Config { matches: Vec::new(), queries: definitions_new() }
    }

    /// Adds the rules of a configuration file: each gets a new key, and each of its words
    /// selects it, overriding what the word selected before.
    pub fn append(&mut self, rules: RawConfig)
        ensures
            exists|ks: Seq<usize>| {
                &&& ks.len() == rules.rules@.len()
                &&& forall|i: int| 0 <= i < ks.len() ==> !old(self).rules().contains_key(#[trigger] ks[i])
                &&& forall|i: int, j: int| 0 <= i < j < ks.len() ==> ks[i] != ks[j]
                &&& final(self).rules() == added_rules(old(self).rules(), ks, rules.rules@)
                &&& final(self).words() == added_words(old(self).words(), ks, rules.rules@)
            },
    {
        let ghost mut ks: Seq<usize> = Seq::empty();
        let all = rules.rules;
        let mut i: usize = 0;
        while i < all.len()
            invariant
                0 <= i <= all@.len(),
                ks.len() == i,
                forall|a: int| 0 <= a < ks.len() ==> !old(self).rules().contains_key(#[trigger] ks[a]),
                forall|a: int, b: int| 0 <= a < b < ks.len() ==> ks[a] != ks[b],
                self.rules() == added_rules(old(self).rules(), ks, all@.take(i as int)),
                self.words() == added_words(old(self).words(), ks, all@.take(i as int)),
            decreases all@.len() - i,
        {
            let rule = &all[i];
            let ghost before_rules = self.rules();
            let mut defs: Vec<Definition> = Vec::new();
            let mut d: usize = 0;
            while d < rule.queries.len()
                invariant
                    0 <= d <= rule.queries@.len(),
                    defs@ == rule.queries@.take(d as int),
                decreases rule.queries@.len() - d,
            {
                defs.push(Definition { name: rule.queries[d].name.clone(), query: rule.queries[d].query.clone() });
                proof {
                    assert(defs@ =~= rule.queries@.take(d + 1));
                }
                d = d + 1;
            }
            proof {
                assert(defs@ =~= rule.queries@);
            }
            let idx = definitions_insert(&mut self.queries, defs);
            let ghost old_ks = ks;
            proof {
                assert forall|a: int| 0 <= a < ks.len() implies ks[a] != idx by {
                    assert(before_rules.contains_key(ks[a])) by {
                        lemma_added_rules_has(old(self).rules(), ks, all@.take(i as int), a);
                    }
                }
                if old(self).rules().contains_key(idx) {
                    lemma_added_rules_keeps(old(self).rules(), ks, all@.take(i as int), idx);
                }
                ks = ks.push(idx);
                assert(ks.subrange(0, i as int) =~= old_ks);
            }
            let ghost before_words = self.matches@;
            let ghost after_insert = self.rules();
            let mut w: usize = 0;
            while w < rule.matches.len()
                invariant
                    self.rules() == after_insert,
                    0 <= w <= rule.matches@.len(),
                    self.matches@ == before_words + rule.matches@.take(w as int).map_values(|m: String| (m, idx as u32)),
                decreases rule.matches@.len() - w,
            {
                self.matches.push((rule.matches[w].clone(), #[verifier::truncate] (idx as u32)));
                proof {
                    assert(rule.matches@.take(w + 1).map_values(|m: String| (m, idx as u32)) =~= rule.matches@.take(
                        w as int,
                    ).map_values(|m: String| (m, idx as u32)).push((rule.matches@[w as int], idx as u32)));
                }
                w = w + 1;
            }
            proof {
                assert(rule.matches@.take(rule.matches@.len() as int) =~= rule.matches@);
                lemma_word_map_append(before_words, rule.matches@, idx as u32);
                assert(all@.take(i + 1).drop_last() =~= all@.take(i as int));
                assert(all@.take(i + 1).last() == all@[i as int]);
                assert(ks.subrange(0, i as int) =~= old_ks);
                assert(added_rules(old(self).rules(), ks, all@.take(i + 1)) == added_rules(
                    old(self).rules(),
                    old_ks,
                    all@.take(i as int),
                ).insert(idx, all@[i as int].queries@));
            }
            i = i + 1;
        }
        proof {
            assert(all@.take(all@.len() as int) =~= all@);
        }
    }

    /// The search engines that the word `word` selects.
    pub fn get(&self, word: &str) -> (r: Option<&Vec<Definition>>)
        ensures
            match r {
                Some(v) => self.words().contains_key(word@) && self.rules().contains_key(
                    self.words()[word@] as usize,
                ) && v@ == self.rules()[self.words()[word@] as usize],
                None => !(self.words().contains_key(word@) && self.rules().contains_key(
                    self.words()[word@] as usize,
                )),
            },
    {
        let mut i = self.matches.len();
        proof {
            assert(self.matches@.take(i as int) =~= self.matches@);
        }
        while i > 0
            invariant
                0 <= i <= self.matches@.len(),
                word_map(self.matches@).contains_key(word@) <==> word_map(self.matches@.take(i as int)).contains_key(word@),
                word_map(self.matches@.take(i as int)).contains_key(word@) ==> word_map(self.matches@)[word@]
                    == word_map(self.matches@.take(i as int))[word@],
            decreases i,
        {
            let ghost prefix = self.matches@.take(i as int);
            proof {
                assert(prefix.drop_last() =~= self.matches@.take(i - 1));
            }
            if crate::text::str_eq(self.matches[i - 1].0.as_str(), word) {
                let idx = self.matches[i - 1].1;
                return definitions_get(&self.queries, idx as usize);
            }
            i = i - 1;
        }
        None
    }
}

/// The rules after the rules of `rs` were stored under the keys `ks`.
pub open spec fn added_rules(t: Map<usize, Seq<Definition>>, ks: Seq<usize>, rs: Seq<Rule>) -> Map<usize, Seq<Definition>>
    decreases rs.len(),
{
    if rs.len() == 0 || ks.len() < rs.len() {
        t
    } else {
        added_rules(t, ks.subrange(0, rs.len() - 1), rs.drop_last()).insert(ks[rs.len() - 1], rs.last().queries@)
    }
}

/// The words after the rules of `rs` were stored under the keys `ks`: each word of a rule, in
/// order, selects its key.
pub open spec fn added_words(w: Map<Seq<char>, u32>, ks: Seq<usize>, rs: Seq<Rule>) -> Map<Seq<char>, u32>
    decreases rs.len(),
{
    if rs.len() == 0 || ks.len() < rs.len() {
        w
    } else {
        word_map_onto(
            added_words(w, ks.subrange(0, rs.len() - 1), rs.drop_last()),
            rs.last().matches@,
            ks[rs.len() - 1] as u32,
        )
    }
}

/// `w` with each of `words`, in order, selecting `k`.
pub open spec fn word_map_onto(w: Map<Seq<char>, u32>, words: Seq<String>, k: u32) -> Map<Seq<char>, u32>
    decreases words.len(),
{
    if words.len() == 0 {
        w
    } else {
        word_map_onto(w, words.drop_last(), k).insert(words.last()@, k)
    }
}

proof fn lemma_word_map_append(m: Seq<(String, u32)>, words: Seq<String>, k: u32)
    ensures
        word_map(m + words.map_values(|x: String| (x, k))) == word_map_onto(word_map(m), words, k),
    decreases words.len(),
{
    if words.len() > 0 {
        lemma_word_map_append(m, words.drop_last(), k);
        assert((m + words.map_values(|x: String| (x, k))).drop_last() =~= m + words.drop_last().map_values(
            |x: String| (x, k),
        ));
    } else {
        assert(m + words.map_values(|x: String| (x, k)) =~= m);
    }
}

proof fn lemma_word_map_onto_selects(w: Map<Seq<char>, u32>, words: Seq<String>, k: u32, word: Seq<char>)
    requires
        exists|j: int| 0 <= j < words.len() && (#[trigger] words[j])@ == word,
    ensures
        word_map_onto(w, words, k).contains_key(word),
        word_map_onto(w, words, k)[word] == k,
    decreases words.len(),
{
    if words.last()@ != word {
        let j = choose|j: int| 0 <= j < words.len() && (#[trigger] words[j])@ == word;
        assert(words.drop_last()[j] == words[j]);
        lemma_word_map_onto_selects(w, words.drop_last(), k, word);
    }
}

/// Law: once a rule is added, each word that it lists selects that rule, whatever the word
/// selected before, and the rule's key holds its search engines; so a later configuration file
/// overrides the words of an earlier one.
pub proof fn law_added_rule_owns_its_words(
    t: Map<usize, Seq<Definition>>,
    w: Map<Seq<char>, u32>,
    k: usize,
    r: Rule,
    word: Seq<char>,
)
    requires
        k <= u32::MAX,
        exists|j: int| 0 <= j < r.matches@.len() && (#[trigger] r.matches@[j])@ == word,
    ensures
        added_words(w, seq![k], seq![r]).contains_key(word),
        added_words(w, seq![k], seq![r])[word] as usize == k,
        added_rules(t, seq![k], seq![r]).contains_key(k),
        added_rules(t, seq![k], seq![r])[k] == r.queries@,
{
    let ks = seq![k];
    let rs = seq![r];
    assert(ks.subrange(0, 0) =~= Seq::<usize>::empty());
    assert(rs.drop_last() =~= Seq::<Rule>::empty());
    assert(added_words(w, ks.subrange(0, 0), rs.drop_last()) == w);
    assert(added_rules(t, ks.subrange(0, 0), rs.drop_last()) == t);
    lemma_word_map_onto_selects(w, r.matches@, k as u32, word);
}

proof fn lemma_added_rules_keeps(t: Map<usize, Seq<Definition>>, ks: Seq<usize>, rs: Seq<Rule>, k: usize)
    requires
        t.contains_key(k),
    ensures
        added_rules(t, ks, rs).contains_key(k),
    decreases rs.len(),
{
    if rs.len() > 0 && ks.len() >= rs.len() {
        lemma_added_rules_keeps(t, ks.subrange(0, rs.len() - 1), rs.drop_last(), k);
    }
}

proof fn lemma_added_rules_has(t: Map<usize, Seq<Definition>>, ks: Seq<usize>, rs: Seq<Rule>, a: int)
    requires
        ks.len() == rs.len(),
        0 <= a < ks.len(),
    ensures
        added_rules(t, ks, rs).contains_key(ks[a]),
    decreases rs.len(),
{
    if a < rs.len() - 1 {
        lemma_added_rules_has(t, ks.subrange(0, rs.len() - 1), rs.drop_last(), a);
    }
}

} // verus!

verus! {

/// A byte that URL encoding keeps: ASCII letters and digits, `-`, `.`, `_` and `~`.
pub open spec fn unreserved(b: u8) -> bool {
    (48 <= b <= 57) || (65 <= b <= 90) || (97 <= b <= 122) || b == 45 || b == 46 || b == 95 || b == 126
}

/// The upper-case hexadecimal digit `d`.
pub open spec fn hex_digit(d: u8) -> char {
    if d < 10 {
        (48 + d) as char
    } else {
        (55 + d) as char
    }
}

/// The bytes `bs`, each kept or written `%` and two hexadecimal digits.
pub open spec fn percent_encoded(bs: Seq<u8>) -> Seq<char>
    decreases bs.len(),
{
    if bs.len() == 0 {
        Seq::empty()
    } else {
        let rest = percent_encoded(bs.drop_last());
        let b = bs.last();
        if unreserved(b) {
            rest.push(b as char)
        } else {
            rest.push('%').push(hex_digit(b / 16)).push(hex_digit(b % 16))
        }
    }
}

/// `urlencoding::encode`: the UTF-8 bytes of `s`, percent-encoded.
///
/// Trusted: as the crate's source encodes them.
#[verifier::external_body]
fn url_encode(s: &str) -> (r: String)
    ensures
        r@ == percent_encoded(vstd::utf8::encode_utf8(s@)),
{
    urlencoding::encode(s).into_owned()
}

/// The regex of an address that names its scheme.
pub open spec fn scheme_regex() -> Seq<char> {
    "^([a-zA-Z]+[a-zA-Z0-9\\+\\-\\.]*):"@
}

/// The address of a search engine names its scheme.
pub open spec fn has_scheme(q: Seq<char>) -> bool {
    regex_compiles(scheme_regex()) && regex_is_match(scheme_regex(), q)
}

/// The address that searches the engine `d` for `query`: its address, with `https://` before
/// it unless it names its scheme, and the query URL-encoded after it.
pub open spec fn search_address(d: Definition, query: Seq<char>) -> Seq<char> {
    (if has_scheme(d.query@) { Seq::empty() } else { "https://"@ }) + d.query@ + percent_encoded(
        vstd::utf8::encode_utf8(query),
    )
}

/// The address that searches the engine `definition` for `query`.
pub fn build_query(definition: &Definition, query: &str) -> (r: String)
    ensures
        r@ == search_address(*definition, query@),
{
    let scheme = match CompiledPattern::new("^([a-zA-Z]+[a-zA-Z0-9\\+\\-\\.]*):") {
        Some(re) => pattern_is_match(&re, definition.query.as_str()),
        None => false,
    };
    let mut r = if scheme { String::new() } else { "https://".to_owned() };
    r.append(definition.query.as_str());
    r.append(url_encode(query).as_str());
    r
}

/// The regex of an HTML comment.
pub open spec fn comment_regex() -> Seq<char> {
    "<!--(.+)-->"@
}

/// The address of the icon that an HTML page names, its comments removed: the `href` of the
/// first `shortcut icon` link, or else of the first `alternate icon` link, or else of the
/// first `icon` link; an address that starts with `//` gets `https:` before it.
pub open spec fn favicon_in(h: Seq<char>) -> Option<Seq<char>> {
    let idx = match crate::text::first_occurrence(h, "rel=\"shortcut icon"@) {
        Some(i) => Some(i),
        None => match crate::text::first_occurrence(h, "rel=\"alternate icon"@) {
            Some(i) => Some(i),
            None => crate::text::first_occurrence(h, "rel=\"icon"@),
        },
    };
    match idx {
        None => None,
        Some(i) => {
            let t = h.subrange(i, h.len() as int);
            match crate::text::first_occurrence(t, "href=\""@) {
                None => None,
                Some(j) => {
                    let rest = t.subrange(j + 6, t.len() as int);
                    match crate::text::first_occurrence(rest, "\""@) {
                        None => None,
                        Some(e) => {
                            let uri = rest.subrange(0, e);
                            if crate::search::has_prefix(uri, "//"@) {
                                Some("https:"@ + uri)
                            } else {
                                Some(uri)
                            }
                        },
                    }
                },
            }
        },
    }
}

/// The page without its comments.
pub open spec fn uncommented(html: Seq<char>) -> Seq<char> {
    if regex_compiles(comment_regex()) {
        regex_erased(comment_regex(), html)
    } else {
        html
    }
}

/// The address of the icon that an HTML page names, if any.
pub fn parse_favicon(html: &str) -> (r: Option<String>)
    ensures
        match r {
            Some(u) => favicon_in(uncommented(html@)) == Some(u@),
            None => favicon_in(uncommented(html@)) is None,
        },
{
    let page = match CompiledPattern::new("<!--(.+)-->") {
        Some(re) => erase_matches(&re, html),
        None => html.to_owned(),
    };
    let h = chars_of(page.as_str());
    let idx = match crate::text::find_seq(&h, &chars_of("rel=\"shortcut icon")) {
        Some(i) => Some(i),
        None => match crate::text::find_seq(&h, &chars_of("rel=\"alternate icon")) {
            Some(i) => Some(i),
            None => crate::text::find_seq(&h, &chars_of("rel=\"icon")),
        },
    };
    let i = match idx {
        Some(i) => i,
        None => {
            return None;
        },
    };
    let t = crate::text::sub_chars(&h, i, h.len());
    let j = match crate::text::find_seq(&t, &chars_of("href=\"")) {
        Some(j) => j,
        None => {
            return None;
        },
    };
    proof {
        reveal_strlit("href=\"");
    }
    let rest = crate::text::sub_chars(&t, j + 6, t.len());
    let e = match crate::text::find_seq(&rest, &chars_of("\"")) {
        Some(e) => e,
        None => {
            return None;
        },
    };
    let uri = string_of(&crate::text::sub_chars(&rest, 0, e));
    if crate::text::starts_with(uri.as_str(), "//") {
        let mut r = "https:".to_owned();
        r.append(uri.as_str());
        Some(r)
    } else {
        Some(uri)
    }
}

/// The address of the icon that the page of `domain` names: relative addresses are taken on
/// the domain.
pub fn page_icon_url(domain: &str, icon_url: &str) -> (r: String)
    ensures
        r@ == if crate::search::has_prefix(icon_url@, "https://"@) {
            icon_url@
        } else {
            "https://"@ + domain@ + icon_url@
        },
{
    if crate::text::starts_with(icon_url, "https://") {
        icon_url.to_owned()
    } else {
        let mut r = "https://".to_owned();
        r.append(domain);
        r.append(icon_url);
        r
    }
}

/// The addresses to fetch the icon of `domain` from, in order: the one its page names, the
/// root of the domain, and a public icon service.
pub fn icon_sources(domain: &str, page_icon: Option<String>) -> (r: Vec<String>)
    ensures
        crate::text::views(r@) == match page_icon {
            Some(p) => seq![p@],
            None => Seq::<Seq<char>>::empty(),
        } + seq![
            "https://"@ + domain@ + "/favicon.ico"@,
            "https://www.google.com/s2/favicons?domain="@ + domain@ + "&sz=32"@,
        ],
{
    let mut r: Vec<String> = Vec::new();
    match page_icon {
        Some(p) => r.push(p),
        None => {},
    }
    let mut root = "https://".to_owned();
    root.append(domain);
    root.append("/favicon.ico");
    r.push(root);
    let mut google = "https://www.google.com/s2/favicons?domain=".to_owned();
    google.append(domain);
    google.append("&sz=32");
    r.push(google);
    proof {
        assert(crate::text::views(r@) =~= match page_icon {
            Some(p) => seq![p@],
            None => Seq::<Seq<char>>::empty(),
        } + seq![
            "https://"@ + domain@ + "/favicon.ico"@,
            "https://www.google.com/s2/favicons?domain="@ + domain@ + "&sz=32"@,
        ]);
    }
    r
}

/// The content types that an icon may have.
pub open spec fn allowed_mime(t: Seq<char>) -> bool {
    t == "image/vnd.microsoft.icon"@ || t == "image/png"@ || t == "image/gif"@ || t == "image/svg+xml"@ || t
        == "image/x-icon"@
}

/// Whether a fetched icon with this content type is kept.
pub fn allowed_favicon_mime(content_type: &str) -> (b: bool)
    ensures
        b == allowed_mime(content_type@),
{
    crate::text::str_eq(content_type, "image/vnd.microsoft.icon") || crate::text::str_eq(content_type, "image/png")
        || crate::text::str_eq(content_type, "image/gif") || crate::text::str_eq(content_type, "image/svg+xml")
        || crate::text::str_eq(content_type, "image/x-icon")
}

} // verus!

verus! {

/// The first word of a query, which selects the search engines.
pub fn first_word(query: &str) -> (r: Option<String>)
    ensures
        match r {
            Some(w) => ascii_words(query@).len() > 0 && w@ == ascii_words(query@)[0],
            None => ascii_words(query@).len() == 0,
        },
{
    let words = split_ascii_whitespace(&chars_of(query));
    if words.len() == 0 {
        return None;
    }
    proof {
        assert(words@.map_values(|w: Vec<char>| w@)[0] == words@[0]@);
    }
    Some(string_of(&words[0]))
}

/// What follows the first `n` bytes of `q`, trimmed.
pub open spec fn query_after(q: Seq<char>, n: nat) -> Seq<char> {
    let bytes = vstd::utf8::encode_utf8(q);
    trim_seq(vstd::utf8::decode_utf8(bytes.subrange(n as int, bytes.len() as int)))
}

/// The text of `query` after as many bytes as `word` has, trimmed: the query without its first
/// word when it starts with it.
pub fn rest_after(query: &str, word: &str) -> (r: String)
    requires
        vstd::utf8::is_char_boundary(vstd::utf8::encode_utf8(query@), vstd::utf8::encode_utf8(word@).len() as int),
    ensures
        r@ == query_after(query@, vstd::utf8::encode_utf8(word@).len()),
{
    proof {
        vstd::utf8::encode_utf8_valid_utf8(query@);
        assert(query.spec_bytes() == vstd::utf8::encode_utf8(query@));
        assert(word.spec_bytes() == vstd::utf8::encode_utf8(word@));
    }
    let k = word.as_bytes().len();
    let (_, rest) = query.split_at(k);
    proof {
        vstd::utf8::encode_utf8_decode_utf8(rest@);
        assert(rest.spec_bytes() == vstd::utf8::encode_utf8(rest@));
    }
    string_of(&trim(&chars_of(rest)))
}

/// The web search plugin: the addresses of the results last shown.
pub struct WebApp {
    pub queries: Vec<String>,
}

/// `resp` shows the result numbered `i` for the engine `d`, the query `rest` and the icon
/// `icon`.
pub open spec fn engine_response(resp: PluginResponse, i: int, d: Definition, rest: Seq<char>, icon: Option<IconSource>) -> bool {
    match resp {
        PluginResponse::Append(r) => {
            &&& r.id == i
            &&& r.name@ == engine_result_name(d, rest)
            &&& r.description@ == search_address(d, rest)
            &&& r.icon == icon
            &&& r.keywords is None
            &&& r.exec_command is None
            &&& r.window is None
        },
        _ => false,
    }
}

/// The name of the result for the engine `d` and the query `rest`.
pub open spec fn engine_result_name(d: Definition, rest: Seq<char>) -> Seq<char> {
    d.name@ + ": "@ + rest
}

impl WebApp {
    /// No result yet.
    pub fn new() -> (a: WebApp)
        ensures
            a.queries@.len() == 0,
    {
        WebApp { queries: Vec::new() }
    }

    /// Answers a search whose first word selects no engine.
    pub fn no_results(&mut self) -> (rs: Vec<PluginResponse>)
        ensures
            final(self).queries@.len() == 0,
            rs@.len() == 1 && rs@[0] is Finished,
    {
        self.queries.clear();
        vec![PluginResponse::Finished]
    }

    /// Answers a search of the engines `defs` for `rest`: one result per engine, numbered by
    /// position, named after the engine and the query and described by its address, with the
    /// engine's icon when it is known; then `Finished`. The addresses are kept for activations.
    pub fn results(&mut self, defs: &Vec<Definition>, rest: &str, icons: &Vec<Option<IconSource>>) -> (rs: Vec<
        PluginResponse,
    >)
        requires
            icons@.len() == defs@.len(),
            defs@.len() <= u32::MAX,
        ensures
            final(self).queries@.len() == defs@.len(),
            rs@.len() == defs@.len() + 1,
            forall|i: int|
                0 <= i < defs@.len() ==> {
                    &&& (#[trigger] final(self).queries@[i])@ == search_address(defs@[i], rest@)
                    &&& engine_response(rs@[i], i, defs@[i], rest@, icons@[i])
                },
            rs@[defs@.len() as int] is Finished,
    {
        self.queries.clear();
        let mut rs: Vec<PluginResponse> = Vec::new();
        let mut i: usize = 0;
        while i < defs.len()
            invariant
                icons@.len() == defs@.len(),
                defs@.len() <= u32::MAX,
                0 <= i <= defs@.len(),
                self.queries@.len() == i,
                rs@.len() == i,
                forall|j: int|
                    0 <= j < i ==> {
                        &&& (#[trigger] self.queries@[j])@ == search_address(defs@[j], rest@)
                        &&& engine_response(rs@[j], j, defs@[j], rest@, icons@[j])
                    },
            decreases defs@.len() - i,
        {
            let encoded = build_query(&defs[i], rest);
            let mut name = defs[i].name.clone();
            name.append(": ");
            name.append(rest);
            let r = PluginSearchResult {
                id: i as u32,
                name,
                description: encoded.clone(),
                keywords: None,
                icon: crate::protocol::duplicate_icon(&icons[i]),
                exec_command: None,
                window: None,
            };
            rs.push(PluginResponse::Append(r));
            self.queries.push(encoded);
            i = i + 1;
        }
        let ghost before = rs@;
        rs.push(PluginResponse::Finished);
        proof {
            assert forall|j: int| 0 <= j < defs@.len() implies {
                &&& (#[trigger] self.queries@[j])@ == search_address(defs@[j], rest@)
                &&& engine_response(rs@[j], j, defs@[j], rest@, icons@[j])
            } by {
                assert(rs@[j] == before[j]);
            }
        }
        rs
    }

    /// The address to open for the result `id`, if there is one; the launcher closes either
    /// way.
    pub fn activate(&self, id: u32) -> (r: (Option<String>, PluginResponse))
        ensures
            r.1 is Close,
            id < self.queries@.len() ==> (r.0 matches Some(u) && u@ == self.queries@[id as int]@),
            id >= self.queries@.len() ==> r.0 is None,
    {
        let url = if (id as usize) < self.queries.len() {
            Some(self.queries[id as usize].clone())
        } else {
            None
        };
        (url, PluginResponse::Close)
    }
}

} // verus!
