//! The logic of the plugin that runs the user's scripts: how a script describes itself in its
//! header comments, and which scripts a query shows.
use crate::protocol::{IconSource, PluginResponse, PluginSearchResult};
use crate::search::has_prefix;
use crate::text::{
    ascii_lowercase, chars_of, contains, contains_seq, split_char, split_on, starts_with, str_eq, string_of,
    to_ascii_lowercase, trim, trim_seq, trim_start_from, trim_start_seq, views,
};
use vstd::prelude::*;
use vstd::string::StrSliceExecFns;

verus! {

/// What a script tells of itself.
#[derive(Debug, Clone)]
pub struct ScriptInfo {
    pub interpreter: Option<String>,
    pub name: String,
    pub icon: Option<String>,
    pub path: String,
    pub keywords: Vec<String>,
    pub description: String,
}

/// A header line without its `#`, trimmed.
pub open spec fn clean(line: Seq<char>) -> Seq<char> {
    trim_seq(line.drop_first())
}

/// The number of lines at the start that are comments.
pub open spec fn header_len(lines: Seq<Seq<char>>, n: int) -> int
    decreases n,
{
    if n <= 0 {
        0
    } else if header_len(lines, n - 1) == n - 1 && lines[n - 1].len() > 0 && lines[n - 1][0] == '#' {
        n
    } else {
        header_len(lines, n - 1)
    }
}

/// The first header line names the interpreter, after `#!`.
pub open spec fn names_interpreter(lines: Seq<Seq<char>>, i: int) -> bool {
    i == 0 && clean(lines[0]).len() > 0 && clean(lines[0])[0] == '!'
}

/// The value that the header line `i` gives to the field `prefix`, if it sets it.
pub open spec fn field_at(lines: Seq<Seq<char>>, i: int, prefix: Seq<char>) -> Option<Seq<char>> {
    let c = clean(lines[i]);
    if names_interpreter(lines, i) {
        None
    } else if has_prefix(c, prefix) {
        Some(trim_start_seq(c.subrange(prefix.len() as int, c.len() as int)))
    } else {
        None
    }
}

/// The value that the last of the first `n` header lines setting the field `prefix` gives it.
pub open spec fn last_field(lines: Seq<Seq<char>>, n: int, prefix: Seq<char>) -> Option<Seq<char>>
    decreases n,
{
    if n <= 0 {
        None
    } else {
        match field_at(lines, n - 1, prefix) {
            Some(v) => Some(v),
            None => last_field(lines, n - 1, prefix),
        }
    }
}

/// A field that defaults to the empty text.
pub open spec fn or_empty(v: Option<Seq<char>>) -> Seq<char> {
    match v {
        Some(x) => x,
        None => Seq::empty(),
    }
}

/// The script described by the header comments of its first lines `lines`.
pub open spec fn header_describes(info: ScriptInfo, path: Seq<char>, lines: Seq<Seq<char>>) -> bool {
    let h = header_len(lines, lines.len() as int);
    &&& info.path@ == path
    &&& match info.interpreter {
        Some(i) => h > 0 && names_interpreter(lines, 0) && i@ == clean(lines[0]).drop_first(),
        None => !(h > 0 && names_interpreter(lines, 0)),
    }
    &&& info.name@ == or_empty(last_field(lines, h, "name:"@))
    &&& info.description@ == or_empty(last_field(lines, h, "description:"@))
    &&& match info.icon {
        Some(i) => last_field(lines, h, "icon:"@) == Some(i@),
        None => last_field(lines, h, "icon:"@) is None,
    }
    &&& views(info.keywords@) == match last_field(lines, h, "keywords:"@) {
        Some(k) => split_on(k, ' '),
        None => Seq::<Seq<char>>::empty(),
    }
}

proof fn lemma_header_len_bound(lines: Seq<Seq<char>>, n: int)
    ensures
        n >= 0 ==> 0 <= header_len(lines, n) <= n,
    decreases n,
{
    if n > 0 {
        lemma_header_len_bound(lines, n - 1);
    }
}

proof fn lemma_header_len_stops(lines: Seq<Seq<char>>, n: int, m: int)
    requires
        0 <= m < n,
        header_len(lines, m) == m,
        !(lines[m].len() > 0 && lines[m][0] == '#'),
    ensures
        header_len(lines, n) == m,
    decreases n,
{
    lemma_header_len_bound(lines, n - 1);
    if n - 1 > m {
        lemma_header_len_stops(lines, n - 1, m);
    }
}

/// The value of a header field line, if it sets the field `prefix`.
fn field_value(c: &Vec<char>, prefix: &str) -> (r: Option<Vec<char>>)
    ensures
        match r {
            Some(v) => has_prefix(c@, prefix@) && v@ == trim_start_seq(c@.subrange(prefix@.len() as int, c@.len() as int)),
            None => !has_prefix(c@, prefix@),
        },
{
    let s = string_of(c);
    if starts_with(s.as_str(), prefix) {
        Some(trim_start_from(c, prefix.unicode_len()))
    } else {
        None
    }
}

/// Reads what a script at `path` tells of itself in the comment lines at its start: an
/// interpreter after `#!` on the first line, and `name:`, `description:`, `icon:` and
/// `keywords:` fields, the last of each counting; the keywords are separated by spaces.
pub fn parse_header(path: &str, lines: &Vec<String>) -> (info: ScriptInfo)
    ensures
        header_describes(info, path@, views(lines@)),
{
    let ghost ls = views(lines@);
    let mut info = ScriptInfo {
        interpreter: None,
        name: String::new(),
        icon: None,
        path: path.to_owned(),
        keywords: Vec::new(),
        description: String::new(),
    };
    let mut name: Option<Vec<char>> = None;
    let mut description: Option<Vec<char>> = None;
    let mut keywords: Option<Vec<char>> = None;
    let mut i: usize = 0;
    while i < lines.len()
        invariant
            ls == views(lines@),
            0 <= i <= lines@.len(),
            header_len(ls, i as int) == i,
            info.path@ == path@,
            info.name@.len() == 0,
            info.description@.len() == 0,
            info.keywords@.len() == 0,
            match info.interpreter {
                Some(x) => i > 0 && names_interpreter(ls, 0) && x@ == clean(ls[0]).drop_first(),
                None => !(i > 0 && names_interpreter(ls, 0)),
            },
            match name {
                Some(v) => last_field(ls, i as int, "name:"@) == Some(v@),
                None => last_field(ls, i as int, "name:"@) is None,
            },
            match description {
                Some(v) => last_field(ls, i as int, "description:"@) == Some(v@),
                None => last_field(ls, i as int, "description:"@) is None,
            },
            match info.icon {
                Some(v) => last_field(ls, i as int, "icon:"@) == Some(v@),
                None => last_field(ls, i as int, "icon:"@) is None,
            },
            match keywords {
                Some(v) => last_field(ls, i as int, "keywords:"@) == Some(v@),
                None => last_field(ls, i as int, "keywords:"@) is None,
            },
        ensures
            0 <= i <= lines@.len(),
            header_len(ls, ls.len() as int) == i,
            info.path@ == path@,
            info.name@.len() == 0,
            info.description@.len() == 0,
            info.keywords@.len() == 0,
            match info.interpreter {
                Some(x) => i > 0 && names_interpreter(ls, 0) && x@ == clean(ls[0]).drop_first(),
                None => !(i > 0 && names_interpreter(ls, 0)),
            },
            match name {
                Some(v) => last_field(ls, i as int, "name:"@) == Some(v@),
                None => last_field(ls, i as int, "name:"@) is None,
            },
            match description {
                Some(v) => last_field(ls, i as int, "description:"@) == Some(v@),
                None => last_field(ls, i as int, "description:"@) is None,
            },
            match info.icon {
                Some(v) => last_field(ls, i as int, "icon:"@) == Some(v@),
                None => last_field(ls, i as int, "icon:"@) is None,
            },
            match keywords {
                Some(v) => last_field(ls, i as int, "keywords:"@) == Some(v@),
                None => last_field(ls, i as int, "keywords:"@) is None,
            },
        decreases lines@.len() - i,
    {
        let raw = chars_of(lines[i].as_str());
        if raw.len() == 0 || raw[0] != '#' {
            proof {
                lemma_header_len_stops(ls, ls.len() as int, i as int);
            }
            break;
        }
        let c = trim(&crate::text::sub_chars(&raw, 1, raw.len()));
        proof {
            assert(raw@ == ls[i as int]);
            assert(raw@.subrange(1, raw@.len() as int) =~= ls[i as int].drop_first());
            assert(header_len(ls, i + 1) == i + 1);
        }
        if i == 0 && c.len() > 0 && c[0] == '!' {
            let rest = string_of(&crate::text::sub_chars(&c, 1, c.len()));
            proof {
                assert(c@.subrange(1, c@.len() as int) =~= c@.drop_first());
            }
            info.interpreter = Some(rest);
        } else {
            match field_value(&c, "name:") {
                Some(v) => name = Some(v),
                None => {},
            }
            match field_value(&c, "description:") {
                Some(v) => description = Some(v),
                None => {},
            }
            match field_value(&c, "icon:") {
                Some(v) => info.icon = Some(string_of(&v)),
                None => {},
            }
            match field_value(&c, "keywords:") {
                Some(v) => keywords = Some(v),
                None => {},
            }
        }
        i = i + 1;
    }
    proof {
        lemma_header_len_bound(ls, ls.len() as int);
    }
    proof {
        assert(info.name@ =~= Seq::<char>::empty());
        assert(info.description@ =~= Seq::<char>::empty());
        assert(views(info.keywords@) =~= Seq::<Seq<char>>::empty());
    }
    match name {
        Some(v) => info.name = string_of(&v),
        None => {},
    }
    match description {
        Some(v) => info.description = string_of(&v),
        None => {},
    }
    match keywords {
        Some(v) => info.keywords = split_char(string_of(&v).as_str(), ' '),
        None => {},
    }
    info
}

} // verus!

verus! {

/// A script is shown for the query `q`: its name or its description holds the query, ignoring
/// ASCII case of the script's texts, or one of its keywords holds it as written.
pub open spec fn script_shown(s: ScriptInfo, q: Seq<char>) -> bool {
    ||| contains_seq(ascii_lowercase(s.name@), q)
    ||| contains_seq(ascii_lowercase(s.description@), q)
    ||| exists|i: int| 0 <= i < s.keywords@.len() && contains_seq(#[trigger] s.keywords@[i]@, q)
}

/// Whether the script `s` is shown for the query `q`.
pub fn script_matches(s: &ScriptInfo, q: &str) -> (b: bool)
    ensures
        b == script_shown(*s, q@),
{
    let query = chars_of(q);
    if contains(&to_ascii_lowercase(&chars_of(s.name.as_str())), &query) {
        return true;
    }
    if contains(&to_ascii_lowercase(&chars_of(s.description.as_str())), &query) {
        return true;
    }
    let mut i: usize = 0;
    while i < s.keywords.len()
        invariant
            query@ == q@,
            0 <= i <= s.keywords@.len(),
            forall|j: int| 0 <= j < i ==> !contains_seq(#[trigger] s.keywords@[j]@, q@),
        decreases s.keywords@.len() - i,
    {
        if contains(&chars_of(s.keywords[i].as_str()), &query) {
            return true;
        }
        i = i + 1;
    }
    false
}

/// The result that shows the script `s`, numbered `id`.
pub open spec fn script_result(r: PluginSearchResult, s: ScriptInfo, id: int) -> bool {
    &&& r.id == id
    &&& r.name == s.name
    &&& r.description == s.description
    &&& match s.icon {
        Some(i) => r.icon matches Some(IconSource::Name(n)) && n == i,
        None => r.icon is None,
    }
    &&& r.keywords matches Some(k) && k@ == s.keywords@
    &&& r.exec_command is None
    &&& r.window is None
}

/// `resp` shows the script `s`, numbered `id`.
pub open spec fn script_response(resp: PluginResponse, s: ScriptInfo, id: int) -> bool {
    match resp {
        PluginResponse::Append(r) => script_result(r, s, id),
        _ => false,
    }
}

/// The positions of the first `n` scripts that the query `q` shows, in order.
pub open spec fn shown_scripts(scripts: Seq<ScriptInfo>, q: Seq<char>, n: int) -> Seq<int>
    decreases n,
{
    if n <= 0 {
        Seq::empty()
    } else if script_shown(scripts[n - 1], q) {
        shown_scripts(scripts, q, n - 1).push(n - 1)
    } else {
        shown_scripts(scripts, q, n - 1)
    }
}

/// A copy of a list of strings.
fn copy_strings(v: &Vec<String>) -> (r: Vec<String>)
    ensures
        r@ == v@,
{
    let mut r: Vec<String> = Vec::new();
    let mut i: usize = 0;
    while i < v.len()
        invariant
            0 <= i <= v@.len(),
            r@ == v@.take(i as int),
        decreases v@.len() - i,
    {
        r.push(v[i].clone());
        proof {
            assert(r@ =~= v@.take(i + 1));
        }
        i = i + 1;
    }
    proof {
        assert(v@.take(v@.len() as int) =~= v@);
    }
    r
}

/// Answers a search for `q`: the scripts it shows, numbered by position, then `Finished`.
pub fn search_scripts(scripts: &Vec<ScriptInfo>, q: &str) -> (rs: Vec<PluginResponse>)
    requires
        scripts@.len() <= u32::MAX,
    ensures
        rs@.len() == shown_scripts(scripts@, q@, scripts@.len() as int).len() + 1,
        forall|k: int|
            0 <= k < rs@.len() - 1 ==> script_response(
                #[trigger] rs@[k],
                scripts@[shown_scripts(scripts@, q@, scripts@.len() as int)[k]],
                shown_scripts(scripts@, q@, scripts@.len() as int)[k],
            ),
        rs@.last() is Finished,
{
    let mut rs: Vec<PluginResponse> = Vec::new();
    let mut i: usize = 0;
    while i < scripts.len()
        invariant
            scripts@.len() <= u32::MAX,
            0 <= i <= scripts@.len(),
            rs@.len() == shown_scripts(scripts@, q@, i as int).len(),
            forall|k: int|
                0 <= k < rs@.len() ==> script_response(
                #[trigger] rs@[k],
                    scripts@[shown_scripts(scripts@, q@, i as int)[k]],
                    shown_scripts(scripts@, q@, i as int)[k],
                ),
        decreases scripts@.len() - i,
    {
        let s = &scripts[i];
        if script_matches(s, q) {
            let r = PluginSearchResult {
                id: i as u32,
                name: s.name.clone(),
                description: s.description.clone(),
                keywords: Some(copy_strings(&s.keywords)),
                icon: match &s.icon {
                    Some(icon) => Some(IconSource::Name(icon.clone())),
                    None => None,
                },
                exec_command: None,
                window: None,
            };
            rs.push(PluginResponse::Append(r));
        }
        i = i + 1;
    }
    let ghost before = rs@;
    rs.push(PluginResponse::Finished);
    proof {
        assert forall|k: int| 0 <= k < rs@.len() - 1 implies rs@[k] == before[k] by {}
    }
    rs
}

/// Adds a script found while loading, unless a script of the same name was found first.
/// Returns whether it was added.
pub fn add_script(scripts: &mut Vec<ScriptInfo>, script: ScriptInfo) -> (added: bool)
    ensures
        added == !exists|i: int| 0 <= i < old(scripts)@.len() && (#[trigger] old(scripts)@[i]).name@ == script.name@,
        added ==> final(scripts)@ == old(scripts)@.push(script),
        !added ==> final(scripts)@ == old(scripts)@,
{
    let mut i: usize = 0;
    while i < scripts.len()
        invariant
            0 <= i <= scripts@.len(),
            forall|j: int| 0 <= j < i ==> (#[trigger] scripts@[j]).name@ != script.name@,
        decreases scripts@.len() - i,
    {
        if str_eq(scripts[i].name.as_str(), script.name.as_str()) {
            return false;
        }
        i = i + 1;
    }
    scripts.push(script);
    true
}

/// Law: a search for `q` shows, in order of position, exactly the scripts whose name or
/// description, in ASCII lower case, contains `q`, or one of whose keywords contains `q` as
/// written.
pub proof fn law_scripts_shown(scripts: Seq<ScriptInfo>, q: Seq<char>, n: int)
    requires
        0 <= n <= scripts.len(),
    ensures
        forall|k: int| 0 <= k < shown_scripts(scripts, q, n).len() ==> 0 <= #[trigger] shown_scripts(scripts, q, n)[k] < n,
        forall|k1: int, k2: int|
            0 <= k1 < k2 < shown_scripts(scripts, q, n).len() ==> #[trigger] shown_scripts(scripts, q, n)[k1]
                < #[trigger] shown_scripts(scripts, q, n)[k2],
        forall|i: int|
            0 <= i < n ==> (#[trigger] shown_scripts(scripts, q, n).contains(i) <==> {
                ||| contains_seq(ascii_lowercase(scripts[i].name@), q)
                ||| contains_seq(ascii_lowercase(scripts[i].description@), q)
                ||| exists|j: int| 0 <= j < scripts[i].keywords@.len() && contains_seq(#[trigger] scripts[i].keywords@[j]@, q)
            }),
    decreases n,
{
    if n > 0 {
        law_scripts_shown(scripts, q, n - 1);
        let prev = shown_scripts(scripts, q, n - 1);
        let cur = shown_scripts(scripts, q, n);
        assert forall|i: int| 0 <= i < n implies (cur.contains(i) <==> script_shown(scripts[i], q)) by {
            if cur.contains(i) {
                let k = choose|k: int| 0 <= k < cur.len() && cur[k] == i;
                if k < prev.len() {
                    assert(prev[k] == i);
                    assert(prev.contains(i));
                }
            }
            if i < n - 1 {
                if prev.contains(i) {
                    let k = choose|k: int| 0 <= k < prev.len() && prev[k] == i;
                    assert(cur[k] == i);
                }
            } else {
                if script_shown(scripts[i], q) {
                    assert(cur[prev.len() as int] == i);
                } else {
                    assert(cur == prev);
                    if prev.contains(i) {
                        let k = choose|k: int| 0 <= k < prev.len() && prev[k] == i;
                        assert(prev[k] < n - 1);
                    }
                }
            }
        }
    }
}

} // verus!
