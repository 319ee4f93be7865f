//! File types, and the results of the plugins that browse and find files.
use crate::protocol::{IconSource, PluginResponse, PluginSearchResult};
use crate::search::has_prefix;
use crate::text::{
    ascii_lowercase, chars_of, is_absolute_path, join_path, joined_path, starts_with, string_of, sub_chars, to_ascii_lowercase,
    trim_start_from, trim_start_seq,
};
use vstd::prelude::*;
use vstd::string::StringExecFns;

verus! {

/// The media type that `new_mime_guess` guesses from the extension of `path`, if it knows one.
pub uninterp spec fn guessed_mime(path: Seq<char>) -> Option<Seq<char>>;

/// `new_mime_guess::from_path(..).first()`, as `type/subtype`.
///
/// Trusted: the guess is named `guessed_mime` of the path.
#[verifier::external_body]
fn guess_mime(path: &str) -> (r: Option<String>)
    ensures
        match r {
            Some(m) => guessed_mime(path@) == Some(m@),
            None => guessed_mime(path@) is None,
        },
{
    new_mime_guess::from_path(path).first().map(|m| m.essence_str().to_owned())
}

/// The media type shown for the file at `path`: directories are `inode/directory`, other
/// files get the type guessed from their extension, or `text/plain`.
pub open spec fn mime_of(path: Seq<char>, is_dir: bool) -> Seq<char> {
    if is_dir {
        "inode/directory"@
    } else {
        match guessed_mime(path) {
            Some(m) => m,
            None => "text/plain"@,
        }
    }
}

/// The media type shown for the file at `path`; `is_dir` tells whether it is a directory.
pub fn mime_from_path(path: &str, is_dir: bool) -> (r: String)
    ensures
        r@ == mime_of(path@, is_dir),
{
    if is_dir {
        return "inode/directory".to_owned();
    }
    match guess_mime(path) {
        Some(m) => m,
        None => "text/plain".to_owned(),
    }
}

/// The position of the last `/` in `cs`, if any.
pub open spec fn last_slash(cs: Seq<char>) -> Option<int> {
    if exists|i: int| 0 <= i < cs.len() && cs[i] == '/' {
        Some(choose|i: int| 0 <= i < cs.len() && cs[i] == '/' && forall|j: int| i < j < cs.len() ==> cs[j] != '/')
    } else {
        None
    }
}

/// The name of the file at `line`: what follows its last `/`.
pub open spec fn file_name_of(line: Seq<char>) -> Seq<char> {
    match last_slash(line) {
        Some(p) => line.subrange(p + 1, line.len() as int),
        None => line,
    }
}

/// `r` shows the file found at `line` (relative to the home directory), numbered `id`, whose
/// media type is `mime`.
pub open spec fn found_file(r: PluginResponse, id: u32, line: Seq<char>, mime: Seq<char>) -> bool {
    r matches PluginResponse::Append(x) && {
        &&& x.id == id
        &&& x.name@ == file_name_of(line)
        &&& x.description@ == "~/"@ + line
        &&& x.icon matches Some(IconSource::Mime(m)) && m@ == mime
        &&& x.keywords is None && x.exec_command is None && x.window is None
    }
}

/// The result that shows the file found at `line` (relative to the home directory), numbered
/// `id`, whose media type is `mime`.
pub fn find_result(id: u32, line: &str, mime: String) -> (r: PluginResponse)
    ensures
        found_file(r, id, line@, mime@),
{
    let cs = chars_of(line);
    let mut i = cs.len();
    let mut slash: Option<usize> = None;
    while i > 0
        invariant_except_break
            slash is None,
        invariant
            0 <= i <= cs@.len(),
            forall|j: int| i <= j < cs@.len() ==> cs@[j] != '/',
        ensures
            match slash {
                Some(p) => p < cs@.len() && cs@[p as int] == '/' && forall|j: int| p < j < cs@.len() ==> cs@[j] != '/',
                None => forall|j: int| 0 <= j < cs@.len() ==> cs@[j] != '/',
            },
        decreases i,
    {
        if cs[i - 1] == '/' {
            slash = Some(i - 1);
            break;
        }
        i = i - 1;
    }
    let name = match slash {
        Some(p) => {
            proof {
                let c = choose|c: int| 0 <= c < cs@.len() && cs@[c] == '/' && forall|j: int| c < j < cs@.len() ==> cs@[j] != '/';
                if c < p {
                    assert(cs@[p as int] != '/');
                }
                if p < c {
                    assert(cs@[c] != '/');
                }
            }
            string_of(&sub_chars(&cs, p + 1, cs.len()))
        },
        None => line.to_owned(),
    };
    let mut description = "~/".to_owned();
    description.append(line);
    PluginResponse::Append(
        PluginSearchResult {
            id,
            name,
            description,
            keywords: None,
            icon: Some(IconSource::Mime(mime)),
            exec_command: None,
            window: None,
        },
    )
}

/// The pattern that a query searches files for: what follows its first space, without leading
/// whitespace, or the whole query.
pub open spec fn find_pattern(q: Seq<char>) -> Seq<char> {
    match crate::calc::first_index(q, ' ') {
        Some(p) => trim_start_seq(q.subrange(p, q.len() as int)),
        None => q,
    }
}

/// The pattern that a query searches files for.
pub fn search_pattern(query: &str) -> (r: String)
    ensures
        r@ == find_pattern(query@),
{
    let cs = chars_of(query);
    let mut i: usize = 0;
    while i < cs.len()
        invariant
            cs@ == query@,
            0 <= i <= cs@.len(),
            forall|j: int| 0 <= j < i ==> cs@[j] != ' ',
        decreases cs@.len() - i,
    {
        if cs[i] == ' ' {
            proof {
                assert(crate::plugin_config::is_first_pos(cs@, ' ', i as int));
                let k = choose|k: int| crate::plugin_config::is_first_pos(cs@, ' ', k);
                crate::plugin_config::lemma_first_pos_unique(cs@, ' ', k, i as int);
            }
            return string_of(&trim_start_from(&cs, i));
        }
        i = i + 1;
    }
    query.to_owned()
}

/// The path that a query of the file browser names: after `~/` it is relative to `home`.
pub open spec fn query_path_of(q: Seq<char>, home: Seq<char>) -> Seq<char> {
    if has_prefix(q, "~/"@) {
        joined_path(home, q.subrange(2, q.len() as int))
    } else {
        q
    }
}

/// The path that the query `query` names, `home` being the home directory.
pub fn query_path(query: &str, home: &str) -> (r: String)
    ensures
        r@ == query_path_of(query@, home@),
{
    if starts_with(query, "~/") {
        proof {
            reveal_strlit("~/");
        }
        let cs = chars_of(query);
        join_path(home, string_of(&sub_chars(&cs, 2, cs.len())).as_str())
    } else {
        query.to_owned()
    }
}

/// How the entries of a directory are filtered for the file name being typed, `name`: hidden
/// entries are shown only when the name starts with `.`, and entries are matched against the
/// name in lower case. Without a name, hidden entries are not shown and every entry matches.
pub fn name_filter(name: Option<&str>) -> (r: (bool, String))
    ensures
        match name {
            Some(n) => r.0 == (n@.len() > 0 && n@[0] == '.') && r.1@ == ascii_lowercase(n@),
            None => !r.0 && r.1@.len() == 0,
        },
{
    match name {
        Some(n) => {
            let cs = chars_of(n);
            let hidden = cs.len() > 0 && cs[0] == '.';
            (hidden, string_of(&to_ascii_lowercase(&cs)))
        },
        None => (false, String::new()),
    }
}

/// The entry named `name` is listed: hidden entries, whose name starts with `.`, only when
/// they are to be shown.
pub open spec fn entry_listed(name: Seq<char>, show_hidden: bool) -> bool {
    show_hidden || !(name.len() > 0 && name[0] == '.')
}

/// The positions of the first `n` entries that are listed, in order.
pub open spec fn listed_entries(names: Seq<String>, show_hidden: bool, n: int) -> Seq<usize>
    decreases n,
{
    if n <= 0 {
        Seq::empty()
    } else if entry_listed(names[n - 1]@, show_hidden) {
        listed_entries(names, show_hidden, n - 1).push((n - 1) as usize)
    } else {
        listed_entries(names, show_hidden, n - 1)
    }
}

/// The positions of the entries of a directory, named `names`, that a search lists.
pub fn visible_entries(names: &Vec<String>, show_hidden: bool) -> (r: Vec<usize>)
    ensures
        r@ == listed_entries(names@, show_hidden, names@.len() as int),
{
    let mut r: Vec<usize> = Vec::new();
    let mut i: usize = 0;
    while i < names.len()
        invariant
            0 <= i <= names@.len(),
            r@ == listed_entries(names@, show_hidden, i as int),
        decreases names@.len() - i,
    {
        let cs = chars_of(names[i].as_str());
        if show_hidden || !(cs.len() > 0 && cs[0] == '.') {
            r.push(i);
        }
        i = i + 1;
    }
    r
}

/// An entry of a directory, as the file browser shows it.
#[derive(Debug, Clone)]
pub struct FileEntry {
    pub name: String,
    /// The size of the file, for display.
    pub description: String,
    pub icon: IconSource,
}

/// `resp` shows the entry `e`, numbered `k`.
pub open spec fn file_response(resp: PluginResponse, e: FileEntry, k: int) -> bool {
    match resp {
        PluginResponse::Append(r) => {
            &&& r.id == k
            &&& r.name == e.name
            &&& r.description == e.description
            &&& r.icon == Some(e.icon)
            &&& r.keywords is None && r.exec_command is None && r.window is None
        },
        _ => false,
    }
}

/// How many results a search of the file browser shows at most.
pub const FILE_RESULTS: usize = 20;

/// Answers a search of the file browser with the entries `entries`, in their order: the first
/// 20, numbered by position, then `Finished`.
pub fn file_results(entries: &Vec<FileEntry>) -> (rs: Vec<PluginResponse>)
    ensures
        ({
            let n = if entries@.len() < FILE_RESULTS { entries@.len() as int } else { FILE_RESULTS as int };
            &&& rs@.len() == n + 1
            &&& forall|k: int| 0 <= k < n ==> file_response(#[trigger] rs@[k], entries@[k], k)
            &&& rs@[n] is Finished
        }),
{
    let mut rs: Vec<PluginResponse> = Vec::new();
    let mut i: usize = 0;
    while i < entries.len() && i < FILE_RESULTS
        invariant
            0 <= i <= entries@.len(),
            i <= FILE_RESULTS,
            rs@.len() == i,
            forall|k: int| 0 <= k < i ==> file_response(#[trigger] rs@[k], entries@[k], k),
        decreases entries@.len() - i,
    {
        let e = &entries[i];
        rs.push(
            PluginResponse::Append(
                PluginSearchResult {
                    id: i as u32,
                    name: e.name.clone(),
                    description: e.description.clone(),
                    keywords: None,
                    icon: Some(e.icon.duplicate()),
                    exec_command: None,
                    window: None,
                },
            ),
        );
        i = i + 1;
    }
    let ghost before = rs@;
    rs.push(PluginResponse::Finished);
    proof {
        assert forall|k: int| 0 <= k < before.len() implies rs@[k] == before[k] by {}
    }
    rs
}

/// The text that completing a file fills in, from its path with the home directory stripped
/// (`path`): relative paths are written from `~/`, and directories end with `/`.
pub open spec fn completion_of(path: Seq<char>, is_dir: bool) -> Seq<char> {
    (if is_absolute_path(path) { Seq::empty() } else { "~/"@ }) + path + (if is_dir { "/"@ } else { Seq::empty() })
}

/// The text that completing the file at `path` (with the home directory stripped) fills in.
pub fn completion(path: &str, is_dir: bool) -> (r: String)
    ensures
        r@ == completion_of(path@, is_dir),
{
    let mut r = if crate::text::is_absolute(path) {
        String::new()
    } else {
        "~/".to_owned()
    };
    r.append(path);
    if is_dir {
        r.append("/");
    }
    proof {
        reveal_strlit("~/");
        reveal_strlit("/");
        assert(r@ =~= completion_of(path@, is_dir));
    }
    r
}

/// How many files a search of the file finder shows at most.
pub const FIND_RESULTS: usize = 10;

/// The files that the current search of the file finder found, by result number.
pub struct FindResults {
    pub paths: Vec<String>,
}

impl FindResults {
    /// No search yet.
    pub fn new() -> (f: FindResults)
        ensures
            f.paths@.len() == 0,
    {
        FindResults { paths: Vec::new() }
    }

    /// A new search starts: the files found before are forgotten.
    pub fn start(&mut self)
        ensures
            final(self).paths@.len() == 0,
    {
        self.paths.clear();
    }

    /// The search printed the file `line`, of media type `mime`: the result that shows it, with
    /// the next number, and whether the search has found enough files to stop.
    pub fn on_line(&mut self, line: &str, mime: String) -> (r: (PluginResponse, bool))
        requires
            old(self).paths@.len() < FIND_RESULTS,
        ensures
            final(self).paths@.len() == old(self).paths@.len() + 1,
            final(self).paths@.take(old(self).paths@.len() as int) == old(self).paths@,
            final(self).paths@.last()@ == line@,
            found_file(r.0, old(self).paths@.len() as u32, line@, mime@),
            r.1 == (final(self).paths@.len() == FIND_RESULTS),
    {
        let id = self.paths.len() as u32;
        let resp = find_result(id, line, mime);
        self.paths.push(line.to_owned());
        proof {
            assert(self.paths@.take(old(self).paths@.len() as int) =~= old(self).paths@);
        }
        let done = self.paths.len() == FIND_RESULTS;
        (resp, done)
    }

    /// The result shown when `fdfind` cannot be started: that it is not installed when it was
    /// not found, otherwise the error `cause`.
    pub fn spawn_failure(not_found: bool, cause: &str) -> (r: PluginSearchResult)
        ensures
            r.id == 0,
            r.name@ == if not_found {
                "fdfind command is not installed"@
            } else {
                "failed to spawn fdfind process: "@ + cause@
            },
            r.description@.len() == 0,
            r.keywords is None && r.icon is None && r.exec_command is None && r.window is None,
    {
        let name = if not_found {
            "fdfind command is not installed".to_owned()
        } else {
            let mut m = "failed to spawn fdfind process: ".to_owned();
            m.append(cause);
            m
        };
        PluginSearchResult::new(0, name, String::new())
    }

    /// The file that the result `id` shows, which an activation opens.
    pub fn selected(&self, id: u32) -> (r: Option<&String>)
        ensures
            (id as int) < self.paths@.len() ==> r == Some(&self.paths@[id as int]),
            (id as int) >= self.paths@.len() ==> r is None,
    {
        if (id as usize) < self.paths.len() {
            Some(&self.paths[id as usize])
        } else {
            None
        }
    }
}

} // verus!
