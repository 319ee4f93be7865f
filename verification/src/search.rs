//! The logic of the plugin that runs configured shell commands for queries with given
//! prefixes or suffixes: its rules, and how its commands are filled in from a query.
use crate::pattern::{compile_pattern, pattern_is_match, regex_compiles, regex_is_match, CompiledPattern};
use crate::text::{chars_of, join, join_with, occurs_at, opt_view, starts_with, str_eq, views};
use shell_words::ParseError;
use std::num::ParseIntError;
use vstd::prelude::*;
use vstd::string::{StrSliceExecFns, StringExecFns};

verus! {

/// What a rule runs, and how its output is shown.
///
/// In each field the variables `$QUERY`, `$KEYWORDS` and `$KEYWORDn` are available; in the
/// last three also `$OUTPUT`, a line of the command's output, and `$CAPTUREn`.
#[derive(Debug, Clone)]
pub struct Definition {
    /// The command whose output lines are the results.
    pub query_command: String,
    /// A regex applied to each output line, whose captures are the `$CAPTUREn` variables.
    pub output_captures: String,
    /// The name of a result.
    pub result_name: String,
    /// The description of a result.
    pub result_desc: String,
    /// The command run when a result is activated.
    pub run_command: String,
}

/// When a rule applies to a query.
#[derive(Debug, Clone)]
pub enum Pattern {
    StartsWith(Vec<String>),
    StartsWithKeyword(Vec<String>),
    EndsWith(Vec<String>),
    EndsWithKeyword(Vec<String>),
    Regex(String),
}

/// How the query of a rule is cut into keywords.
#[derive(Debug, Clone)]
pub enum Split {
    ShellWords,
    Whitespace,
    Regex(String),
}

/// A rule as configured.
#[derive(Debug, Clone)]
pub struct Rule {
    pub pattern: Pattern,
    pub action: Definition,
    pub split: Split,
}

/// The rules of a configuration file.
#[derive(Debug, Clone)]
pub struct RawConfig {
    pub rules: Vec<Rule>,
}

/// A rule with its patterns compiled.
#[derive(Debug)]
pub struct CompiledRule {
    pub pattern: CompiledPattern,
    pub action: Definition,
    pub split: Option<CompiledPattern>,
}

/// The rules in effect, in the order they were configured.
#[derive(Debug)]
pub struct Config {
    pub rules: Vec<CompiledRule>,
}

/// The output captures of a definition that does not set them: the whole line.
pub fn regex_match_all() -> (s: String)
    ensures
        s@ == "^.*$"@,
{
    "^.*$".to_owned()
}

/// The result name of a definition that does not set it: the output line.
pub fn echo_result() -> (s: String)
    ensures
        s@ == "$OUTPUT"@,
{
    "$OUTPUT".to_owned()
}

/// The result description of a definition that does not set it: empty.
pub fn blank_string() -> (s: String)
    ensures
        s@ == ""@,
{
    "".to_owned()
}

/// The split of a rule that does not set it.
pub fn split_shell_words() -> (s: Split)
    ensures
        s is ShellWords,
{
    Split::ShellWords
}

/// A regex meta character, as `regex::escape` escapes them.
pub open spec fn is_meta(c: char) -> bool {
    c == '\\' || c == '.' || c == '+' || c == '*' || c == '?' || c == '(' || c == ')' || c == '|' || c == '['
        || c == ']' || c == '{' || c == '}' || c == '^' || c == '$' || c == '#' || c == '&' || c == '-' || c
        == '~'
}

/// `s` with a backslash before each meta character.
pub open spec fn escaped(s: Seq<char>) -> Seq<char>
    decreases s.len(),
{
    if s.len() == 0 {
        Seq::empty()
    } else if is_meta(s.last()) {
        escaped(s.drop_last()).push('\\').push(s.last())
    } else {
        escaped(s.drop_last()).push(s.last())
    }
}

/// `regex::escape`: `text` with a backslash before each meta character.
#[verifier::external_body]
fn regex_escape(text: &str) -> (r: String)
    ensures
        r@ == escaped(text@),
{
    regex::escape(text)
}

/// The escaped keywords, as alternatives of a regex.
pub open spec fn alternatives(kws: Seq<Seq<char>>) -> Seq<char> {
    crate::text::join_with(kws.map_values(|k: Seq<char>| escaped(k)), "|"@)
}

/// The regex that a pattern compiles to.
pub open spec fn pattern_source(p: Pattern) -> Seq<char> {
    match p {
        Pattern::StartsWith(k) => "^("@ + alternatives(views(k@)) + ")"@,
        Pattern::StartsWithKeyword(k) => "^("@ + alternatives(views(k@)) + ")\\b"@,
        Pattern::EndsWith(k) => "("@ + alternatives(views(k@)) + ")$"@,
        Pattern::EndsWithKeyword(k) => "\\b("@ + alternatives(views(k@)) + ")$"@,
        Pattern::Regex(r) => r@,
    }
}

/// The regex that cuts the query of a rule, if it uses one.
pub open spec fn split_source(s: Split) -> Option<Seq<char>> {
    match s {
        Split::ShellWords => None,
        Split::Whitespace => Some("\\s+"@),
        Split::Regex(r) => Some(r@),
    }
}

/// The keywords escaped and joined as alternatives.
fn alternatives_of(kws: &Vec<String>) -> (r: String)
    ensures
        r@ == alternatives(views(kws@)),
{
    let mut escaped_kws: Vec<String> = Vec::new();
    let mut i: usize = 0;
    while i < kws.len()
        invariant
            0 <= i <= kws@.len(),
            escaped_kws@.len() == i,
            forall|j: int| 0 <= j < i ==> (#[trigger] escaped_kws@[j])@ == escaped(kws@[j]@),
        decreases kws@.len() - i,
    {
        let e = regex_escape(kws[i].as_str());
        escaped_kws.push(e);
        i = i + 1;
    }
    proof {
        assert(views(escaped_kws@) =~= views(kws@).map_values(|k: Seq<char>| escaped(k)));
    }
    crate::text::join(&escaped_kws, "|")
}

/// The regex that a pattern compiles to.
pub fn pattern_regex(p: &Pattern) -> (r: String)
    ensures
        r@ == pattern_source(*p),
{
    match p {
        Pattern::StartsWith(k) => {
            let mut s = "^(".to_owned();
            s.append(alternatives_of(k).as_str());
            s.append(")");
            s
        },
        Pattern::StartsWithKeyword(k) => {
            let mut s = "^(".to_owned();
            s.append(alternatives_of(k).as_str());
            s.append(")\\b");
            s
        },
        Pattern::EndsWith(k) => {
            let mut s = "(".to_owned();
            s.append(alternatives_of(k).as_str());
            s.append(")$");
            s
        },
        Pattern::EndsWithKeyword(k) => {
            let mut s = "\\b(".to_owned();
            s.append(alternatives_of(k).as_str());
            s.append(")$");
            s
        },
        Pattern::Regex(r) => r.clone(),
    }
}

/// The rule `c` is the compilation of the rule `r`.
pub open spec fn compiles_to(r: Rule, c: CompiledRule) -> bool {
    &&& c.pattern@ == pattern_source(r.pattern)
    &&& c.action == r.action
    &&& match split_source(r.split) {
        Some(s) => if regex_compiles(s) {
            c.split matches Some(x) && x@ == s
        } else {
            c.split is None
        },
        None => c.split is None,
    }
}

impl Config {
    /// No rule.
    pub fn new() -> (c: Config)
        ensures
            c.rules@.len() == 0,
    {
        Config { rules: Vec::new() }
    }

    /// Adds the rules of a configuration file, after those in effect. The pattern of each rule
    /// must compile; a split regex that does not compile is dropped, and the query is then cut
    /// into shell words.
    pub fn append(&mut self, config: RawConfig)
        requires
            forall|i: int| 0 <= i < config.rules@.len() ==> regex_compiles(pattern_source(#[trigger] config.rules@[i].pattern)),
        ensures
            final(self).rules@.len() == old(self).rules@.len() + config.rules@.len(),
            forall|i: int| 0 <= i < old(self).rules@.len() ==> #[trigger] final(self).rules@[i] == old(self).rules@[i],
            forall|i: int|
                0 <= i < config.rules@.len() ==> compiles_to(
                    config.rules@[i],
                    #[trigger] final(self).rules@[old(self).rules@.len() + i],
                ),
    {
        let rules = config.rules;
        let mut i: usize = 0;
        while i < rules.len()
            invariant
                0 <= i <= rules@.len(),
                forall|j: int| 0 <= j < rules@.len() ==> regex_compiles(pattern_source(#[trigger] rules@[j].pattern)),
                self.rules@.len() == old(self).rules@.len() + i,
                forall|j: int| 0 <= j < old(self).rules@.len() ==> #[trigger] self.rules@[j] == old(self).rules@[j],
                forall|j: int|
                    0 <= j < i ==> compiles_to(rules@[j], #[trigger] self.rules@[old(self).rules@.len() + j]),
            decreases rules@.len() - i,
        {
            let rule = &rules[i];
            let source = pattern_regex(&rule.pattern);
            let pattern = compile_pattern(source.as_str()).unwrap();
            let split = match &rule.split {
                Split::ShellWords => None,
                Split::Whitespace => compile_pattern("\\s+"),
                Split::Regex(r) => compile_pattern(r.as_str()),
            };
            let action = Definition {
                query_command: rule.action.query_command.clone(),
                output_captures: rule.action.output_captures.clone(),
                result_name: rule.action.result_name.clone(),
                result_desc: rule.action.result_desc.clone(),
                run_command: rule.action.run_command.clone(),
            };
            self.rules.push(CompiledRule { pattern, action, split });
            i = i + 1;
        }
    }

    /// Adds the rules of a configuration file when the pattern of each of them compiles, as
    /// `append` does, and returns `true`; otherwise the configuration is refused, nothing is
    /// added and `false` is returned.
    pub fn try_append(&mut self, config: RawConfig) -> (ok: bool)
        ensures
            ok == forall|i: int| 0 <= i < config.rules@.len() ==> regex_compiles(pattern_source(#[trigger] config.rules@[i].pattern)),
            !ok ==> final(self).rules@ == old(self).rules@,
            ok ==> final(self).rules@.len() == old(self).rules@.len() + config.rules@.len(),
            ok ==> forall|i: int| 0 <= i < old(self).rules@.len() ==> #[trigger] final(self).rules@[i] == old(self).rules@[i],
            ok ==> forall|i: int|
                0 <= i < config.rules@.len() ==> compiles_to(
                    config.rules@[i],
                    #[trigger] final(self).rules@[old(self).rules@.len() + i],
                ),
    {
        let mut i: usize = 0;
        while i < config.rules.len()
            invariant
                0 <= i <= config.rules@.len(),
                forall|j: int| 0 <= j < i ==> regex_compiles(pattern_source(#[trigger] config.rules@[j].pattern)),
            decreases config.rules@.len() - i,
        {
            let source = pattern_regex(&config.rules[i].pattern);
            if CompiledPattern::new(source.as_str()).is_none() {
                return false;
            }
            i = i + 1;
        }
        self.append(config);
        true
    }

    /// The first rule whose pattern matches the query, if any.
    pub fn match_rule(&self, query: &str) -> (r: Option<&CompiledRule>)
        ensures
            match r {
                Some(c) => exists|i: int|
                    0 <= i < self.rules@.len() && self.rules@[i] == *c && regex_is_match(c.pattern@, query@)
                        && forall|j: int| 0 <= j < i ==> !regex_is_match(#[trigger] self.rules@[j].pattern@, query@),
                None => forall|j: int| 0 <= j < self.rules@.len() ==> !regex_is_match(#[trigger] self.rules@[j].pattern@, query@),
            },
    {
        let mut i: usize = 0;
        while i < self.rules.len()
            invariant
                0 <= i <= self.rules@.len(),
                forall|j: int| 0 <= j < i ==> !regex_is_match(#[trigger] self.rules@[j].pattern@, query@),
            decreases self.rules@.len() - i,
        {
            if pattern_is_match(&self.rules[i].pattern, query) {
                return Some(&self.rules[i]);
            }
            i = i + 1;
        }
        None
    }
}

} // verus!

verus! {

/// An error of `str::parse` for integers.
#[verifier::external_type_specification]
#[verifier::external_body]
pub struct ExParseIntError(ParseIntError);

/// An error of `shell_words::split`: a quote is not closed.
#[verifier::external_type_specification]
#[verifier::external_body]
pub struct ExParseError(ParseError);

/// The value of the decimal digits `d`.
pub open spec fn digits_value(d: Seq<char>) -> nat
    decreases d.len(),
{
    if d.len() == 0 {
        0
    } else {
        digits_value(d.drop_last()) * 10 + ((d.last() as nat) - 48) as nat
    }
}

/// The number that `str::parse::<usize>` reads from `s`: an optional `+` followed by at least
/// one decimal digit; `None` for anything else.
pub open spec fn parsed_number(s: Seq<char>) -> Option<nat> {
    let d = if s.len() > 0 && s[0] == '+' { s.drop_first() } else { s };
    if d.len() > 0 && forall|i: int| 0 <= i < d.len() ==> '0' <= #[trigger] d[i] <= '9' {
        Some(digits_value(d))
    } else {
        None
    }
}

/// `str::parse::<usize>`: the number written in `s`, if it is one that fits.
///
/// Trusted: as the documentation of `usize::from_str` describes it.
#[verifier::external_body]
fn parse_usize(s: &str) -> (r: Result<usize, ParseIntError>)
    ensures
        match r {
            Ok(n) => parsed_number(s@) == Some(n as nat),
            Err(_) => !(parsed_number(s@) matches Some(v) && v <= usize::MAX),
        },
{
    s.parse::<usize>()
}

/// Why a command or a result text could not be filled in.
#[derive(Debug)]
pub enum InterpolateError {
    /// A variable could not be looked up; the message tells which and why.
    LookupError(String),
    /// The command has an unclosed quote.
    SplitError,
}

/// The keywords after the first, separated by spaces.
pub open spec fn rest_keywords(kws: Seq<Seq<char>>) -> Seq<char> {
    join_with(kws.drop_first(), " "@)
}

/// `text` between single quotes.
pub open spec fn quoted(text: Seq<char>) -> Seq<char> {
    "'"@ + text + "'"@
}

/// The variable `var` names an indexed value after `prefix`; the value at that index among
/// `values`, `None` if there is none there, or an error when the index is not a number.
pub open spec fn indexed_value(var: Seq<char>, prefix: Seq<char>, values: Seq<Option<Seq<char>>>) -> Option<
    Option<Seq<char>>,
> {
    let number = var.subrange(prefix.len() as int, var.len() as int);
    match parsed_number(number) {
        Some(v) => if v <= usize::MAX {
            if v < values.len() {
                Some(values[v as int])
            } else {
                Some(None)
            }
        } else {
            None
        },
        None => None,
    }
}

/// `var` starts with `prefix`.
pub open spec fn has_prefix(var: Seq<char>, prefix: Seq<char>) -> bool {
    prefix.len() <= var.len() && var.subrange(0, prefix.len() as int) == prefix
}

/// The keywords, each present.
pub open spec fn present(kws: Seq<Seq<char>>) -> Seq<Option<Seq<char>>> {
    kws.map_values(|k: Seq<char>| Some(k))
}

/// The keywords, each present and quoted.
pub open spec fn present_quoted(kws: Seq<Seq<char>>) -> Seq<Option<Seq<char>>> {
    kws.map_values(|k: Seq<char>| Some(quoted(k)))
}

/// The captures, present or not.
pub open spec fn capture_views(c: Seq<Option<String>>) -> Seq<Option<Seq<char>>> {
    c.map_values(|x: Option<String>| match x {
        Some(s) => Some(s@),
        None => None,
    })
}

/// The value of the variable `var` in a result text or a run command: `$OUTPUT` is the output
/// line, `$QUERY` the query, `$KEYWORDS` the keywords after the prefix, `$KEYWORDn` and
/// `$CAPTUREn` the keyword and the capture at `n`. `Some(None)` leaves the variable as written,
/// `None` is an error.
pub open spec fn output_var_value(
    var: Seq<char>,
    output: Seq<char>,
    query: Seq<char>,
    kws: Seq<Seq<char>>,
    caps: Seq<Option<Seq<char>>>,
) -> Option<Option<Seq<char>>> {
    if var == "OUTPUT"@ {
        Some(Some(output))
    } else if var == "QUERY"@ {
        Some(Some(query))
    } else if var == "KEYWORDS"@ {
        Some(Some(rest_keywords(kws)))
    } else if has_prefix(var, "KEYWORD"@) {
        indexed_value(var, "KEYWORD"@, present(kws))
    } else if has_prefix(var, "CAPTURE"@) {
        indexed_value(var, "CAPTURE"@, caps)
    } else {
        Some(None)
    }
}

/// The value of the variable `var` in a query command: as for results, but values are quoted
/// and there is no output line nor capture.
pub open spec fn query_var_value(var: Seq<char>, query: Seq<char>, kws: Seq<Seq<char>>) -> Option<Option<Seq<char>>> {
    if var == "QUERY"@ {
        Some(Some(quoted(query)))
    } else if var == "KEYWORDS"@ {
        Some(Some(quoted(rest_keywords(kws))))
    } else if has_prefix(var, "KEYWORD"@) {
        indexed_value(var, "KEYWORD"@, present_quoted(kws))
    } else {
        Some(None)
    }
}

/// The keywords after the first, separated by spaces.
fn rest_keywords_string(keywords: &Vec<String>) -> (r: String)
    requires
        keywords@.len() >= 1,
    ensures
        r@ == rest_keywords(views(keywords@)),
{
    let mut rest: Vec<String> = Vec::new();
    let mut i: usize = 1;
    while i < keywords.len()
        invariant
            1 <= i <= keywords@.len(),
            rest@.len() == i - 1,
            forall|j: int| 0 <= j < i - 1 ==> (#[trigger] rest@[j])@ == keywords@[j + 1]@,
        decreases keywords@.len() - i,
    {
        rest.push(keywords[i].clone());
        i = i + 1;
    }
    proof {
        assert(views(rest@) =~= views(keywords@).drop_first());
    }
    join(&rest, " ")
}

/// `text` between single quotes.
fn quote(text: &str) -> (r: String)
    ensures
        r@ == quoted(text@),
{
    let mut r = "'".to_owned();
    r.append(text);
    r.append("'");
    r
}

/// Reads the index after `prefix` in `var`.
fn index_after(var: &str, prefix: &str) -> (r: Result<usize, ParseIntError>)
    requires
        has_prefix(var@, prefix@),
    ensures
        match r {
            Ok(n) => parsed_number(var@.subrange(prefix@.len() as int, var@.len() as int)) == Some(n as nat),
            Err(_) => !(parsed_number(var@.subrange(prefix@.len() as int, var@.len() as int)) matches Some(v) && v
                <= usize::MAX),
        },
{
    let rest = var.substring_char(prefix.unicode_len(), var.unicode_len());
    parse_usize(rest)
}

/// Law: `$KEYWORDS` stands for the keywords after the first (the rule's prefix), joined by
/// single spaces: as they are in a result text or a run command, and between single quotes in
/// a query command.
pub proof fn law_keywords_variable(
    output: Seq<char>,
    query: Seq<char>,
    kws: Seq<Seq<char>>,
    caps: Seq<Option<Seq<char>>>,
)
    requires
        kws.len() >= 1,
    ensures
        output_var_value("KEYWORDS"@, output, query, kws, caps) == Some(
            Some(join_with(kws.subrange(1, kws.len() as int), " "@)),
        ),
        query_var_value("KEYWORDS"@, query, kws) == Some(
            Some("'"@ + join_with(kws.subrange(1, kws.len() as int), " "@) + "'"@),
        ),
{
    reveal_strlit("KEYWORDS");
    reveal_strlit("OUTPUT");
    reveal_strlit("QUERY");
    assert("KEYWORDS"@ != "OUTPUT"@) by {
        assert("KEYWORDS"@[0] != "OUTPUT"@[0]);
    }
    assert("KEYWORDS"@ != "QUERY"@) by {
        assert("KEYWORDS"@[0] != "QUERY"@[0]);
    }
    assert(kws.drop_first() =~= kws.subrange(1, kws.len() as int));
}

/// The value of the variable `var` in a result text or a run command.
pub fn output_var(
    var: &str,
    output: &str,
    query: &str,
    keywords: &Vec<String>,
    captures: &Vec<Option<String>>,
) -> (r: Result<Option<String>, ParseIntError>)
    requires
        var@ == "KEYWORDS"@ ==> keywords@.len() >= 1,
    ensures
        match r {
            Ok(v) => output_var_value(var@, output@, query@, views(keywords@), capture_views(captures@))
                == Some(match v {
                Some(s) => Some(s@),
                None => None::<Seq<char>>,
            }),
            Err(_) => output_var_value(var@, output@, query@, views(keywords@), capture_views(captures@)) is None,
        },
{
    if str_eq(var, "OUTPUT") {
        Ok(Some(output.to_owned()))
    } else if str_eq(var, "QUERY") {
        Ok(Some(query.to_owned()))
    } else if str_eq(var, "KEYWORDS") {
        Ok(Some(rest_keywords_string(keywords)))
    } else if starts_with(var, "KEYWORD") {
        let idx = index_after(var, "KEYWORD")?;
        proof {
            assert(present(views(keywords@)).len() == keywords@.len());
        }
        if idx < keywords.len() {
            proof {
                assert(present(views(keywords@))[idx as int] == Some(keywords@[idx as int]@));
            }
            Ok(Some(keywords[idx].clone()))
        } else {
            Ok(None)
        }
    } else if starts_with(var, "CAPTURE") {
        let idx = index_after(var, "CAPTURE")?;
        if idx < captures.len() {
            match &captures[idx] {
                Some(c) => Ok(Some(c.clone())),
                None => Ok(None),
            }
        } else {
            Ok(None)
        }
    } else {
        Ok(None)
    }
}

/// The value of the variable `var` in a query command.
pub fn query_var(var: &str, query: &str, keywords: &Vec<String>) -> (r: Result<Option<String>, ParseIntError>)
    requires
        var@ == "KEYWORDS"@ ==> keywords@.len() >= 1,
    ensures
        match r {
            Ok(v) => query_var_value(var@, query@, views(keywords@)) == Some(match v {
                Some(s) => Some(s@),
                None => None::<Seq<char>>,
            }),
            Err(_) => query_var_value(var@, query@, views(keywords@)) is None,
        },
{
    if str_eq(var, "QUERY") {
        Ok(Some(quote(query)))
    } else if str_eq(var, "KEYWORDS") {
        Ok(Some(quote(rest_keywords_string(keywords).as_str())))
    } else if starts_with(var, "KEYWORD") {
        let idx = index_after(var, "KEYWORD")?;
        proof {
            assert(present_quoted(views(keywords@)).len() == keywords@.len());
        }
        if idx < keywords.len() {
            proof {
                assert(present_quoted(views(keywords@))[idx as int] == Some(quoted(keywords@[idx as int]@)));
            }
            Ok(Some(quote(keywords[idx].as_str())))
        } else {
            Ok(None)
        }
    } else {
        Ok(None)
    }
}

} // verus!

verus! {

/// What `shellexpand::full_with_context` makes of `input`, with `home` as the home directory
/// and the variables of a result text (`quoted` false: `output_var`) or of a query command
/// (`quoted` true: `query_var`) for the given output line, query, keywords and captures;
/// when a variable lookup fails, the message of that failure as the crate writes it.
pub uninterp spec fn shell_expanded(
    input: Seq<char>,
    home: Option<Seq<char>>,
    quoted: bool,
    output: Seq<char>,
    query: Seq<char>,
    keywords: Seq<Seq<char>>,
    captures: Seq<Option<Seq<char>>>,
) -> Result<Seq<char>, Seq<char>>;

/// The words that `shell_words::split` cuts `s` into; `None` when a quote is not closed.
pub uninterp spec fn shell_split(s: Seq<char>) -> Option<Seq<Seq<char>>>;

/// Whether `char::is_alphanumeric` holds of `c`.
pub uninterp spec fn alphanumeric_char(c: char) -> bool;

/// `char::is_alphanumeric`.
///
/// Trusted: the answer is named `alphanumeric_char` of the character.
#[verifier::external_body]
fn char_is_alphanumeric(c: char) -> (b: bool)
    ensures
        b == alphanumeric_char(c),
{
    c.is_alphanumeric()
}

/// A character that can go on the name of a variable written after a bare `$`.
pub open spec fn var_name_char(c: char) -> bool {
    alphanumeric_char(c) || c == '_'
}

/// `input` names the variable `KEYWORDS` at position `i`: as `$KEYWORDS` with no further
/// character of a name after it, as `${KEYWORDS}`, or as `${KEYWORDS:-` with a default.
pub open spec fn names_keywords_at(input: Seq<char>, i: int) -> bool {
    ||| occurs_at(input, "$KEYWORDS"@, i) && (i + "$KEYWORDS"@.len() >= input.len() || !var_name_char(
        input[i + "$KEYWORDS"@.len()],
    ))
    ||| occurs_at(input, "${KEYWORDS}"@, i)
    ||| occurs_at(input, "${KEYWORDS:-"@, i)
}

/// The keywords can be looked up: there is one, or `input` nowhere names the variable
/// `KEYWORDS`, the only one whose value needs a keyword.
pub open spec fn keywords_cover(input: Seq<char>, keywords: Seq<String>) -> bool {
    keywords.len() >= 1 || forall|i: int| !#[trigger] names_keywords_at(input, i)
}

/// `needle` occurs in `hay` at position `i`.
fn occurs_here(hay: &Vec<char>, needle: &Vec<char>, i: usize) -> (r: bool)
    ensures
        r == occurs_at(hay@, needle@, i as int),
{
    if i > hay.len() || needle.len() > hay.len() - i {
        return false;
    }
    let mut k: usize = 0;
    while k < needle.len()
        invariant
            i + needle.len() <= hay.len(),
            k <= needle@.len(),
            forall|t: int| 0 <= t < k ==> hay@[i + t] == needle@[t],
        decreases needle@.len() - k,
    {
        if hay[i + k] != needle[k] {
            proof {
                assert(hay@.subrange(i as int, i + needle@.len())[k as int] != needle@[k as int]);
            }
            return false;
        }
        k = k + 1;
    }
    proof {
        assert(hay@.subrange(i as int, i + needle@.len()) =~= needle@);
    }
    true
}

/// Whether the keywords can be looked up when `input` is filled in (`keywords_cover`).
pub fn keywords_covered(input: &str, keywords: &Vec<String>) -> (b: bool)
    ensures
        b == keywords_cover(input@, keywords@),
{
    if keywords.len() >= 1 {
        return true;
    }
    let cs = chars_of(input);
    let plain = chars_of("$KEYWORDS");
    let braced = chars_of("${KEYWORDS}");
    let defaulted = chars_of("${KEYWORDS:-");
    proof {
        reveal_strlit("$KEYWORDS");
        reveal_strlit("${KEYWORDS}");
        reveal_strlit("${KEYWORDS:-");
    }
    let mut i: usize = 0;
    while i < cs.len()
        invariant
            cs@ == input@,
            plain@ == "$KEYWORDS"@,
            braced@ == "${KEYWORDS}"@,
            defaulted@ == "${KEYWORDS:-"@,
            keywords@.len() == 0,
            i <= cs@.len(),
            forall|j: int| 0 <= j < i ==> !#[trigger] names_keywords_at(input@, j),
        decreases cs@.len() - i,
    {
        if occurs_here(&cs, &plain, i) {
            let e = i + plain.len();
            if e >= cs.len() {
                assert(names_keywords_at(input@, i as int));
                return false;
            }
            let c = cs[e];
            if !(char_is_alphanumeric(c) || c == '_') {
                assert(names_keywords_at(input@, i as int));
                return false;
            }
        }
        if occurs_here(&cs, &braced, i) || occurs_here(&cs, &defaulted, i) {
            assert(names_keywords_at(input@, i as int));
            return false;
        }
        i = i + 1;
    }
    proof {
        assert forall|j: int| !#[trigger] names_keywords_at(input@, j) by {
            if 0 <= j < i {
            }
        }
    }
    true
}

/// `shellexpand::full_with_context` on a result text or run command, looking variables up
/// with `output_var`; a failed lookup is handed out as its message (`Display`).
///
/// Trusted: the expansion, or the message, is named `shell_expanded` of the arguments. The
/// crate looks up only the variables that `input` names.
#[verifier::external_body]
fn expand_output_text(
    input: &str,
    home: &Option<String>,
    output: &str,
    query: &str,
    keywords: &Vec<String>,
    captures: &Vec<Option<String>>,
) -> (r: Result<String, String>)
    requires
        keywords_cover(input@, keywords@),
    ensures
        match r {
            Ok(s) => shell_expanded(input@, opt_view(*home), false, output@, query@, views(keywords@), capture_views(captures@))
                == Ok::<Seq<char>, Seq<char>>(s@),
            Err(m) => shell_expanded(input@, opt_view(*home), false, output@, query@, views(keywords@), capture_views(captures@))
                == Err::<Seq<char>, Seq<char>>(m@),
        },
{
    shellexpand::full_with_context(input, || home.as_deref(), |var: &str| output_var(var, output, query, keywords, captures))
        .map(|s| s.into_owned())
        .map_err(|e| format!("{}", e))
}

/// `shellexpand::full_with_context` on a query command, looking variables up with
/// `query_var`; a failed lookup is handed out as its message (`Display`).
///
/// Trusted: the expansion, or the message, is named `shell_expanded` of the arguments. The
/// crate looks up only the variables that `input` names.
#[verifier::external_body]
fn expand_query_text(input: &str, home: &Option<String>, query: &str, keywords: &Vec<String>) -> (r: Result<
    String,
    String,
>)
    requires
        keywords_cover(input@, keywords@),
    ensures
        match r {
            Ok(s) => shell_expanded(input@, opt_view(*home), true, Seq::empty(), query@, views(keywords@), Seq::empty())
                == Ok::<Seq<char>, Seq<char>>(s@),
            Err(m) => shell_expanded(input@, opt_view(*home), true, Seq::empty(), query@, views(keywords@), Seq::empty())
                == Err::<Seq<char>, Seq<char>>(m@),
        },
{
    shellexpand::full_with_context(input, || home.as_deref(), |var: &str| query_var(var, query, keywords))
        .map(|s| s.into_owned())
        .map_err(|e| format!("{}", e))
}

/// `shell_words::split`: the words of a command line.
///
/// Trusted: the words are named `shell_split` of the line.
#[verifier::external_body]
fn split_words(s: &str) -> (r: Result<Vec<String>, ParseError>)
    ensures
        match r {
            Ok(ws) => shell_split(s@) == Some(views(ws@)),
            Err(_) => shell_split(s@) is None,
        },
{
    shell_words::split(s)
}

/// The words of `s`, as a shell cuts them.
pub fn split_shell_words_of(s: &str) -> (r: Option<Vec<String>>)
    ensures
        match r {
            Some(ws) => shell_split(s@) == Some(views(ws@)),
            None => shell_split(s@) is None,
        },
{
    match split_words(s) {
        Ok(ws) => Some(ws),
        Err(_) => None,
    }
}

/// `r` is what filling a text in gave, `o`: the text, or the message of the failed lookup.
pub open spec fn text_match(r: Result<String, InterpolateError>, o: Result<Seq<char>, Seq<char>>) -> bool {
    match o {
        Ok(x) => r matches Ok(s) && s@ == x,
        Err(m) => r matches Err(InterpolateError::LookupError(msg)) && msg@ == m,
    }
}

/// A filled-in command cut into words: the words, `Err(Some(message))` when a lookup failed,
/// `Err(None)` when a quote is not closed.
pub open spec fn split_filled(o: Result<Seq<char>, Seq<char>>) -> Result<Seq<Seq<char>>, Option<Seq<char>>> {
    match o {
        Ok(x) => match shell_split(x) {
            Some(ws) => Ok(ws),
            None => Err(None),
        },
        Err(m) => Err(Some(m)),
    }
}

/// `r` is what filling a command in and cutting it gave, `o`.
pub open spec fn parts_match(r: Result<Vec<String>, InterpolateError>, o: Result<Seq<Seq<char>>, Option<Seq<char>>>) -> bool {
    match o {
        Ok(ws) => r matches Ok(parts) && views(parts@) == ws,
        Err(Some(m)) => r matches Err(InterpolateError::LookupError(msg)) && msg@ == m,
        Err(None) => r matches Err(InterpolateError::SplitError),
    }
}

/// Law: filling a run command in and cutting it gives what filling the same text in as a result
/// gives, cut by the shell: the same words, the same failed lookup with the same message, or an
/// unclosed quote.
pub proof fn law_run_command_is_split_result(
    result: Result<String, InterpolateError>,
    run: Result<Vec<String>, InterpolateError>,
    filled: Result<Seq<char>, Seq<char>>,
)
    requires
        text_match(result, filled),
        parts_match(run, split_filled(filled)),
    ensures
        match result {
            Ok(s) => match shell_split(s@) {
                Some(ws) => run matches Ok(parts) && views(parts@) == ws,
                None => run matches Err(InterpolateError::SplitError),
            },
            Err(InterpolateError::LookupError(m)) => run matches Err(InterpolateError::LookupError(n)) && n@ == m@,
            Err(InterpolateError::SplitError) => false,
        },
{
}

/// Fills the variables of a result text in, for the output line `output` of a search for
/// `query` cut into `keywords`, whose output regex captured `captures`; `home` is the home
/// directory that a leading `~` stands for.
pub fn interpolate_result(
    input: &str,
    output: &str,
    query: &str,
    keywords: &Vec<String>,
    captures: &Vec<Option<String>>,
    home: &Option<String>,
) -> (r: Result<String, InterpolateError>)
    requires
        keywords_cover(input@, keywords@),
    ensures
        text_match(
            r,
            shell_expanded(input@, opt_view(*home), false, output@, query@, views(keywords@), capture_views(captures@)),
        ),
{
    match expand_output_text(input, home, output, query, keywords, captures) {
        Ok(s) => Ok(s),
        Err(m) => Err(InterpolateError::LookupError(m)),
    }
}

/// Fills the variables of a query command in and cuts it into the program and its arguments.
pub fn interpolate_query_command(input: &str, query: &str, keywords: &Vec<String>, home: &Option<String>) -> (r: Result<
    Vec<String>,
    InterpolateError,
>)
    requires
        keywords_cover(input@, keywords@),
    ensures
        parts_match(
            r,
            split_filled(shell_expanded(input@, opt_view(*home), true, Seq::empty(), query@, views(keywords@), Seq::empty())),
        ),
{
    let expanded = match expand_query_text(input, home, query, keywords) {
        Ok(s) => s,
        Err(m) => {
            return Err(InterpolateError::LookupError(m));
        },
    };
    match split_words(expanded.as_str()) {
        Ok(ws) => Ok(ws),
        Err(_) => Err(InterpolateError::SplitError),
    }
}

/// Fills the variables of a run command in and cuts it into the program and its arguments.
pub fn interpolate_run_command(
    input: &str,
    output: &str,
    query: &str,
    keywords: &Vec<String>,
    captures: &Vec<Option<String>>,
    home: &Option<String>,
) -> (r: Result<Vec<String>, InterpolateError>)
    requires
        keywords_cover(input@, keywords@),
    ensures
        parts_match(
            r,
            split_filled(shell_expanded(input@, opt_view(*home), false, output@, query@, views(keywords@), capture_views(captures@))),
        ),
{
    let expanded = match expand_output_text(input, home, output, query, keywords, captures) {
        Ok(s) => s,
        Err(m) => {
            return Err(InterpolateError::LookupError(m));
        },
    };
    match split_words(expanded.as_str()) {
        Ok(ws) => Ok(ws),
        Err(_) => Err(InterpolateError::SplitError),
    }
}

} // verus!

verus! {

/// What the output line `line` of the query command of `defn` shows: the name and description
/// of its result and the words of the command to run when it is activated; none when the
/// output regex does not compile or does not match, when a text cannot be filled in, or when
/// the run command does not cut into words.
pub open spec fn line_outcome(
    line: Seq<char>,
    defn: Definition,
    query: Seq<char>,
    keywords: Seq<Seq<char>>,
    home: Option<Seq<char>>,
) -> Option<(Seq<char>, Seq<char>, Seq<Seq<char>>)> {
    let caps = if regex_compiles(defn.output_captures@) {
        crate::pattern::regex_captures(defn.output_captures@, line)
    } else {
        None
    };
    match caps {
        None => None,
        Some(c) => {
            let name = shell_expanded(defn.result_name@, home, false, line, query, keywords, c);
            let desc = shell_expanded(defn.result_desc@, home, false, line, query, keywords, c);
            let run = shell_expanded(defn.run_command@, home, false, line, query, keywords, c);
            match (name, desc, run) {
                (Ok(n), Ok(d), Ok(x)) => match shell_split(x) {
                    Some(ws) => Some((n, d, ws)),
                    None => None,
                },
                _ => None,
            }
        },
    }
}

/// `res` is the result numbered `id` that shows the name `name` and the description `desc`,
/// and nothing more.
pub open spec fn shown_as(res: crate::protocol::PluginSearchResult, id: u32, name: Seq<char>, desc: Seq<char>) -> bool {
    &&& res.id == id
    &&& res.name@ == name
    &&& res.description@ == desc
    &&& res.keywords is None
    &&& res.icon is None
    &&& res.exec_command is None
    &&& res.window is None
}

/// The result that the output line `line` of the query command of `defn` gives, numbered
/// `id`, with the command to run when it is activated: none when the output regex does not
/// compile or does not match, or when a text cannot be filled in.
pub fn result_for_line(
    id: u32,
    line: &str,
    defn: &Definition,
    query: &str,
    keywords: &Vec<String>,
    home: &Option<String>,
) -> (r: Option<(crate::protocol::PluginSearchResult, Vec<String>)>)
    requires
        keywords_cover(defn.result_name@, keywords@),
        keywords_cover(defn.result_desc@, keywords@),
        keywords_cover(defn.run_command@, keywords@),
    ensures
        match line_outcome(line@, *defn, query@, views(keywords@), opt_view(*home)) {
            None => r is None,
            Some((n, d, ws)) => r matches Some(x) && shown_as(x.0, id, n, d) && views(x.1@) == ws,
        },
{
    let re = match CompiledPattern::new(defn.output_captures.as_str()) {
        Some(re) => re,
        None => {
            return None;
        },
    };
    let captures = match crate::pattern::pattern_captures(&re, line) {
        Some(c) => c,
        None => {
            return None;
        },
    };
    let name = interpolate_result(defn.result_name.as_str(), line, query, keywords, &captures, home);
    let desc = interpolate_result(defn.result_desc.as_str(), line, query, keywords, &captures, home);
    let run = interpolate_run_command(defn.run_command.as_str(), line, query, keywords, &captures, home);
    match (name, desc, run) {
        (Ok(name), Ok(description), Ok(parts)) => Some(
            (crate::protocol::PluginSearchResult::new(id, name, description), parts),
        ),
        _ => None,
    }
}

/// How many output lines of its query command one search reads at most.
pub const SEARCH_LINES: u32 = 10;

/// One search of the plugin: how many output lines of its query command it has read, and the
/// commands of the results it has shown, in order; an activation of result `n` runs the `n`th.
pub struct SearchListener {
    pub lines: u32,
    pub runs: Vec<Vec<String>>,
}

impl SearchListener {
    /// No more results than lines read, and no more lines than a search reads.
    pub open spec fn wf(&self) -> bool {
        self.runs@.len() <= self.lines <= SEARCH_LINES
    }

    /// A search that has read nothing yet.
    pub fn new() -> (l: SearchListener)
        ensures
            l.lines == 0,
            l.runs@.len() == 0,
            l.wf(),
    {
        SearchListener { lines: 0, runs: Vec::new() }
    }

    /// The query command printed `line`: the result it shows, numbered by the lines read before
    /// it, if it gives one, and whether the search has read enough lines to stop.
    pub fn on_line(
        &mut self,
        line: &str,
        defn: &Definition,
        query: &str,
        keywords: &Vec<String>,
        home: &Option<String>,
    ) -> (r: (Option<crate::protocol::PluginSearchResult>, bool))
        requires
            old(self).lines < SEARCH_LINES,
            keywords_cover(defn.result_name@, keywords@),
            keywords_cover(defn.result_desc@, keywords@),
            keywords_cover(defn.run_command@, keywords@),
        ensures
            final(self).lines == old(self).lines + 1,
            r.1 == (final(self).lines == SEARCH_LINES),
            old(self).wf() ==> final(self).wf(),
            match line_outcome(line@, *defn, query@, views(keywords@), opt_view(*home)) {
                None => r.0 is None && final(self).runs@ == old(self).runs@,
                Some((n, d, ws)) => {
                    &&& r.0 matches Some(x) && shown_as(x, old(self).lines, n, d)
                    &&& final(self).runs@.len() == old(self).runs@.len() + 1
                    &&& final(self).runs@.take(old(self).runs@.len() as int) == old(self).runs@
                    &&& views(final(self).runs@.last()@) == ws
                },
            },
    {
        let id = self.lines;
        let out = result_for_line(id, line, defn, query, keywords, home);
        self.lines = self.lines + 1;
        let shown = match out {
            Some((res, parts)) => {
                self.runs.push(parts);
                proof {
                    assert(self.runs@.take(old(self).runs@.len() as int) =~= old(self).runs@);
                }
                Some(res)
            },
            None => None,
        };
        (shown, self.lines == SEARCH_LINES)
    }

    /// The result shown when the query command cannot be started: that it was not found, or
    /// the error `cause`.
    pub fn spawn_failure(not_found: bool, cause: &str) -> (r: crate::protocol::PluginSearchResult)
        ensures
            shown_as(
                r,
                0,
                if not_found {
                    "command not found"@
                } else {
                    "failed to spawn process: "@ + cause@
                },
                Seq::empty(),
            ),
    {
        let name = if not_found {
            "command not found".to_owned()
        } else {
            let mut m = "failed to spawn process: ".to_owned();
            m.append(cause);
            m
        };
        crate::protocol::PluginSearchResult::new(0, name, String::new())
    }

    /// The command that an activation of the result numbered `id` runs.
    pub fn selected(&self, id: u32) -> (r: Option<&Vec<String>>)
        ensures
            (id as int) < self.runs@.len() ==> r == Some(&self.runs@[id as int]),
            (id as int) >= self.runs@.len() ==> r is None,
    {
        if (id as usize) < self.runs.len() {
            Some(&self.runs[id as usize])
        } else {
            None
        }
    }
}


} // verus!
