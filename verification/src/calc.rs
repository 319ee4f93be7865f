//! The logic of the calculator plugin, which evaluates queries that start with `=` with the
//! `qalc` program: how its output is read, and what the plugin answers.
use crate::pattern::{erase_matches, regex_erased, CompiledPattern};
use crate::plugin_config::{is_first_pos, lemma_first_pos_unique};
use crate::protocol::{ContextOption, IconSource, PluginResponse, PluginSearchResult};
use crate::search::has_prefix;
use crate::text::{chars_of, opt_view, starts_with, string_of, trim, trim_seq, trim_start_from, trim_start_seq};
use vstd::prelude::*;
use vstd::string::{StrSliceExecFns, StringExecFns};

verus! {

/// A line of `qalc` that reports a problem.
pub open spec fn has_issue(s: Seq<char>) -> bool {
    has_prefix(s, "error"@) || has_prefix(s, "warning"@)
}

/// The position of the `)` that closes the group open at depth `level` when `s[i..]` is read.
pub open spec fn close_paren(s: Seq<char>, i: int, level: int) -> Option<int>
    decreases s.len() - i,
{
    if i < 0 || i >= s.len() {
        None
    } else if s[i] == '(' {
        close_paren(s, i + 1, level + 1)
    } else if s[i] == ')' {
        if level - 1 == 0 {
            Some(i)
        } else {
            close_paren(s, i + 1, level - 1)
        }
    } else {
        close_paren(s, i + 1, level)
    }
}

/// `s` without a leading parenthesized group (the expression as `qalc` read it back), and the
/// whitespace after it; unchanged when there is no such group or it is not closed.
pub open spec fn after_group(s: Seq<char>) -> Seq<char> {
    if s.len() > 0 && s[0] == '(' {
        match close_paren(s, 1, 1) {
            Some(i) => trim_start_seq(s.subrange(i + 1, s.len() as int)),
            None => s,
        }
    } else {
        s
    }
}

/// The first position of `c` in `s`.
pub open spec fn first_index(s: Seq<char>, c: char) -> Option<int> {
    if exists|i: int| is_first_pos(s, c, i) {
        Some(choose|i: int| is_first_pos(s, c, i))
    } else {
        None
    }
}

/// Where the value starts: after the first `=`, or else after the first `≈`.
pub open spec fn value_start(s: Seq<char>) -> Option<int> {
    match first_index(s, '=') {
        Some(p) => Some(p + 1),
        None => match first_index(s, '≈') {
            Some(p) => Some(p + 1),
            None => None,
        },
    }
}

/// `s` without the parentheses that enclose it, if it is enclosed.
pub open spec fn unwrap_parens(s: Seq<char>) -> Seq<char> {
    if s.len() > 0 && s[0] == '(' && s.last() == ')' {
        s.subrange(1, s.len() - 1)
    } else {
        s
    }
}

/// The line of `qalc` output `raw` ends the answer: it is blank.
pub open spec fn line_ends(raw: Seq<char>) -> bool {
    trim_seq(raw).len() == 0
}

/// The value that a line of `qalc` output gives, its escape sequences (matches of `ansi`)
/// removed: what follows the `=` or `≈` after the expression, without enclosing parentheses;
/// `None` when the line reports a problem or gives no value.
pub open spec fn line_value(raw: Seq<char>, ansi: Seq<char>) -> Option<Seq<char>> {
    let n = regex_erased(ansi, trim_seq(raw));
    let g = after_group(n);
    if has_issue(n) {
        None
    } else {
        match value_start(g) {
            Some(c) => Some(unwrap_parens(trim_start_seq(g.subrange(c, g.len() as int)))),
            None => None,
        }
    }
}

/// The answer that the output lines `lines` give after `acc`: the values of the lines up to
/// the first blank one, separated by spaces; `None` when a line fails.
pub open spec fn qalc_answer(lines: Seq<Seq<char>>, ansi: Seq<char>, acc: Seq<char>) -> Option<Seq<char>>
    decreases lines.len(),
{
    if lines.len() == 0 || line_ends(lines[0]) {
        Some(acc)
    } else {
        match line_value(lines[0], ansi) {
            None => None,
            Some(v) => qalc_answer(
                lines.drop_first(),
                ansi,
                (if acc.len() > 0 { acc.push(' ') } else { acc }) + v,
            ),
        }
    }
}

/// The first position of `c` in `cs`.
fn find_char(cs: &Vec<char>, c: char) -> (r: Option<usize>)
    ensures
        match r {
            Some(i) => i < cs.len() && first_index(cs@, c) == Some(i as int),
            None => first_index(cs@, c) is None,
        },
{
    let mut i: usize = 0;
    while i < cs.len()
        invariant
            0 <= i <= cs@.len(),
            forall|j: int| 0 <= j < i ==> cs@[j] != c,
        decreases cs@.len() - i,
    {
        if cs[i] == c {
            proof {
                assert(is_first_pos(cs@, c, i as int));
                let k = choose|k: int| is_first_pos(cs@, c, k);
                lemma_first_pos_unique(cs@, c, k, i as int);
            }
            return Some(i);
        }
        i = i + 1;
    }
    None
}

/// `cs` without a leading parenthesized group and the whitespace after it.
fn skip_group(cs: &Vec<char>) -> (r: Vec<char>)
    ensures
        r@ == after_group(cs@),
{
    if cs.len() == 0 || cs[0] != '(' {
        return cs.clone();
    }
    let mut level: usize = 1;
    let mut i: usize = 1;
    while i < cs.len()
        invariant
            1 <= i <= cs@.len(),
            cs@.len() > 0 && cs@[0] == '(',
            1 <= level <= i,
            close_paren(cs@, 1, 1) == close_paren(cs@, i as int, level as int),
        decreases cs@.len() - i,
    {
        if cs[i] == '(' {
            level = level + 1;
        } else if cs[i] == ')' {
            if level == 1 {
                proof {
                    assert(close_paren(cs@, i as int, level as int) == Some(i as int));
                }
                return trim_start_from(cs, i + 1);
            }
            level = level - 1;
        }
        i = i + 1;
    }
    cs.clone()
}

/// The value that a line of `qalc` output gives, if any.
fn parse_line(line: &Vec<char>, ansi: &CompiledPattern) -> (r: Option<Vec<char>>)
    ensures
        match r {
            Some(v) => line_value(line@, ansi@) == Some(v@),
            None => line_value(line@, ansi@) is None,
        },
{
    let t = string_of(&trim(line));
    let n = chars_of(erase_matches(ansi, t.as_str()).as_str());
    let ns = string_of(&n);
    if starts_with(ns.as_str(), "error") || starts_with(ns.as_str(), "warning") {
        return None;
    }
    let g = skip_group(&n);
    let cut = match find_char(&g, '=') {
        Some(p) => p + 1,
        None => match find_char(&g, '≈') {
            Some(p) => p + 1,
            None => {
                return None;
            },
        },
    };
    let v = trim_start_from(&g, cut);
    if v.len() > 0 && v[0] == '(' && v[v.len() - 1] == ')' {
        let mut inner: Vec<char> = Vec::new();
        let mut j: usize = 1;
        while j < v.len() - 1
            invariant
                v@.len() >= 2,
                1 <= j <= v@.len() - 1,
                inner@ == v@.subrange(1, j as int),
            decreases v@.len() - 1 - j,
        {
            inner.push(v[j]);
            proof {
                assert(v@.subrange(1, j + 1) =~= v@.subrange(1, j as int).push(v@[j as int]));
            }
            j = j + 1;
        }
        Some(inner)
    } else {
        Some(v)
    }
}

/// The answer of `qalc` from its output lines after the two it begins with: the values of the
/// lines up to the first blank one, separated by spaces; `None` when a line reports a problem
/// or gives no value. `ansi` is the regex of the terminal escape sequences to remove.
pub fn qalc_output(lines: &Vec<String>, ansi: &CompiledPattern) -> (r: Option<String>)
    ensures
        match r {
            Some(s) => qalc_answer(crate::text::views(lines@), ansi@, Seq::empty()) == Some(s@),
            None => qalc_answer(crate::text::views(lines@), ansi@, Seq::empty()) is None,
        },
{
    let ghost ls = crate::text::views(lines@);
    let mut out: Vec<char> = Vec::new();
    let mut i: usize = 0;
    proof {
        assert(ls.subrange(0, ls.len() as int) =~= ls);
    }
    while i < lines.len()
        invariant
            ls == crate::text::views(lines@),
            0 <= i <= lines@.len(),
            qalc_answer(ls, ansi@, Seq::empty()) == qalc_answer(ls.subrange(i as int, ls.len() as int), ansi@, out@),
        decreases lines@.len() - i,
    {
        let line = chars_of(lines[i].as_str());
        let rest = Ghost(ls.subrange(i as int, ls.len() as int));
        proof {
            assert(rest@[0] == line@);
            assert(rest@.drop_first() =~= ls.subrange(i + 1, ls.len() as int));
        }
        if trim(&line).len() == 0 {
            return Some(string_of(&out));
        }
        match parse_line(&line, ansi) {
            None => {
                return None;
            },
            Some(v) => {
                let ghost before = out@;
                if out.len() > 0 {
                    out.push(' ');
                }
                let mut j: usize = 0;
                let ghost mid = out@;
                while j < v.len()
                    invariant
                        0 <= j <= v@.len(),
                        out@ == mid + v@.subrange(0, j as int),
                    decreases v@.len() - j,
                {
                    out.push(v[j]);
                    proof {
                        assert(mid + v@.subrange(0, j + 1) =~= (mid + v@.subrange(0, j as int)).push(v@[j as int]));
                    }
                    j = j + 1;
                }
                proof {
                    assert(v@.subrange(0, v@.len() as int) =~= v@);
                }
            },
        }
        i = i + 1;
    }
    proof {
        assert(ls.subrange(i as int, ls.len() as int).len() == 0);
    }
    Some(string_of(&out))
}

} // verus!

verus! {

/// The expression of a query for the calculator: what follows its leading `=`, trimmed.
pub open spec fn expression_of(q: Seq<char>) -> Option<Seq<char>> {
    if q.len() > 0 && q[0] == '=' {
        Some(trim_seq(q.drop_first()))
    } else {
        None
    }
}

/// The locale of `locale -ck decimal_point` writes decimal numbers with a comma.
pub open spec fn uses_comma(output: Seq<char>) -> bool {
    crate::text::contains_seq(output, "decimal_point=\",\""@)
}

/// Whether the output of `locale -ck decimal_point` tells that decimal numbers are written with
/// a comma.
pub fn decimal_comma(output: &str) -> (b: bool)
    ensures
        b == uses_comma(output@),
{
    crate::text::contains(&chars_of(output), &chars_of("decimal_point=\",\""))
}

/// The calculator plugin: the last answer, which an activation fills in.
pub struct CalcApp {
    pub outcome: Option<String>,
}

/// The result shown for the expression `expr` whose answer is `outcome`.
pub open spec fn calc_result(expr: Seq<char>, outcome: Option<Seq<char>>) -> Seq<char> {
    match outcome {
        Some(o) => o,
        None => expr + " x = ?"@,
    }
}

impl CalcApp {
    /// No answer yet.
    pub fn new() -> (a: CalcApp)
        ensures
            a.outcome is None,
    {
        CalcApp { outcome: None }
    }

    /// The expression to evaluate for a query, when it starts with `=`.
    pub fn expression(query: &str) -> (r: Option<String>)
        ensures
            match r {
                Some(e) => expression_of(query@) == Some(e@),
                None => expression_of(query@) is None,
            },
    {
        let cs = chars_of(query);
        if cs.len() == 0 || cs[0] != '=' {
            return None;
        }
        let t = trim(&trim_start_from(&cs, 1));
        proof {
            assert(cs@.subrange(1, cs@.len() as int) =~= query@.drop_first());
            assert(crate::text::trim_end_seq(trim_start_seq(query@.drop_first())) == trim_seq(query@.drop_first()));
            lemma_trim_idempotent_start(query@.drop_first());
        }
        Some(string_of(&t))
    }

    /// Answers a search for the expression `expr`, whose answer is `outcome` (`None` when
    /// `qalc` gave none): the answer, or the expression marked as unknown, then `Finished`. The
    /// answer is kept for an activation.
    pub fn answer(&mut self, expr: &str, outcome: Option<String>) -> (rs: Vec<PluginResponse>)
        ensures
            final(self).outcome == outcome,
            rs@.len() == 2,
            rs@[0] matches PluginResponse::Append(r) && {
                &&& r.id == 0
                &&& r.name@ == calc_result(expr@, opt_view(outcome))
                &&& r.description@.len() == 0
                &&& r.icon matches Some(IconSource::Name(i)) && i@ == "accessories-calculator"@
                &&& r.keywords is None
                &&& r.exec_command is None
                &&& r.window is None
            },
            rs@[1] is Finished,
    {
        let name = match &outcome {
            Some(o) => o.clone(),
            None => {
                let mut n = expr.to_owned();
                n.append(" x = ?");
                n
            },
        };
        self.outcome = outcome;
        let r = PluginSearchResult {
            id: 0,
            name,
            description: String::new(),
            keywords: None,
            icon: Some(IconSource::Name("accessories-calculator".to_owned())),
            exec_command: None,
            window: None,
        };
        vec![PluginResponse::Append(r), PluginResponse::Finished]
    }

    /// Activating the answer fills it in, after `= `; it is then forgotten.
    pub fn activate(&mut self) -> (r: Option<PluginResponse>)
        ensures
            final(self).outcome is None,
            match old(self).outcome {
                Some(o) => r matches Some(PluginResponse::Fill(f)) && f@ == "= "@ + o@,
                None => r is None,
            },
    {
        match self.outcome.take() {
            Some(o) => {
                let mut f = "= ".to_owned();
                f.append(o.as_str());
                Some(PluginResponse::Fill(f))
            },
            None => None,
        }
    }

    /// What is shown when `qalc` cannot be started: that it is not installed when it was not
    /// found, otherwise the error `cause`.
    pub fn spawn_failure(not_found: bool, cause: &str) -> (r: String)
        ensures
            r@ == if not_found {
                "qalc command is not installed"@
            } else {
                "qalc command failed to spawn: "@ + cause@
            },
    {
        if not_found {
            "qalc command is not installed".to_owned()
        } else {
            let mut m = "qalc command failed to spawn: ".to_owned();
            m.append(cause);
            m
        }
    }

    /// What is shown when `qalc` started without the pipe that its answer comes through.
    pub fn missing_output() -> (r: String)
        ensures
            r@ == "qalc lacks stdout pipe: did you get hit by a cosmic ray?"@,
    {
        "qalc lacks stdout pipe: did you get hit by a cosmic ray?".to_owned()
    }

    /// The single context option: the manual of the calculator.
    pub fn context() -> (r: PluginResponse)
        ensures
            r matches PluginResponse::Context { id, options } && id == 0 && options@.len() == 1
                && options@[0].id == 0 && options@[0].name@ == "Qalculate! Manual"@,
    {
        PluginResponse::Context {
            id: 0,
            options: vec![ContextOption { id: 0, name: "Qalculate! Manual".to_owned() }],
        }
    }

    /// The address of the manual, which the context option opens; the launcher then closes.
    pub fn manual_url() -> (r: String)
        ensures
            r@ == "https://qalculate.github.io/manual/qalc.html"@,
    {
        "https://qalculate.github.io/manual/qalc.html".to_owned()
    }
}

/// Trimming the start of a text without leading whitespace leaves it as it is.
proof fn lemma_trim_idempotent_start(s: Seq<char>)
    ensures
        trim_start_seq(trim_start_seq(s)) == trim_start_seq(s),
    decreases s.len(),
{
    if s.len() > 0 && crate::text::white_space(s[0]) {
        lemma_trim_idempotent_start(s.drop_first());
    }
}

} // verus!
