//! The logic of the plugin that runs a query as a command in a terminal.
use crate::calc::first_index;
use crate::protocol::{PluginResponse, PluginSearchResult};
use crate::search::has_prefix;
use crate::text::{chars_of, contains, contains_seq, starts_with, string_of, sub_chars, trim, trim_seq};
use vstd::prelude::*;
use vstd::string::{StrSliceExecFns, StringExecFns};

verus! {

/// The command that a query asks to run: after `:` it runs in a plain shell; after `t:`, or
/// after the first space of another query, it runs in a terminal. `None` when there is no
/// command.
pub open spec fn command_of(q: Seq<char>) -> Option<(bool, Seq<char>)> {
    if has_prefix(q, ":"@) {
        Some((true, trim_seq(q.drop_first())))
    } else if has_prefix(q, "t:"@) {
        Some((false, trim_seq(q.subrange(2, q.len() as int))))
    } else {
        match first_index(q, ' ') {
            Some(p) => Some((false, trim_seq(q.subrange(p + 1, q.len() as int)))),
            None => None,
        }
    }
}

/// The terminal emulator that `/usr/bin/x-terminal-emulator` links to, given where that link
/// points (`found`, if it is a link) and where that target points in turn (`resolved`, if it is
/// itself a link): the final target, with the option that comes before the command to run, which
/// is `--` for GNOME Terminal and `-e` for the others. Without the link, GNOME Terminal.
pub fn detect_terminal(found: Option<&str>, resolved: Option<&str>) -> (r: (String, String))
    ensures
        match found {
            Some(f) => {
                &&& r.0@ == (match resolved {
                    Some(t) => t@,
                    None => f@,
                })
                &&& r.1@ == (if contains_seq(f@, "gnome-terminal"@) { "--"@ } else { "-e"@ })
            },
            None => r.0@ == "/usr/bin/gnome-terminal"@ && r.1@ == "--"@,
        },
{
    match found {
        Some(f) => {
            let arg = if contains(&chars_of(f), &chars_of("gnome-terminal")) {
                "--"
            } else {
                "-e"
            };
            let path = match resolved {
                Some(t) => t.to_owned(),
                None => f.to_owned(),
            };
            (path, arg.to_owned())
        },
        None => ("/usr/bin/gnome-terminal".to_owned(), "--".to_owned()),
    }
}

/// The terminal plugin: whether the command runs without a terminal, and the command of the
/// last query.
pub struct TerminalApp {
    pub shell_only: bool,
    pub last_query: Option<String>,
}

/// The first position of `c` in `cs`.
fn find_char_pos(cs: &Vec<char>, c: char) -> (r: Option<usize>)
    ensures
        match r {
            Some(i) => i < cs.len() && first_index(cs@, c) == Some(i as int),
            None => first_index(cs@, c) is None,
        },
{
    let mut i: usize = 0;
    while i < cs.len()
        invariant
            0 <= i <= cs@.len(),
            forall|j: int| 0 <= j < i ==> cs@[j] != c,
        decreases cs@.len() - i,
    {
        if cs[i] == c {
            proof {
                assert(crate::plugin_config::is_first_pos(cs@, c, i as int));
                let k = choose|k: int| crate::plugin_config::is_first_pos(cs@, c, k);
                crate::plugin_config::lemma_first_pos_unique(cs@, c, k, i as int);
            }
            return Some(i);
        }
        i = i + 1;
    }
    None
}

impl TerminalApp {
    /// Nothing to run yet.
    pub fn new() -> (a: TerminalApp)
        ensures
            !a.shell_only,
            a.last_query is None,
    {
        TerminalApp { shell_only: false, last_query: None }
    }

    /// The terminal emulator that this plugin runs commands in, given where
    /// `/usr/bin/x-terminal-emulator` points (`found`) and where that target points in turn
    /// (`resolved`): the final target with `-e` before the command; without the link, GNOME
    /// Terminal with `--`.
    pub fn terminal(found: Option<&str>, resolved: Option<&str>) -> (r: (String, String))
        ensures
            match found {
                Some(f) => {
                    &&& r.0@ == (match resolved {
                        Some(t) => t@,
                        None => f@,
                    })
                    &&& r.1@ == "-e"@
                },
                None => r.0@ == "/usr/bin/gnome-terminal"@ && r.1@ == "--"@,
            },
    {
        match found {
            Some(f) => {
                let path = match resolved {
                    Some(t) => t.to_owned(),
                    None => f.to_owned(),
                };
                (path, "-e".to_owned())
            },
            None => ("/usr/bin/gnome-terminal".to_owned(), "--".to_owned()),
        }
    }

    /// Takes the command of a query in: the result offering to run it, if the query has one.
    pub fn splice_input(&mut self, query: &str) -> (r: Option<PluginResponse>)
        ensures
            match command_of(query@) {
                Some((shell, cmd)) => {
                    &&& final(self).shell_only == shell
                    &&& final(self).last_query matches Some(l) && l@ == cmd
                    &&& r matches Some(PluginResponse::Append(x)) && x.id == 0 && x.name@ == cmd
                        && x.description@ == "run command in terminal"@ && x.keywords is None && x.icon is None
                        && x.exec_command is None && x.window is None
                },
                None => {
                    &&& !final(self).shell_only
                    &&& final(self).last_query == old(self).last_query
                    &&& r is None
                },
            },
    {
        let q = chars_of(query);
        let cmd: Vec<char>;
        if starts_with(query, ":") {
            proof {
                reveal_strlit(":");
            }
            self.shell_only = true;
            cmd = trim(&sub_chars(&q, 1, q.len()));
            proof {
                assert(q@.subrange(1, q@.len() as int) =~= q@.drop_first());
            }
        } else {
            self.shell_only = false;
            if starts_with(query, "t:") {
                proof {
                    reveal_strlit("t:");
                }
                cmd = trim(&sub_chars(&q, 2, q.len()));
            } else {
                match find_char_pos(&q, ' ') {
                    Some(p) => {
                        cmd = trim(&sub_chars(&q, p + 1, q.len()));
                    },
                    None => {
                        return None;
                    },
                }
            }
        }
        let c = string_of(&cmd);
        self.last_query = Some(c.clone());
        Some(
            PluginResponse::Append(
                PluginSearchResult {
                    id: 0,
                    name: c,
                    description: "run command in terminal".to_owned(),
                    keywords: None,
                    icon: None,
                    exec_command: None,
                    window: None,
                },
            ),
        )
    }

    /// The shell command line that an activation runs: the command, then a prompt to close the
    /// terminal; nothing when there is no command. The command is then forgotten.
    pub fn activate(&mut self) -> (r: Option<String>)
        ensures
            final(self).last_query is None,
            final(self).shell_only == old(self).shell_only,
            match old(self).last_query {
                Some(cmd) => r matches Some(line) && line@ == cmd@ + "; echo \"Press Enter to exit\"; read t"@,
                None => r is None,
            },
    {
        match self.last_query.take() {
            Some(cmd) => {
                let mut line = cmd;
                line.append("; echo \"Press Enter to exit\"; read t");
                Some(line)
            },
            None => None,
        }
    }
}

} // verus!
