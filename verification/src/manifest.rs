//! The `config.ron` manifest of a plugin: the program that runs it and the queries it takes.
use crate::pattern::{regex_compiles, CompiledPattern};
use crate::protocol::IconSource;
use crate::text::{is_absolute_path, join_path, joined_path, starts_with};
use vstd::prelude::*;

verus! {

/// The program of a plugin, and its arguments.
#[derive(Debug, Clone)]
pub struct PluginBinary {
    pub path: String,
    pub args: Vec<String>,
}

/// The queries that a plugin takes.
#[derive(Debug, Clone)]
pub struct PluginQuery {
    /// The query prefix that the help lists.
    pub help: Option<String>,
    /// The plugin takes the queries it matches alone.
    pub isolate: bool,
    /// Its results are shown in the order it sends them.
    pub no_sort: bool,
    /// It is also queried with an empty query.
    pub persistent: bool,
    /// The queries that it takes.
    pub regex: Option<String>,
}

/// The manifest of a plugin.
#[derive(Debug, Clone)]
pub struct PluginConfig {
    pub name: String,
    pub description: String,
    pub bin: Option<PluginBinary>,
    pub icon: Option<IconSource>,
    pub query: PluginQuery,
}

impl PluginQuery {
    /// A query section that sets nothing.
    pub fn default() -> (q: PluginQuery)
        ensures
            q.help is None && !q.isolate && !q.no_sort && !q.persistent && q.regex is None,
    {
        PluginQuery { help: None, isolate: false, no_sort: false, persistent: false, regex: None }
    }
}

/// The program of a plugin found in the directory `source`: an absolute path is kept, others
/// are taken in `source`.
pub open spec fn program_path(source: Seq<char>, path: Seq<char>) -> Seq<char> {
    if path.len() > 0 && path[0] == '/' {
        path
    } else {
        joined_path(source, path)
    }
}

/// Resolves the manifest of a plugin found in the directory `source`: the path of its program
/// and its query regex, compiled when it compiles. A manifest without a program is refused.
pub fn load(source: &str, config: PluginConfig) -> (r: Option<(String, PluginConfig, Option<CompiledPattern>)>)
    ensures
        match config.bin {
            None => r is None,
            Some(b) => r matches Some(x) && {
                &&& x.0@ == program_path(source@, b.path@)
                &&& x.1 == config
                &&& match config.query.regex {
                    Some(p) => if regex_compiles(p@) {
                        x.2 matches Some(c) && c@ == p@
                    } else {
                        x.2 is None
                    },
                    None => x.2 is None,
                }
            },
        },
{
    let exec = match &config.bin {
        Some(b) => if starts_with(b.path.as_str(), "/") {
            proof {
                reveal_strlit("/");
                if b.path@.len() > 0 {
                    assert(b.path@.subrange(0, 1)[0] == b.path@[0]);
                }
            }
            b.path.clone()
        } else {
            proof {
                reveal_strlit("/");
                if b.path@.len() > 0 && b.path@[0] == '/' {
                    assert(b.path@.subrange(0, 1) =~= "/"@);
                }
            }
            crate::text::join_path(source, b.path.as_str())
        },
        None => {
            return None;
        },
    };
    let regex = match &config.query.regex {
        Some(p) => CompiledPattern::new(p.as_str()),
        None => None,
    };
    Some((exec, config, regex))
}

/// The directories where plugins are looked for, in order: the user's own under `home`, then the
/// system's, then the distribution's.
pub fn plugin_paths(home: &str) -> (r: Vec<String>)
    ensures
        r@.len() == 3,
        r@[0]@ == joined_path(home@, ".local/share/pop-launcher/plugins"@),
        r@[1]@ == "/etc/pop-launcher/plugins"@,
        r@[2]@ == "/usr/lib/pop-launcher/plugins"@,
{
    let mut r: Vec<String> = Vec::new();
    r.push(join_path(home, ".local/share/pop-launcher/plugins"));
    r.push("/etc/pop-launcher/plugins".to_owned());
    r.push("/usr/lib/pop-launcher/plugins".to_owned());
    r
}

} // verus!
