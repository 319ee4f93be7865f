//! The configuration of a launcher plugin, read from its `plugin.desktop` file.
use crate::pattern::{compile_pattern, regex_compiles, CompiledPattern};
use crate::text::{is_absolute_path, joined_path, opt_view, split_char, split_on, views};
use freedesktop_desktop_entry::DecodeError;
use vstd::prelude::*;
use vstd::string::StrSliceExecFns;

verus! {

/// How the results of a plugin rank against those of other plugins.
#[derive(Debug, Clone, Copy, PartialEq, Eq, Structural)]
pub enum PluginPriority {
    High,
    Default,
    Low,
}

impl PluginPriority {
    /// The position of the priority in the order `High`, `Default`, `Low`.
    pub open spec fn rank(self) -> int {
        match self {
            PluginPriority::High => 0,
            PluginPriority::Default => 1,
            PluginPriority::Low => 2,
        }
    }

    /// The priority of a plugin that does not set one.
    pub fn default() -> (p: PluginPriority)
        ensures
            p == PluginPriority::Default,
    {
        PluginPriority::Default
    }
}

/// The program that runs a plugin, and its arguments.
#[derive(Debug, Clone)]
pub struct PluginExec {
    pub path: String,
    pub args: Vec<String>,
}

/// Query options of a plugin.
#[derive(Debug, Clone)]
pub struct PluginQuery {}

/// The configuration of a plugin.
#[derive(Debug)]
pub struct PluginConfig {
    pub name: String,
    pub description: Option<String>,
    pub icon: Option<String>,
    pub command: PluginExec,
    pub regex: Option<CompiledPattern>,
    pub isolate: bool,
    pub isolate_with: Option<CompiledPattern>,
    pub show_on_empty_query: bool,
    pub no_sort: bool,
    pub generic_query: Option<String>,
    pub long_lived: bool,
    pub history: bool,
    pub priority: PluginPriority,
}

} // verus!

verus! {

/// A key of a desktop entry group: its default value and its localized values, by locale.
#[derive(Debug, Clone)]
pub struct DesktopField {
    pub key: String,
    pub value: String,
    pub localized: Vec<(String, String)>,
}

/// A group of a desktop entry file, with its keys.
#[derive(Debug, Clone)]
pub struct DesktopGroup {
    pub name: String,
    pub fields: Vec<DesktopField>,
}

/// The localized values of a key, by locale.
pub open spec fn locale_view(l: Seq<(String, String)>) -> Seq<(Seq<char>, Seq<char>)> {
    l.map_values(|p: (String, String)| (p.0@, p.1@))
}

/// A key with its default value and its localized values.
pub open spec fn field_view(f: DesktopField) -> (Seq<char>, (Seq<char>, Seq<(Seq<char>, Seq<char>)>)) {
    (f.key@, (f.value@, locale_view(f.localized@)))
}

/// The keys of a group.
pub open spec fn fields_view(fs: Seq<DesktopField>) -> Seq<(Seq<char>, (Seq<char>, Seq<(Seq<char>, Seq<char>)>))> {
    fs.map_values(|f: DesktopField| field_view(f))
}

/// The groups of a desktop entry, by name.
pub open spec fn groups_view(gs: Seq<DesktopGroup>) -> Seq<(Seq<char>, Seq<(Seq<char>, (Seq<char>, Seq<(Seq<char>, Seq<char>)>))>)> {
    gs.map_values(|g: DesktopGroup| (g.name@, fields_view(g.fields@)))
}

/// The value paired with the first occurrence of `key`.
pub open spec fn find_keyed<V>(s: Seq<(Seq<char>, V)>, key: Seq<char>) -> Option<V>
    decreases s.len(),
{
    if s.len() == 0 {
        None
    } else if s[0].0 == key {
        Some(s[0].1)
    } else {
        find_keyed(s.drop_first(), key)
    }
}

/// Looking up from position `i` either stops at `i` or goes on from `i + 1`.
pub proof fn lemma_find_keyed_step<V>(s: Seq<(Seq<char>, V)>, i: int, key: Seq<char>)
    requires
        0 <= i < s.len(),
    ensures
        find_keyed(s.subrange(i, s.len() as int), key) == if s[i].0 == key {
            Some(s[i].1)
        } else {
            find_keyed(s.subrange(i + 1, s.len() as int), key)
        },
{
    assert(s.subrange(i, s.len() as int).drop_first() =~= s.subrange(i + 1, s.len() as int));
}

/// `i` is the first position of `c` in `l`.
pub open spec fn is_first_pos(l: Seq<char>, c: char, i: int) -> bool {
    &&& 0 <= i < l.len()
    &&& l[i] == c
    &&& forall|j: int| 0 <= j < i ==> l[j] != c
}

/// The part of the locale `l` before its first `_`, if it has one.
pub open spec fn underscore_cut(l: Seq<char>) -> Option<Seq<char>> {
    if exists|i: int| is_first_pos(l, '_', i) {
        Some(l.take(choose|i: int| is_first_pos(l, '_', i)))
    } else {
        None
    }
}

/// The value of a key for the preferred locales: for the first locale that has a value, either
/// itself or the part before its `_`, that value; otherwise the default value.
pub open spec fn localized_value(
    default: Seq<char>,
    lm: Seq<(Seq<char>, Seq<char>)>,
    locales: Seq<Seq<char>>,
) -> Seq<char>
    decreases locales.len(),
{
    if locales.len() == 0 {
        default
    } else {
        match find_keyed(lm, locales[0]) {
            Some(v) => v,
            None => match underscore_cut(locales[0]) {
                Some(p) => match find_keyed(lm, p) {
                    Some(v) => v,
                    None => localized_value(default, lm, locales.drop_first()),
                },
                None => localized_value(default, lm, locales.drop_first()),
            },
        }
    }
}

/// The value of `key` in the group `fields`, localized for `locales`.
pub open spec fn localized_entry_of(
    fields: Seq<(Seq<char>, (Seq<char>, Seq<(Seq<char>, Seq<char>)>))>,
    key: Seq<char>,
    locales: Seq<Seq<char>>,
) -> Option<Seq<char>> {
    match find_keyed(fields, key) {
        Some(f) => Some(localized_value(f.0, f.1, locales)),
        None => None,
    }
}

/// The default value of `key` in the group `fields`.
pub open spec fn entry_of(
    fields: Seq<(Seq<char>, (Seq<char>, Seq<(Seq<char>, Seq<char>)>))>,
    key: Seq<char>,
) -> Option<Seq<char>> {
    match find_keyed(fields, key) {
        Some(f) => Some(f.0),
        None => None,
    }
}

/// The value of `key` in the group `fields` read as a boolean: `true` or `false`, anything else
/// counts as absent.
pub open spec fn entry_bool_of(
    fields: Seq<(Seq<char>, (Seq<char>, Seq<(Seq<char>, Seq<char>)>))>,
    key: Seq<char>,
) -> Option<bool> {
    match entry_of(fields, key) {
        Some(v) => if v == "true"@ {
            Some(true)
        } else if v == "false"@ {
            Some(false)
        } else {
            None
        },
        None => None,
    }
}

/// The position of the first `_` in `l`, if any.
fn first_underscore(l: &str) -> (r: Option<usize>)
    ensures
        match r {
            Some(i) => is_first_pos(l@, '_', i as int),
            None => forall|i: int| 0 <= i < l@.len() ==> l@[i] != '_',
        },
{
    let n = l.unicode_len();
    let mut i: usize = 0;
    while i < n
        invariant
            n == l@.len(),
            0 <= i <= n,
            forall|j: int| 0 <= j < i ==> l@[j] != '_',
        decreases n - i,
    {
        if l.get_char(i) == '_' {
            return Some(i);
        }
        i = i + 1;
    }
    None
}

/// The first position of a character is unique.
pub proof fn lemma_first_pos_unique(l: Seq<char>, c: char, i: int, j: int)
    requires
        is_first_pos(l, c, i),
        is_first_pos(l, c, j),
    ensures
        i == j,
{
    if i < j {
        assert(l[i] != c);
    }
    if j < i {
        assert(l[j] != c);
    }
}

/// The localized value paired with `locale`, if any.
fn locale_lookup<'a>(lm: &'a Vec<(String, String)>, locale: &str) -> (r: Option<&'a String>)
    ensures
        match r {
            Some(v) => find_keyed(locale_view(lm@), locale@) == Some(v@),
            None => find_keyed(locale_view(lm@), locale@) is None,
        },
{
    let ghost s = locale_view(lm@);
    let mut i: usize = 0;
    proof {
        assert(s.subrange(0, s.len() as int) =~= s);
    }
    while i < lm.len()
        invariant
            s == locale_view(lm@),
            0 <= i <= lm@.len(),
            find_keyed(s, locale@) == find_keyed(s.subrange(i as int, s.len() as int), locale@),
        decreases lm@.len() - i,
    {
        proof {
            lemma_find_keyed_step(s, i as int, locale@);
        }
        if crate::text::str_eq(lm[i].0.as_str(), locale) {
            return Some(&lm[i].1);
        }
        i = i + 1;
    }
    proof {
        assert(s.subrange(i as int, s.len() as int) =~= Seq::<(Seq<char>, Seq<char>)>::empty());
    }
    None
}

impl DesktopGroup {
    /// The key `key` of this group, if it has one.
    pub fn field(&self, key: &str) -> (r: Option<&DesktopField>)
        ensures
            match r {
                Some(f) => find_keyed(fields_view(self.fields@), key@) == Some(field_view(*f).1),
                None => find_keyed(fields_view(self.fields@), key@) is None,
            },
    {
        let ghost s = fields_view(self.fields@);
        let mut i: usize = 0;
        proof {
            assert(s.subrange(0, s.len() as int) =~= s);
        }
        while i < self.fields.len()
            invariant
                s == fields_view(self.fields@),
                0 <= i <= self.fields@.len(),
                find_keyed(s, key@) == find_keyed(s.subrange(i as int, s.len() as int), key@),
            decreases self.fields@.len() - i,
        {
            proof {
                lemma_find_keyed_step(s, i as int, key@);
            }
            if crate::text::str_eq(self.fields[i].key.as_str(), key) {
                return Some(&self.fields[i]);
            }
            i = i + 1;
        }
        proof {
            assert(s.subrange(i as int, s.len() as int).len() == 0);
        }
        None
    }

    /// The default value of `key`.
    pub fn entry(&self, key: &str) -> (r: Option<&str>)
        ensures
            match r {
                Some(v) => entry_of(fields_view(self.fields@), key@) == Some(v@),
                None => entry_of(fields_view(self.fields@), key@) is None,
            },
    {
        match self.field(key) {
            Some(f) => Some(f.value.as_str()),
            None => None,
        }
    }

    /// The value of `key` read as a boolean: `true` or `false`; anything else counts as absent.
    pub fn entry_bool(&self, key: &str) -> (r: Option<bool>)
        ensures
            r == entry_bool_of(fields_view(self.fields@), key@),
    {
        match self.entry(key) {
            Some(v) => if crate::text::str_eq(v, "true") {
                Some(true)
            } else if crate::text::str_eq(v, "false") {
                Some(false)
            } else {
                None
            },
            None => None,
        }
    }

    /// The value of `key` for the preferred `locales`: the value of the first locale that has
    /// one, trying each locale as it is and then its part before `_`; otherwise the default value.
    pub fn localized_entry(&self, key: &str, locales: &Vec<String>) -> (r: Option<&str>)
        ensures
            match r {
                Some(v) => localized_entry_of(fields_view(self.fields@), key@, crate::text::views(locales@))
                    == Some(v@),
                None => localized_entry_of(fields_view(self.fields@), key@, crate::text::views(locales@)) is None,
            },
    {
        let f = match self.field(key) {
            Some(f) => f,
            None => {
                return None;
            },
        };
        let ghost ls = crate::text::views(locales@);
        let ghost lm = locale_view(f.localized@);
        let mut i: usize = 0;
        proof {
            assert(ls.subrange(0, ls.len() as int) =~= ls);
        }
        while i < locales.len()
            invariant
                ls == crate::text::views(locales@),
                lm == locale_view(f.localized@),
                localized_entry_of(fields_view(self.fields@), key@, ls) == Some(
                    localized_value(f.value@, lm, ls),
                ),
                0 <= i <= locales@.len(),
                localized_value(f.value@, lm, ls) == localized_value(
                    f.value@,
                    lm,
                    ls.subrange(i as int, ls.len() as int),
                ),
            decreases locales@.len() - i,
        {
            let locale = locales[i].as_str();
            proof {
                assert(ls.subrange(i as int, ls.len() as int).drop_first() =~= ls.subrange(
                    i + 1,
                    ls.len() as int,
                ));
                assert(ls.subrange(i as int, ls.len() as int)[0] == locale@);
            }
            match locale_lookup(&f.localized, locale) {
                Some(v) => {
                    proof {
                        let rest = ls.subrange(i as int, ls.len() as int);
                        assert(rest.len() > 0);
                        assert(find_keyed(lm, rest[0]) == Some(v@));
                        assert(localized_value(f.value@, lm, rest) == v@);
                    }
                    return Some(v.as_str());
                },
                None => {},
            }
            match first_underscore(locale) {
                Some(pos) => {
                    let prefix = locale.substring_char(0, pos);
                    proof {
                        assert(exists|k: int| is_first_pos(locale@, '_', k));
                        let k = choose|k: int| is_first_pos(locale@, '_', k);
                        lemma_first_pos_unique(locale@, '_', k, pos as int);
                        assert(prefix@ =~= locale@.take(pos as int));
                    }
                    match locale_lookup(&f.localized, prefix) {
                        Some(v) => {
                            proof {
                                let rest = ls.subrange(i as int, ls.len() as int);
                                assert(rest.len() > 0);
                                assert(underscore_cut(rest[0]) == Some(prefix@));
                                assert(localized_value(f.value@, lm, rest) == v@);
                            }
                            return Some(v.as_str());
                        },
                        None => {},
                    }
                },
                None => {
                    proof {
                        assert(!exists|k: int| is_first_pos(locale@, '_', k));
                    }
                },
            }
            i = i + 1;
        }
        proof {
            assert(ls.subrange(i as int, ls.len() as int).len() == 0);
        }
        Some(f.value.as_str())
    }
}

} // verus!

verus! {

/// An error of the desktop entry decoder of `freedesktop_desktop_entry`.
#[verifier::external_type_specification]
#[verifier::external_body]
pub struct ExDecodeError(DecodeError);

/// The groups that `freedesktop_desktop_entry::DesktopEntry::from_str` decodes from `content`,
/// read from `path` and keeping the localized values of `locales`, in increasing order of
/// name; `None` when it refuses the file.
pub uninterp spec fn decoded_desktop_entry(
    path: Seq<char>,
    content: Seq<char>,
    locales: Seq<Seq<char>>,
) -> Option<Seq<(Seq<char>, Seq<(Seq<char>, (Seq<char>, Seq<(Seq<char>, Seq<char>)>))>)>>;

/// Decodes a desktop entry with `freedesktop_desktop_entry::DesktopEntry::from_str`, and hands
/// its groups out as plain values.
///
/// Trusted: the groups (or the refusal) are named `decoded_desktop_entry` of the arguments.
#[verifier::external_body]
fn decode_desktop_entry(path: &str, content: &str, locales: &Vec<String>) -> (r: Result<
    Vec<DesktopGroup>,
    DecodeError,
>)
    ensures
        match r {
            Ok(gs) => decoded_desktop_entry(path@, content@, views(locales@)) == Some(groups_view(gs@)),
            Err(_) => decoded_desktop_entry(path@, content@, views(locales@)) is None,
        },
{
    let entry = freedesktop_desktop_entry::DesktopEntry::from_str(path, content, Some(locales))?;
    Ok(entry.groups.0.into_iter().map(|(name, g)| DesktopGroup {
        name,
        fields: g.0.into_iter().map(|(key, (value, lm))| DesktopField {
            key,
            value,
            localized: lm.into_iter().collect(),
        }).collect(),
    }).collect())
}

/// The preferred locales of the environment, by `freedesktop_desktop_entry::get_languages_from_env`.
///
/// Trusted for nothing: the result depends on the environment.
#[verifier::external_body]
fn languages_from_env() -> Vec<String> {
    freedesktop_desktop_entry::get_languages_from_env()
}

/// Why a plugin configuration was refused.
#[derive(Debug)]
pub enum ConfigError {
    /// The file is not a valid desktop entry.
    Decode(DecodeError),
    /// The file has no `Plugin` group.
    NoPluginGroup,
    /// The `Plugin` group has no `Name`.
    NoName,
    /// The `Plugin` group has no `Exec`.
    NoExec,
    /// The `Regex` does not compile.
    Regex(String),
    /// The `IsolateWith` regex does not compile.
    IsolateWith(String),
}

/// The priority that a `Priority` value names; others keep the default.
pub open spec fn priority_named(v: Option<Seq<char>>) -> PluginPriority {
    match v {
        Some(p) => if p == "High"@ {
            PluginPriority::High
        } else if p == "Low"@ {
            PluginPriority::Low
        } else {
            PluginPriority::Default
        },
        None => PluginPriority::Default,
    }
}

/// A flag that defaults to `false`.
pub open spec fn flag(v: Option<bool>) -> bool {
    match v {
        Some(b) => b,
        None => false,
    }
}

/// A pattern is given and does not compile.
pub open spec fn bad_pattern(v: Option<Seq<char>>) -> bool {
    v matches Some(p) && !regex_compiles(p)
}

/// The compiled form of an optional pattern has the same source.
pub open spec fn pattern_of(c: Option<CompiledPattern>, v: Option<Seq<char>>) -> bool {
    match v {
        Some(p) => c matches Some(x) && x@ == p,
        None => c is None,
    }
}

/// `c` is the configuration read from the `Plugin` group `fields` of a plugin found in the
/// directory `source`, whose `Name` and `Exec` are `name` and `exec`.
pub open spec fn config_fields(
    c: PluginConfig,
    source: Seq<char>,
    fields: Seq<(Seq<char>, (Seq<char>, Seq<(Seq<char>, Seq<char>)>))>,
    name: Seq<char>,
    exec: Seq<char>,
) -> bool {
    let parts = split_on(exec, ' ');
    &&& c.name@ == name
    &&& c.command.path@ == joined_path(source, parts[0])
    &&& views(c.command.args@) == parts.drop_first()
    &&& opt_view(c.description) == entry_of(fields, "Description"@)
    &&& opt_view(c.icon) == entry_of(fields, "Icon"@)
    &&& pattern_of(c.regex, entry_of(fields, "Regex"@))
    &&& c.isolate == flag(entry_bool_of(fields, "Isolate"@))
    &&& pattern_of(c.isolate_with, entry_of(fields, "IsolateWith"@))
    &&& c.show_on_empty_query == flag(entry_bool_of(fields, "ShowOnEmptyQuery"@))
    &&& c.no_sort == flag(entry_bool_of(fields, "NoSort"@))
    &&& opt_view(c.generic_query) == entry_of(fields, "GenericQuery"@)
    &&& c.long_lived == flag(entry_bool_of(fields, "LongLived"@))
    &&& c.history == flag(entry_bool_of(fields, "History"@))
    &&& c.priority == priority_named(entry_of(fields, "Priority"@))
}

/// `r` is what reading a plugin configuration found in `source` gives, when the desktop entry
/// decodes to the groups `gs` (`None`: it does not decode) for the preferred `locales`.
pub open spec fn parsed_config(
    source: Seq<char>,
    gs: Option<Seq<(Seq<char>, Seq<(Seq<char>, (Seq<char>, Seq<(Seq<char>, Seq<char>)>))>)>>,
    locales: Seq<Seq<char>>,
    r: Result<PluginConfig, ConfigError>,
) -> bool {
    match gs {
        None => r matches Err(ConfigError::Decode(_)),
        Some(gs) => match find_keyed(gs, "Plugin"@) {
            None => r matches Err(ConfigError::NoPluginGroup),
            Some(fields) => match localized_entry_of(fields, "Name"@, locales) {
                None => r matches Err(ConfigError::NoName),
                Some(name) => match localized_entry_of(fields, "Exec"@, locales) {
                    None => r matches Err(ConfigError::NoExec),
                    Some(exec) => {
                        if bad_pattern(entry_of(fields, "Regex"@)) {
                            r matches Err(ConfigError::Regex(e)) && Some(e@) == entry_of(fields, "Regex"@)
                        } else if bad_pattern(entry_of(fields, "IsolateWith"@)) {
                            r matches Err(ConfigError::IsolateWith(e)) && Some(e@) == entry_of(
                                fields,
                                "IsolateWith"@,
                            )
                        } else {
                            r matches Ok(c) && config_fields(c, source, fields, name, exec)
                        }
                    },
                },
            },
        },
    }
}

/// The group named `name`, if any.
fn group_named<'a>(gs: &'a Vec<DesktopGroup>, name: &str) -> (r: Option<&'a DesktopGroup>)
    ensures
        match r {
            Some(g) => find_keyed(groups_view(gs@), name@) == Some(fields_view(g.fields@)),
            None => find_keyed(groups_view(gs@), name@) is None,
        },
{
    let ghost s = groups_view(gs@);
    let mut i: usize = 0;
    proof {
        assert(s.subrange(0, s.len() as int) =~= s);
    }
    while i < gs.len()
        invariant
            s == groups_view(gs@),
            0 <= i <= gs@.len(),
            find_keyed(s, name@) == find_keyed(s.subrange(i as int, s.len() as int), name@),
        decreases gs@.len() - i,
    {
        proof {
            lemma_find_keyed_step(s, i as int, name@);
        }
        if crate::text::str_eq(gs[i].name.as_str(), name) {
            return Some(&gs[i]);
        }
        i = i + 1;
    }
    proof {
        assert(s.subrange(i as int, s.len() as int).len() == 0);
    }
    None
}

/// A copy of an optional string.
fn copy_opt(v: Option<&str>) -> (r: Option<String>)
    ensures
        opt_view(r) == match v {
            Some(s) => Some(s@),
            None => None::<Seq<char>>,
        },
{
    match v {
        Some(s) => Some(s.to_owned()),
        None => None,
    }
}

impl PluginConfig {
    /// Reads the configuration of a plugin found in the directory `source` from the groups of
    /// its decoded `plugin.desktop` file, with values localized for `locales`.
    ///
    /// The `Plugin` group must give a `Name` and an `Exec`; the program is the part of `Exec`
    /// before its first space, taken relative to `source`, and the other space-separated parts
    /// are its arguments. A `Regex` or `IsolateWith` that does not compile is refused.
    pub fn from_groups(source: &str, groups: &Vec<DesktopGroup>, locales: &Vec<String>) -> (r: Result<
        PluginConfig,
        ConfigError,
    >)
        ensures
            parsed_config(source@, Some(groups_view(groups@)), views(locales@), r),
    {
        let group = match group_named(groups, "Plugin") {
            Some(g) => g,
            None => {
                return Err(ConfigError::NoPluginGroup);
            },
        };
        let ghost fields = fields_view(group.fields@);
        let name = match group.localized_entry("Name", locales) {
            Some(n) => n.to_owned(),
            None => {
                return Err(ConfigError::NoName);
            },
        };
        let exec = match group.localized_entry("Exec", locales) {
            Some(e) => e,
            None => {
                return Err(ConfigError::NoExec);
            },
        };
        let mut parts = split_char(exec, ' ');
        proof {
            crate::text::lemma_split_on_len(exec@, ' ');
        }
        let program = parts.remove(0);
        let path = if crate::text::is_absolute(program.as_str()) {
            program
        } else {
            crate::text::join_path(source, program.as_str())
        };
        proof {
            assert(views(parts@) =~= split_on(exec@, ' ').drop_first());
        }
        let command = PluginExec { path, args: parts };
        let description = copy_opt(group.entry("Description"));
        let icon = copy_opt(group.entry("Icon"));
        let regex = match group.entry("Regex") {
            Some(p) => match compile_pattern(p) {
                Some(c) => Some(c),
                None => {
                    return Err(ConfigError::Regex(p.to_owned()));
                },
            },
            None => None,
        };
        let isolate = match group.entry_bool("Isolate") {
            Some(b) => b,
            None => false,
        };
        let isolate_with = match group.entry("IsolateWith") {
            Some(p) => match compile_pattern(p) {
                Some(c) => Some(c),
                None => {
                    return Err(ConfigError::IsolateWith(p.to_owned()));
                },
            },
            None => None,
        };
        let show_on_empty_query = match group.entry_bool("ShowOnEmptyQuery") {
            Some(b) => b,
            None => false,
        };
        let no_sort = match group.entry_bool("NoSort") {
            Some(b) => b,
            None => false,
        };
        let generic_query = copy_opt(group.entry("GenericQuery"));
        let long_lived = match group.entry_bool("LongLived") {
            Some(b) => b,
            None => false,
        };
        let history = match group.entry_bool("History") {
            Some(b) => b,
            None => false,
        };
        let priority = match group.entry("Priority") {
            Some(p) => if crate::text::str_eq(p, "High") {
                PluginPriority::High
            } else if crate::text::str_eq(p, "Low") {
                PluginPriority::Low
            } else {
                PluginPriority::Default
            },
            None => PluginPriority::Default,
        };
        Ok(
            PluginConfig {
                name,
                description,
                icon,
                command,
                regex,
                isolate,
                isolate_with,
                show_on_empty_query,
                no_sort,
                generic_query,
                long_lived,
                history,
                priority,
            },
        )
    }

    /// Reads the configuration of a plugin found in the directory `source` from the text
    /// `content` of its desktop entry file at `config_path`, with values localized for `locales`.
    pub fn from_str_with_locales(
        source: &str,
        config_path: &str,
        content: &str,
        locales: &Vec<String>,
    ) -> (r: Result<PluginConfig, ConfigError>)
        ensures
            parsed_config(
                source@,
                decoded_desktop_entry(config_path@, content@, views(locales@)),
                views(locales@),
                r,
            ),
    {
        match decode_desktop_entry(config_path, content, locales) {
            Ok(groups) => PluginConfig::from_groups(source, &groups, locales),
            Err(e) => Err(ConfigError::Decode(e)),
        }
    }

    /// Reads the configuration of a plugin found in the directory `source` from the text
    /// `content` of its desktop entry file at `config_path`, with values localized for the
    /// languages of the environment.
    pub fn from_str(source: &str, config_path: &str, content: &str) -> (r: Result<PluginConfig, ConfigError>)
        ensures
            exists|locales: Seq<Seq<char>>| parsed_config(
                source@,
                decoded_desktop_entry(config_path@, content@, locales),
                locales,
                r,
            ),
    {
        let locales = languages_from_env();
        PluginConfig::from_str_with_locales(source, config_path, content, &locales)
    }
}

} // verus!
