//! The logic of the plugin that launches desktop applications: which desktop entries it
//! lists, and how an entry is launched on which graphics card.
use crate::protocol::{ContextOption, GpuPreference, IconSource, Indice, PluginResponse};
use crate::search::has_prefix;
use crate::text::{
    ascii_lowercase, ascii_words, chars_of, contains, contains_seq, is_absolute_path, join_path, joined_path, split_ascii_whitespace,
    starts_with, str_eq, string_of, sub_chars, to_ascii_lowercase, views,
};
use vstd::prelude::*;
use vstd::string::StringExecFns;

verus! {

/// What the plugin reads of a desktop entry.
#[derive(Debug, Clone)]
pub struct EntryInfo {
    /// The application identifier.
    pub appid: String,
    /// The Flatpak identifier, for a Flatpak application.
    pub flatpak: Option<String>,
    /// The path of the entry file.
    pub path: String,
    /// The name for the preferred locales.
    pub name: Option<String>,
    /// The name without locale.
    pub default_name: Option<String>,
    pub exec_command: Option<String>,
    pub not_show_in: Option<Vec<String>>,
    pub only_show_in: Option<Vec<String>>,
    pub no_display: bool,
    pub prefers_non_default_gpu: bool,
    pub actions: Vec<String>,
}

/// A graphics card that the system offers.
#[derive(Debug, Clone)]
pub struct GpuInfo {
    pub name: String,
    pub default: bool,
}

/// The identifier under which an entry is deduplicated: Flatpak applications and system
/// applications do not override each other.
pub open spec fn dedup_key(e: EntryInfo) -> Seq<char> {
    match e.flatpak {
        Some(f) => f@,
        None => e.appid@,
    }
}

/// The command of the entry has a program, and it is not `false`.
pub open spec fn exec_runs(exec: Option<String>) -> bool {
    match exec {
        Some(x) => ascii_words(x@).len() > 0 && ascii_words(x@)[0] != "false"@,
        None => false,
    }
}

/// The entry is one of those never shown.
pub open spec fn excluded(default_name: Option<String>) -> bool {
    match default_name {
        Some(n) => n@ == "GNOME Shell"@ || n@ == "Initial Setup"@,
        None => false,
    }
}

/// One of the desktops `names` is among the current desktops, comparing in ASCII lower case.
pub open spec fn names_current(names: Seq<String>, current: Seq<String>) -> bool {
    exists|i: int, j: int|
        0 <= i < names.len() && 0 <= j < current.len() && ascii_lowercase(#[trigger] names[i]@) == #[trigger] current[j]@
}

/// The entry `e` is shown on the desktops `current`.
pub open spec fn entry_shown(e: EntryInfo, current: Option<Vec<String>>) -> bool {
    &&& e.name is Some
    &&& exec_runs(e.exec_command)
    &&& !excluded(e.default_name)
    &&& !(e.not_show_in matches Some(ns) && current matches Some(cd) && names_current(ns@, cd@))
    &&& match e.only_show_in {
        Some(os) => current matches Some(cd) ==> names_current(os@, cd@),
        None => !e.no_display,
    }
}

/// An earlier entry has the same deduplication key as the entry at `i`.
pub open spec fn seen_before(es: Seq<EntryInfo>, i: int) -> bool {
    exists|j: int| 0 <= j < i && dedup_key(#[trigger] es[j]) == dedup_key(es[i])
}

/// The positions of the entries among the first `n` that the plugin lists, in order: the first
/// entry of each deduplication key, when it is shown.
pub open spec fn listed_positions(es: Seq<EntryInfo>, current: Option<Vec<String>>, n: int) -> Seq<usize>
    decreases n,
{
    if n <= 0 {
        Seq::empty()
    } else if !seen_before(es, n - 1) && entry_shown(es[n - 1], current) {
        listed_positions(es, current, n - 1).push((n - 1) as usize)
    } else {
        listed_positions(es, current, n - 1)
    }
}

/// Whether one of `names` is among the current desktops.
fn any_current(names: &Vec<String>, current: &Vec<String>) -> (r: bool)
    ensures
        r == names_current(names@, current@),
{
    let mut i: usize = 0;
    while i < names.len()
        invariant
            0 <= i <= names@.len(),
            forall|a: int, b: int|
                0 <= a < i && 0 <= b < current@.len() ==> ascii_lowercase(#[trigger] names@[a]@) != #[trigger] current@[b]@,
        decreases names@.len() - i,
    {
        let lower = to_ascii_lowercase(&chars_of(names[i].as_str()));
        let mut j: usize = 0;
        while j < current.len()
            invariant
                0 <= i < names@.len(),
                0 <= j <= current@.len(),
                lower@ == ascii_lowercase(names@[i as int]@),
                forall|b: int| 0 <= b < j ==> lower@ != #[trigger] current@[b]@,
            decreases current@.len() - j,
        {
            let cur = chars_of(current[j].as_str());
            if vec_char_eq(&lower, &cur) {
                return true;
            }
            j = j + 1;
        }
        i = i + 1;
    }
    false
}

/// Whether two character sequences are equal.
fn vec_char_eq(a: &Vec<char>, b: &Vec<char>) -> (r: bool)
    ensures
        r == (a@ == b@),
{
    if a.len() != b.len() {
        return false;
    }
    let mut i: usize = 0;
    while i < a.len()
        invariant
            a@.len() == b@.len(),
            0 <= i <= a@.len(),
            forall|j: int| 0 <= j < i ==> a@[j] == b@[j],
        decreases a@.len() - i,
    {
        if a[i] != b[i] {
            return false;
        }
        i = i + 1;
    }
    proof {
        assert(a@ =~= b@);
    }
    true
}

/// Whether the command of an entry has a program other than `false`.
fn exec_runs_exec(exec: &Option<String>) -> (r: bool)
    ensures
        r == exec_runs(*exec),
{
    match exec {
        Some(x) => {
            let words = split_ascii_whitespace(&chars_of(x.as_str()));
            if words.len() == 0 {
                return false;
            }
            let f = chars_of("false");
            proof {
                assert(words@.map_values(|w: Vec<char>| w@)[0] == words@[0]@);
            }
            !vec_char_eq(&words[0], &f)
        },
        None => false,
    }
}

/// Whether the entry is shown on the desktops `current`.
pub fn is_shown(e: &EntryInfo, current: &Option<Vec<String>>) -> (r: bool)
    ensures
        r == entry_shown(*e, *current),
{
    if e.name.is_none() {
        return false;
    }
    if !exec_runs_exec(&e.exec_command) {
        return false;
    }
    match &e.default_name {
        Some(n) => {
            if str_eq(n.as_str(), "GNOME Shell") || str_eq(n.as_str(), "Initial Setup") {
                return false;
            }
        },
        None => {},
    }
    match (&e.not_show_in, current) {
        (Some(ns), Some(cd)) => {
            if any_current(ns, cd) {
                return false;
            }
        },
        _ => {},
    }
    match &e.only_show_in {
        Some(os) => match current {
            Some(cd) => any_current(os, cd),
            None => true,
        },
        None => !e.no_display,
    }
}

/// The deduplication key of an entry.
fn key_of(e: &EntryInfo) -> (k: &str)
    ensures
        k@ == dedup_key(*e),
{
    match &e.flatpak {
        Some(f) => f.as_str(),
        None => e.appid.as_str(),
    }
}

/// The positions of the entries that the plugin lists: for each deduplication key, its first
/// entry, when that entry is shown on the desktops `current`. An entry that is not shown still
/// hides the later entries of its key, so that a modified copy can override an entry.
pub fn listed_entries(entries: &Vec<EntryInfo>, current: &Option<Vec<String>>) -> (r: Vec<usize>)
    ensures
        r@ == listed_positions(entries@, *current, entries@.len() as int),
{
    let mut r: Vec<usize> = Vec::new();
    let mut i: usize = 0;
    while i < entries.len()
        invariant
            0 <= i <= entries@.len(),
            r@ == listed_positions(entries@, *current, i as int),
        decreases entries@.len() - i,
    {
        let key = key_of(&entries[i]);
        let mut seen = false;
        let mut j: usize = 0;
        while j < i
            invariant
                0 <= j <= i < entries@.len(),
                key@ == dedup_key(entries@[i as int]),
                seen == exists|k: int| 0 <= k < j && dedup_key(#[trigger] entries@[k]) == dedup_key(entries@[i as int]),
            decreases i - j,
        {
            if str_eq(key_of(&entries[j]), key) {
                seen = true;
            }
            j = j + 1;
        }
        if !seen && is_shown(&entries[i], current) {
            r.push(i);
        }
        i = i + 1;
    }
    r
}

/// Law: the plugin lists, in order of position, exactly the entries that are shown on the
/// current desktops and whose deduplication key no earlier entry has; an earlier entry with the
/// same key hides a later one whether or not the earlier one is shown itself.
pub proof fn law_listed_entries(es: Seq<EntryInfo>, current: Option<Vec<String>>, n: int)
    requires
        0 <= n <= es.len() <= usize::MAX,
    ensures
        forall|k: int| 0 <= k < listed_positions(es, current, n).len() ==> #[trigger] listed_positions(es, current, n)[k] < n,
        forall|k1: int, k2: int|
            0 <= k1 < k2 < listed_positions(es, current, n).len() ==> #[trigger] listed_positions(es, current, n)[k1]
                < #[trigger] listed_positions(es, current, n)[k2],
        forall|i: int, j: int|
            0 <= j < i < n && dedup_key(#[trigger] es[j]) == dedup_key(#[trigger] es[i]) ==> !listed_positions(es, current, n).contains(
                i as usize,
            ),
        forall|i: int|
            0 <= i < n ==> (#[trigger] listed_positions(es, current, n).contains(i as usize) <==> (entry_shown(es[i], current)
                && forall|j: int| 0 <= j < i ==> dedup_key(#[trigger] es[j]) != dedup_key(es[i]))),
    decreases n,
{
    if n > 0 {
        law_listed_entries(es, current, n - 1);
        let prev = listed_positions(es, current, n - 1);
        let cur = listed_positions(es, current, n);
        assert forall|i: int| 0 <= i < n implies (cur.contains(i as usize) <==> (entry_shown(es[i], current) && forall|j: int|
            0 <= j < i ==> dedup_key(#[trigger] es[j]) != dedup_key(es[i]))) by {
            if cur.contains(i as usize) {
                let k = choose|k: int| 0 <= k < cur.len() && cur[k] == i as usize;
                if k < prev.len() {
                    assert(prev[k] == i as usize);
                    assert(prev.contains(i as usize));
                }
            }
            if i < n - 1 {
                if prev.contains(i as usize) {
                    let k = choose|k: int| 0 <= k < prev.len() && prev[k] == i as usize;
                    assert(cur[k] == i as usize);
                }
            } else {
                if !seen_before(es, n - 1) && entry_shown(es[n - 1], current) {
                    assert(cur[prev.len() as int] == i as usize);
                } else {
                    assert(cur == prev);
                    if prev.contains(i as usize) {
                        let k = choose|k: int| 0 <= k < prev.len() && prev[k] == i as usize;
                        assert(prev[k] < n - 1);
                    }
                }
            }
        }
        assert forall|k1: int, k2: int| 0 <= k1 < k2 < cur.len() implies cur[k1] < cur[k2] by {
            if k2 >= prev.len() {
                assert(cur[k1] == prev[k1]);
            } else {
                assert(cur[k1] == prev[k1] && cur[k2] == prev[k2]);
            }
        }
    }
}

/// The launch of entry `e` for an activation: on the graphics card it prefers.
pub fn activate_response(e: &EntryInfo) -> (r: PluginResponse)
    ensures
        r == (PluginResponse::DesktopEntry {
            path: e.path,
            gpu_preference: if e.prefers_non_default_gpu {
                GpuPreference::NonDefault
            } else {
                GpuPreference::Default
            },
            action_name: None,
        }),
{
    PluginResponse::DesktopEntry {
        path: e.path.clone(),
        gpu_preference: if e.prefers_non_default_gpu {
            GpuPreference::NonDefault
        } else {
            GpuPreference::Default
        },
        action_name: None,
    }
}

/// The launch of entry `e` for its context option `context`, `gpus` graphics cards being
/// offered.
///
/// On COSMIC the first options are the graphics cards, by index, and the next ones the actions
/// of the entry. Elsewhere the single option launches on the card the entry does not prefer.
pub fn activate_context_response(e: &EntryInfo, context: Indice, cosmic: bool, gpus: u32) -> (r: PluginResponse)
    requires
        cosmic && context >= gpus ==> context - gpus < e.actions@.len(),
    ensures
        r == (PluginResponse::DesktopEntry {
            path: e.path,
            gpu_preference: if cosmic {
                if context < gpus {
                    GpuPreference::SpecificIdx(context)
                } else if e.prefers_non_default_gpu {
                    GpuPreference::NonDefault
                } else {
                    GpuPreference::Default
                }
            } else if !e.prefers_non_default_gpu {
                GpuPreference::NonDefault
            } else {
                GpuPreference::Default
            },
            action_name: if cosmic && context >= gpus {
                Some(e.actions@[(context - gpus) as int])
            } else {
                None
            },
        }),
{
    let gpu_preference = if cosmic {
        if context < gpus {
            GpuPreference::SpecificIdx(context)
        } else if e.prefers_non_default_gpu {
            GpuPreference::NonDefault
        } else {
            GpuPreference::Default
        }
    } else if !e.prefers_non_default_gpu {
        GpuPreference::NonDefault
    } else {
        GpuPreference::Default
    };
    let action_name = if cosmic && context >= gpus {
        Some(e.actions[(context - gpus) as usize].clone())
    } else {
        None
    };
    PluginResponse::DesktopEntry { path: e.path.clone(), gpu_preference, action_name }
}

/// The context options outside COSMIC: when the system has switchable graphics, launching on
/// the card that the entry does not prefer.
pub fn gnome_context(e: &EntryInfo, has_gpus: bool) -> (r: Vec<ContextOption>)
    ensures
        !has_gpus ==> r@.len() == 0,
        has_gpus ==> r@.len() == 1 && r@[0].id == 0 && r@[0].name@ == if e.prefers_non_default_gpu {
            "Launch Using Integrated Graphics Card"@
        } else {
            "Launch Using Discrete Graphics Card"@
        },
{
    if !has_gpus {
        return Vec::new();
    }
    let name = if e.prefers_non_default_gpu {
        "Launch Using Integrated Graphics Card".to_owned()
    } else {
        "Launch Using Discrete Graphics Card".to_owned()
    };
    vec![ContextOption { id: 0, name }]
}

/// The card that is marked as the default for entry `e`: the first card that is not the
/// system default when the entry prefers a non-default card, else the first default card; the
/// first card when there is no such card.
pub open spec fn default_gpu_index(gpus: Seq<GpuInfo>, prefers_non_default: bool) -> int {
    if exists|i: int| 0 <= i < gpus.len() && gpus[i].default != prefers_non_default {
        choose|i: int|
            0 <= i < gpus.len() && gpus[i].default != prefers_non_default && forall|j: int|
                0 <= j < i ==> gpus[j].default == prefers_non_default
    } else {
        0
    }
}

/// The name of the option that launches on card `g`.
pub open spec fn gpu_option_name(g: GpuInfo, is_default: bool) -> Seq<char> {
    "Launch using "@ + g.name@ + if is_default {
        " (default)"@
    } else {
        Seq::<char>::empty()
    }
}

/// The context options on COSMIC: one per graphics card, by index, the default one marked;
/// then one per action of the entry.
pub fn cosmic_context(e: &EntryInfo, gpus: &Option<Vec<GpuInfo>>) -> (r: Vec<ContextOption>)
    requires
        match gpus {
            Some(g) => g@.len() + e.actions@.len() <= u32::MAX,
            None => e.actions@.len() <= u32::MAX,
        },
    ensures
        ({
            let gs = match gpus {
                Some(g) => g@,
                None => Seq::<GpuInfo>::empty(),
            };
            &&& r@.len() == gs.len() + e.actions@.len()
            &&& forall|i: int|
                0 <= i < gs.len() ==> (#[trigger] r@[i]).id == i && r@[i].name@ == gpu_option_name(
                    gs[i],
                    i == default_gpu_index(gs, e.prefers_non_default_gpu),
                )
            &&& forall|i: int|
                0 <= i < e.actions@.len() ==> (#[trigger] r@[gs.len() + i]).id == gs.len() + i && r@[gs.len()
                    + i].name == e.actions@[i]
        }),
{
    let mut options: Vec<ContextOption> = Vec::new();
    let ghost gs = match gpus {
        Some(g) => g@,
        None => Seq::<GpuInfo>::empty(),
    };
    let mut offset: usize = 0;
    match gpus {
        Some(g) => {
            let mut d: usize = 0;
            let mut found = false;
            let mut k: usize = 0;
            while k < g.len()
                invariant_except_break
                    !found,
                invariant
                    0 <= k <= g@.len(),
                    forall|j: int| 0 <= j < k ==> g@[j].default == e.prefers_non_default_gpu,
                ensures
                    found ==> k < g@.len() && g@[k as int].default != e.prefers_non_default_gpu,
                    !found ==> forall|j: int| 0 <= j < g@.len() ==> g@[j].default == e.prefers_non_default_gpu,
                decreases g@.len() - k,
            {
                if g[k].default != e.prefers_non_default_gpu {
                    found = true;
                    break;
                }
                k = k + 1;
            }
            if found {
                d = k;
                proof {
                    let c = choose|i: int|
                        0 <= i < g@.len() && g@[i].default != e.prefers_non_default_gpu && forall|j: int|
                            0 <= j < i ==> g@[j].default == e.prefers_non_default_gpu;
                    assert(0 <= k < g@.len() && g@[k as int].default != e.prefers_non_default_gpu && forall|j: int|
                        0 <= j < k ==> g@[j].default == e.prefers_non_default_gpu);
                    if c < k {
                        assert(g@[c].default == e.prefers_non_default_gpu);
                    }
                    if k < c {
                        assert(g@[k as int].default == e.prefers_non_default_gpu);
                    }
                }
            }
            proof {
                assert(d == default_gpu_index(gs, e.prefers_non_default_gpu));
            }
            let mut i: usize = 0;
            while i < g.len()
                invariant
                    gs == g@,
                    g@.len() + e.actions@.len() <= u32::MAX,
                    d == default_gpu_index(gs, e.prefers_non_default_gpu),
                    0 <= i <= g@.len(),
                    options@.len() == i,
                    forall|j: int|
                        0 <= j < i ==> (#[trigger] options@[j]).id == j && options@[j].name@ == gpu_option_name(
                            gs[j],
                            j == d,
                        ),
                decreases g@.len() - i,
            {
                let mut name = "Launch using ".to_owned();
                name.append(g[i].name.as_str());
                if i == d {
                    name.append(" (default)");
                }
                proof {
                    assert(name@ =~= gpu_option_name(gs[i as int], i == d));
                }
                options.push(ContextOption { id: i as u32, name });
                i = i + 1;
            }
            offset = g.len();
        },
        None => {},
    }
    let mut a: usize = 0;
    while a < e.actions.len()
        invariant
            offset == gs.len(),
            gs.len() + e.actions@.len() <= u32::MAX,
            0 <= a <= e.actions@.len(),
            options@.len() == offset + a,
            forall|j: int|
                0 <= j < gs.len() ==> (#[trigger] options@[j]).id == j && options@[j].name@ == gpu_option_name(
                    gs[j],
                    j == default_gpu_index(gs, e.prefers_non_default_gpu),
                ),
            forall|j: int|
                0 <= j < a ==> (#[trigger] options@[gs.len() + j]).id == gs.len() + j && options@[gs.len()
                    + j].name == e.actions@[j],
        decreases e.actions@.len() - a,
    {
        options.push(ContextOption { id: (offset + a) as u32, name: e.actions[a].clone() });
        a = a + 1;
    }
    options
}

/// The response to a request for the context options of the entry listed at `id`: none when
/// there is no option.
pub fn context_response(id: Indice, options: Vec<ContextOption>) -> (r: Option<PluginResponse>)
    ensures
        options@.len() == 0 ==> r is None,
        options@.len() > 0 ==> r == Some((PluginResponse::Context { id, options })),
{
    if options.len() == 0 {
        None
    } else {
        Some(PluginResponse::Context { id, options })
    }
}

/// Where a desktop entry is installed.
#[derive(Debug, Clone)]
pub enum EntrySource {
    Local,
    LocalDesktop,
    LocalFlatpak,
    LocalNix,
    Nix,
    System,
    SystemLocal,
    SystemFlatpak,
    SystemSnap,
    Other(String),
}

/// How the place where an entry is installed is named to the user.
pub open spec fn source_label(s: EntrySource) -> Seq<char> {
    match s {
        EntrySource::Local | EntrySource::LocalDesktop => "Local"@,
        EntrySource::LocalFlatpak => "Flatpak"@,
        EntrySource::LocalNix => "Nix"@,
        EntrySource::Nix => "Nix (System)"@,
        EntrySource::System => "System"@,
        EntrySource::SystemLocal => "Local (System)"@,
        EntrySource::SystemFlatpak => "Flatpak (System)"@,
        EntrySource::SystemSnap => "Snap (System)"@,
        EntrySource::Other(other) => other@,
    }
}

/// The name of the place where an entry is installed.
pub fn path_string(source: &EntrySource) -> (r: String)
    ensures
        r@ == source_label(*source),
{
    match source {
        EntrySource::Local | EntrySource::LocalDesktop => "Local".to_owned(),
        EntrySource::LocalFlatpak => "Flatpak".to_owned(),
        EntrySource::LocalNix => "Nix".to_owned(),
        EntrySource::Nix => "Nix (System)".to_owned(),
        EntrySource::System => "System".to_owned(),
        EntrySource::SystemLocal => "Local (System)".to_owned(),
        EntrySource::SystemFlatpak => "Flatpak (System)".to_owned(),
        EntrySource::SystemSnap => "Snap (System)".to_owned(),
        EntrySource::Other(other) => other.clone(),
    }
}

/// The description of an entry installed at `source` with the comment `comment`: where it is
/// installed, followed by ` - ` and the comment when there is one that is not empty.
pub open spec fn description_of(source: EntrySource, comment: Option<Seq<char>>) -> Seq<char> {
    match comment {
        Some(c) => if c.len() == 0 {
            source_label(source)
        } else {
            source_label(source) + " - "@ + c
        },
        None => source_label(source),
    }
}

/// A borrowed text as a sequence of characters.
pub open spec fn opt_str(o: Option<&str>) -> Option<Seq<char>> {
    match o {
        Some(s) => Some(s@),
        None => None,
    }
}

/// The description shown for an entry installed at `source` whose comment, for the preferred
/// locales, is `comment`.
pub fn get_description(source: &EntrySource, comment: Option<&str>) -> (r: String)
    ensures
        r@ == description_of(*source, opt_str(comment)),
{
    let mut r = path_string(source);
    match comment {
        Some(c) => {
            if c.unicode_len() > 0 {
                r.append(" - ");
                r.append(c);
            }
        },
        None => {},
    }
    r
}

/// The session is COSMIC: the current desktop, as `XDG_CURRENT_DESKTOP` names it, contains
/// `COSMIC`.
pub fn is_session_cosmic(current_desktop: Option<&str>) -> (b: bool)
    ensures
        b == (current_desktop matches Some(d) && contains_seq(d@, "COSMIC"@)),
{
    match current_desktop {
        Some(d) => contains(&chars_of(d), &chars_of("COSMIC")),
        None => false,
    }
}

/// The icon name with a leading `~/` expanded to the home directory, when there is one.
pub open spec fn expanded_icon(name: Seq<char>, home: Option<Seq<char>>) -> Seq<char> {
    if has_prefix(name, "~/"@) && home is Some {
        joined_path(home->0, name.subrange(2, name.len() as int))
    } else {
        name
    }
}

/// The files in `dir` that may hold the icon `name`: the name itself, and, when it has no
/// extension, the name with `.png`, `.svg` and `.xpm` appended.
pub open spec fn dir_candidates(dir: Seq<char>, name: Seq<char>) -> Seq<Seq<char>> {
    if contains_seq(name, "."@) {
        seq![joined_path(dir, name)]
    } else {
        seq![
            joined_path(dir, name),
            joined_path(dir, name + ".png"@),
            joined_path(dir, name + ".svg"@),
            joined_path(dir, name + ".xpm"@),
        ]
    }
}

/// The files that may hold the icon `name`, in the order they are tried: the name itself when
/// it is an absolute path, then the candidates in the user's icon directories under `home`,
/// then those in `/usr/share/pixmaps` and `/usr/local/share/pixmaps`.
pub open spec fn icon_candidate_list(name: Seq<char>, home: Option<Seq<char>>) -> Seq<Seq<char>> {
    let e = expanded_icon(name, home);
    let first = if is_absolute_path(e) { seq![e] } else { Seq::empty() };
    let local = match home {
        Some(h) => dir_candidates(joined_path(h, ".local/share/icons"@), name) + dir_candidates(
            joined_path(h, ".local/share/pixmaps"@),
            name,
        ) + dir_candidates(joined_path(h, ".icons"@), name),
        None => Seq::empty(),
    };
    first + local + dir_candidates("/usr/share/pixmaps"@, name) + dir_candidates("/usr/local/share/pixmaps"@, name)
}

/// Appends the candidates of `dir` for the icon `name`; `dotted` tells whether the name has
/// an extension.
fn push_dir_candidates(r: &mut Vec<String>, dir: &str, name: &str, dotted: bool)
    requires
        dotted == contains_seq(name@, "."@),
    ensures
        views(final(r)@) == views(old(r)@) + dir_candidates(dir@, name@),
{
    let ghost before = views(r@);
    r.push(join_path(dir, name));
    if !dotted {
        let mut png = name.to_owned();
        png.append(".png");
        r.push(join_path(dir, png.as_str()));
        let mut svg = name.to_owned();
        svg.append(".svg");
        r.push(join_path(dir, svg.as_str()));
        let mut xpm = name.to_owned();
        xpm.append(".xpm");
        r.push(join_path(dir, xpm.as_str()));
    }
    proof {
        assert(views(r@) =~= before + dir_candidates(dir@, name@));
    }
}

/// The files that may hold the icon `name`, in the order they are tried, `home` being the home
/// directory if it is known.
pub fn icon_candidates(name: &str, home: Option<&str>) -> (r: Vec<String>)
    ensures
        views(r@) == icon_candidate_list(name@, opt_str(home)),
{
    let mut r: Vec<String> = Vec::new();
    let expanded = match home {
        Some(h) => {
            if starts_with(name, "~/") {
                proof {
                    reveal_strlit("~/");
                }
                let cs = chars_of(name);
                join_path(h, string_of(&sub_chars(&cs, 2, cs.len())).as_str())
            } else {
                name.to_owned()
            }
        },
        None => name.to_owned(),
    };
    proof {
        assert(expanded@ == expanded_icon(name@, opt_str(home)));
    }
    if crate::text::is_absolute(expanded.as_str()) {
        r.push(expanded);
    }
    proof {
        assert(views(r@) =~= (if is_absolute_path(expanded_icon(name@, opt_str(home))) {
            seq![expanded_icon(name@, opt_str(home))]
        } else {
            Seq::empty()
        }));
    }
    let dotted = contains(&chars_of(name), &chars_of("."));
    match home {
        Some(h) => {
            push_dir_candidates(&mut r, join_path(h, ".local/share/icons").as_str(), name, dotted);
            push_dir_candidates(&mut r, join_path(h, ".local/share/pixmaps").as_str(), name, dotted);
            push_dir_candidates(&mut r, join_path(h, ".icons").as_str(), name, dotted);
        },
        None => {},
    }
    push_dir_candidates(&mut r, "/usr/share/pixmaps", name, dotted);
    push_dir_candidates(&mut r, "/usr/local/share/pixmaps", name, dotted);
    proof {
        assert(views(r@) =~= icon_candidate_list(name@, opt_str(home)));
    }
    r
}

/// The first position below `n` whose flag in `flags` is set, if any.
pub open spec fn first_set(flags: Seq<bool>, n: int) -> Option<int>
    decreases n,
{
    if n <= 0 {
        None
    } else {
        match first_set(flags, n - 1) {
            Some(i) => Some(i),
            None => if n - 1 < flags.len() && flags[n - 1] {
                Some(n - 1)
            } else {
                None
            },
        }
    }
}

/// The icon of a desktop entry whose `Icon` field is `name`, `exists[i]` telling whether the
/// `i`-th of its candidate files exists: the first candidate that exists, or else the name
/// itself, to be looked up in the icon theme. No icon when the field is absent or empty.
pub fn resolve_icon(name: Option<&str>, home: Option<&str>, exists: &Vec<bool>) -> (r: Option<IconSource>)
    ensures
        match name {
            None => r is None,
            Some(n) => if n@.len() == 0 {
                r is None
            } else {
                let cs = icon_candidate_list(n@, opt_str(home));
                match first_set(exists@, cs.len() as int) {
                    Some(i) => r matches Some(IconSource::Name(p)) && p@ == cs[i],
                    None => r matches Some(IconSource::Name(p)) && p@ == n@,
                }
            },
        },
{
    let n = match name {
        Some(n) => n,
        None => {
            return None;
        },
    };
    if n.unicode_len() == 0 {
        return None;
    }
    let candidates = icon_candidates(n, home);
    let ghost cs = icon_candidate_list(n@, opt_str(home));
    let mut i: usize = 0;
    while i < candidates.len()
        invariant
            views(candidates@) == cs,
            cs == icon_candidate_list(n@, opt_str(home)),
            name == Some(n),
            n@.len() > 0,
            0 <= i <= candidates@.len(),
            first_set(exists@, i as int) is None,
        decreases candidates@.len() - i,
    {
        if i < exists.len() && exists[i] {
            proof {
                assert(first_set(exists@, i + 1) == Some(i as int));
                lemma_first_set_stays(exists@, i as int + 1, cs.len() as int);
                assert(cs[i as int] == candidates@[i as int]@);
            }
            return Some(IconSource::Name(candidates[i].clone()));
        }
        i = i + 1;
    }
    Some(IconSource::Name(n.to_owned()))
}

/// Once a set flag is found below `m`, it is the first one below any larger bound.
proof fn lemma_first_set_stays(flags: Seq<bool>, m: int, n: int)
    requires
        m <= n,
        first_set(flags, m) is Some,
    ensures
        first_set(flags, n) == first_set(flags, m),
    decreases n - m,
{
    if m < n {
        lemma_first_set_stays(flags, m, n - 1);
    }
}

/// What the search shows of a listed entry, in the preferred locales.
#[derive(Debug, Clone)]
pub struct EntryResult {
    pub name: String,
    pub description: String,
    pub keywords: Option<Vec<String>>,
    pub icon: Option<String>,
    pub exec_command: Option<String>,
}

/// The positions of the first `n` entries whose flag in `matched` is set, in order.
pub open spec fn matched_positions(matched: Seq<bool>, n: int) -> Seq<int>
    decreases n,
{
    if n <= 0 {
        Seq::empty()
    } else if matched[n - 1] {
        matched_positions(matched, n - 1).push(n - 1)
    } else {
        matched_positions(matched, n - 1)
    }
}

/// `resp` shows the entry `e`, listed at position `id`.
pub open spec fn entry_response(resp: PluginResponse, e: EntryResult, id: int) -> bool {
    match resp {
        PluginResponse::Append(r) => {
            &&& r.id == id
            &&& r.name == e.name
            &&& r.description == e.description
            &&& (match (r.keywords, e.keywords) {
                (Some(a), Some(b)) => a@ == b@,
                (None, None) => true,
                _ => false,
            })
            &&& r.icon == (match e.icon {
                Some(i) => Some(IconSource::Name(i)),
                None => None,
            })
            &&& r.exec_command == e.exec_command
            &&& r.window is None
        },
        _ => false,
    }
}

/// A copy of a list of strings.
fn copy_strings(v: &Vec<String>) -> (r: Vec<String>)
    ensures
        r@ == v@,
{
    let mut r: Vec<String> = Vec::new();
    let mut i: usize = 0;
    while i < v.len()
        invariant
            0 <= i <= v@.len(),
            r@ == v@.subrange(0, i as int),
        decreases v@.len() - i,
    {
        r.push(v[i].clone());
        proof {
            assert(v@.subrange(0, i + 1) =~= v@.subrange(0, i as int).push(v@[i as int]));
        }
        i = i + 1;
    }
    proof {
        assert(v@.subrange(0, v@.len() as int) =~= v@);
    }
    r
}

/// Answers a search over the listed entries `entries`, `matched[i]` telling whether the
/// query matches the `i`-th well enough: each matched entry, numbered by position, then
/// `Finished`.
pub fn search_results(entries: &Vec<EntryResult>, matched: &Vec<bool>) -> (rs: Vec<PluginResponse>)
    requires
        matched@.len() == entries@.len(),
        entries@.len() <= u32::MAX,
    ensures
        ({
            let shown = matched_positions(matched@, entries@.len() as int);
            &&& rs@.len() == shown.len() + 1
            &&& forall|k: int| 0 <= k < shown.len() ==> entry_response(#[trigger] rs@[k], entries@[shown[k]], shown[k])
            &&& rs@.last() is Finished
        }),
{
    let mut rs: Vec<PluginResponse> = Vec::new();
    let mut i: usize = 0;
    while i < entries.len()
        invariant
            matched@.len() == entries@.len(),
            entries@.len() <= u32::MAX,
            0 <= i <= entries@.len(),
            rs@.len() == matched_positions(matched@, i as int).len(),
            forall|k: int| 0 <= k < rs@.len() ==> {
                let p = #[trigger] matched_positions(matched@, i as int)[k];
                entry_response(rs@[k], entries@[p], p)
            },
        decreases entries@.len() - i,
    {
        if matched[i] {
            let e = &entries[i];
            let keywords = match &e.keywords {
                Some(k) => Some(copy_strings(k)),
                None => None,
            };
            let icon = match &e.icon {
                Some(name) => Some(IconSource::Name(name.clone())),
                None => None,
            };
            rs.push(
                PluginResponse::Append(
                    crate::protocol::PluginSearchResult {
                        id: i as u32,
                        name: e.name.clone(),
                        description: e.description.clone(),
                        keywords,
                        icon,
                        exec_command: match &e.exec_command {
                            Some(x) => Some(x.clone()),
                            None => None,
                        },
                        window: None,
                    },
                ),
            );
        }
        i = i + 1;
    }
    let ghost before = rs@;
    rs.push(PluginResponse::Finished);
    proof {
        assert forall|k: int| 0 <= k < before.len() implies rs@[k] == before[k] by {}
    }
    rs
}

} // verus!
