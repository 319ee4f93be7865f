//! The launcher service: which plugins receive a query, how their answers are collected, and
//! which requests of the frontend reach which plugin.
//!
//! The service is a state machine. Each of its methods takes an event (a request of the
//! frontend, a response of a plugin) and returns what has to be sent where; the caller performs
//! the sends and reports back where the outcome matters.
use crate::pattern::{pattern_is_match, regex_is_match};
use crate::plugin_config::PluginConfig;
use crate::priority::{is_stable_order, sort_by_priority, Priority};
use crate::protocol::{
    ContextOption, IconSource, Indice, PluginResponse, PluginSearchResult, Request, Response,
    SearchResult,
};
use crate::recent::RecentUseStorage;
use slab::Slab;
use std::collections::{HashMap, HashSet};
use vstd::prelude::*;
use vstd::string::StrSliceExecFns;

verus! {

broadcast use vstd::std_specs::hash::group_hash_axioms;

/// The key of a registered plugin.
pub type PluginKey = usize;

/// Stores all information relevant for communicating with a plugin.
#[derive(Debug)]
pub struct PluginConnector {
    /// The configuration of this plugin.
    pub config: PluginConfig,
}

/// The help text of a plugin.
#[derive(Debug, Clone)]
pub struct PluginHelp {
    pub name: String,
    pub description: String,
    pub help: Option<String>,
}

impl PluginConnector {
    /// The help text of this plugin: its name, its description (empty if it has none), and the
    /// query that it answers.
    pub fn details(&self) -> (h: PluginHelp)
        ensures
            h.name == self.config.name,
            h.description@ == match self.config.description {
                Some(d) => d@,
                None => Seq::<char>::empty(),
            },
            h.help == self.config.generic_query,
    {
        PluginHelp {
            name: self.config.name.clone(),
            description: match &self.config.description {
                Some(d) => d.clone(),
                None => String::new(),
            },
            help: match &self.config.generic_query {
                Some(g) => Some(g.clone()),
                None => None,
            },
        }
    }
}

/// A slab of registered plugins.
#[verifier::external_type_specification]
#[verifier::external_body]
#[verifier::reject_recursive_types(T)]
pub struct ExSlab<T>(Slab<T>);

/// The plugins that a slab holds, by key.
pub uninterp spec fn plugin_table(s: Slab<PluginConnector>) -> Map<usize, PluginConnector>;

/// The slab holds no vacant entry: nothing was taken out of it, or every key taken out was
/// filled again.
pub uninterp spec fn plugin_table_compact(s: Slab<PluginConnector>) -> bool;

/// `slab::Slab::new`: an empty slab.
#[verifier::external_body]
fn plugin_table_new() -> (fresh: Slab<PluginConnector>)
    ensures
        plugin_table(fresh).dom().is_empty(),
        plugin_table_compact(fresh),
{
    Slab::new()
}

/// `slab::Slab::insert`: stores a value under a key that was vacant, and returns that key.
/// A slab without vacant entries hands out the key after its last entry, which is its number
/// of values, and stays without vacant entries.
#[verifier::external_body]
fn plugin_table_insert(s: &mut Slab<PluginConnector>, v: PluginConnector) -> (k: usize)
    ensures
        !plugin_table(*old(s)).contains_key(k),
        plugin_table(*final(s)) == plugin_table(*old(s)).insert(k, v),
        plugin_table_compact(*old(s)) ==> k == plugin_table(*old(s)).dom().len() && plugin_table_compact(*final(s)),
{
    s.insert(v)
}

/// `slab::Slab::get`: the value stored under a key, if any.
#[verifier::external_body]
fn plugin_table_get(s: &Slab<PluginConnector>, k: usize) -> (r: Option<&PluginConnector>)
    ensures
        match r {
            Some(v) => plugin_table(*s).contains_key(k) && *v == plugin_table(*s)[k],
            None => !plugin_table(*s).contains_key(k),
        },
{
    s.get(k)
}

/// `slab::Slab::try_remove`: takes out the value stored under a key, if any.
#[verifier::external_body]
fn plugin_table_remove(s: &mut Slab<PluginConnector>, k: usize) -> (r: Option<PluginConnector>)
    ensures
        plugin_table(*final(s)) == plugin_table(*old(s)).remove(k),
        match r {
            Some(v) => plugin_table(*old(s)).contains_key(k) && v == plugin_table(*old(s))[k],
            None => !plugin_table(*old(s)).contains_key(k),
        },
{
    s.try_remove(k)
}

/// `slab::Slab::iter`: the keys of the occupied entries, in increasing order.
#[verifier::external_body]
fn plugin_table_keys(s: &Slab<PluginConnector>) -> (ks: Vec<usize>)
    ensures
        ks@.to_set() == plugin_table(*s).dom(),
        forall|i: int, j: int| 0 <= i < j < ks@.len() ==> ks@[i] < ks@[j],
{
    s.iter().map(|(k, _)| k).collect()
}

/// `s` lists the members of `set` in increasing order.
pub open spec fn lists_ascending(s: Seq<usize>, set: Set<usize>) -> bool {
    &&& s.to_set() == set
    &&& forall|i: int, j: int| 0 <= i < j < s.len() ==> s[i] < s[j]
}

/// A plugin with configuration `c` receives the query `q`: its regex, if any, matches the query,
/// and an empty query only goes to plugins that want to be shown on empty queries.
pub open spec fn accepts(c: PluginConfig, q: Seq<char>) -> bool {
    &&& (c.regex matches Some(r) ==> regex_is_match(r@, q))
    &&& (q.len() == 0 ==> c.show_on_empty_query)
}

/// A plugin with configuration `c` is the only one to receive the query `q`.
pub open spec fn isolates(c: PluginConfig, q: Seq<char>) -> bool {
    ||| c.isolate
    ||| (c.isolate_with matches Some(r) && regex_is_match(r@, q))
}

/// The members of `ks` whose plugin accepts `q`.
pub open spec fn accepting(plugins: Map<usize, PluginConnector>, ks: Set<usize>, q: Seq<char>) -> Set<usize> {
    ks.filter(|k: usize| accepts(plugins[k].config, q))
}

/// A plugin that accepts `q` and isolates it.
pub open spec fn isolating(plugins: Map<usize, PluginConnector>, k: usize, q: Seq<char>) -> bool {
    plugins.contains_key(k) && accepts(plugins[k].config, q) && isolates(plugins[k].config, q)
}

/// `k` is the plugin of least key that isolates `q`.
pub open spec fn first_isolating(plugins: Map<usize, PluginConnector>, k: usize, q: Seq<char>) -> bool {
    &&& isolating(plugins, k, q)
    &&& forall|j: usize| j < k ==> !#[trigger] isolating(plugins, j, q)
}

/// A message for a plugin; `launch` tells that the plugin has to be started before it can
/// receive it.
#[derive(Debug)]
pub struct PluginMessage {
    pub plugin: PluginKey,
    pub request: Request,
    pub launch: bool,
}

/// What to do with a new search.
#[derive(Debug)]
pub enum SearchPlan {
    /// Plugins are still answering the previous query: interrupt these plugins, and search
    /// again once all of them are finished.
    Backoff { interrupt: Vec<PluginKey> },
    /// Send the query to these plugins; `isolated` tells that a single plugin claimed it.
    Dispatch { query: String, targets: Vec<PluginMessage>, isolated: bool },
}

/// What to do once a plugin reports that it is finished.
#[derive(Debug, Clone, Copy, PartialEq, Eq, Structural)]
pub enum FinishStep {
    /// Other plugins are still answering.
    Waiting,
    /// A search was scheduled meanwhile: search again with an empty query.
    SearchAgain,
    /// All answers are in: sort them and show them.
    ShowResults,
}

/// The number of bytes of the UTF-8 encoding of `s`.
pub open spec fn byte_len(s: Seq<char>) -> nat {
    vstd::utf8::encode_utf8(s).len()
}

/// The priority of a collected result whose relevance key is `value`; `None` when the plugin
/// that sent it is no longer registered.
pub open spec fn result_priority(
    plugins: Map<PluginKey, PluginConnector>,
    entry: (PluginKey, PluginSearchResult),
    value: u64,
) -> Option<Priority> {
    if plugins.contains_key(entry.0) {
        Some(
            Priority {
                plugin_priority: plugins[entry.0].config.priority,
                value,
                execlen: byte_len(entry.1.name@) as usize,
            },
        )
    } else {
        None
    }
}

/// The priorities of the collected results, given their relevance keys.
pub open spec fn priorities(
    plugins: Map<PluginKey, PluginConnector>,
    active: Seq<(PluginKey, PluginSearchResult)>,
    values: Seq<u64>,
) -> Seq<Option<Priority>> {
    Seq::new(active.len(), |i: int| result_priority(plugins, active[i], values[i]))
}

/// The query asks for paths: it starts with `/` or `~`.
pub open spec fn path_query(q: Seq<char>) -> bool {
    q.len() > 0 && (q[0] == '/' || q[0] == '~')
}

/// How many of `n` collected results are shown for the query `q`: at most 100 for a path query,
/// at most 8 otherwise.
pub open spec fn shown_count(q: Seq<char>, n: nat) -> nat {
    let limit: nat = if path_query(q) { 100 } else { 8 };
    if n < limit { n } else { limit }
}

/// The icon of the plugin `k`, if it is registered and has one.
pub open spec fn category_icon(plugins: Map<PluginKey, PluginConnector>, k: PluginKey) -> Option<IconSource> {
    if plugins.contains_key(k) {
        match plugins[k].config.icon {
            Some(i) => Some(IconSource::Name(i)),
            None => None,
        }
    } else {
        None
    }
}

/// The collected result `entry`, shown at position `pos`.
pub open spec fn shown_result(
    plugins: Map<PluginKey, PluginConnector>,
    entry: (PluginKey, PluginSearchResult),
    pos: int,
) -> SearchResult {
    SearchResult {
        id: pos as u32,
        name: entry.1.name,
        description: entry.1.description,
        icon: entry.1.icon,
        category_icon: category_icon(plugins, entry.0),
        window: entry.1.window,
    }
}

/// The first `n` collected results, as shown.
pub open spec fn shown_results(
    plugins: Map<PluginKey, PluginConnector>,
    active: Seq<(PluginKey, PluginSearchResult)>,
    n: nat,
) -> Seq<SearchResult> {
    Seq::new(n, |j: int| shown_result(plugins, active[j], j))
}

/// The results of `s` that refer to windows, in order.
pub open spec fn windows_of(s: Seq<SearchResult>) -> Seq<SearchResult> {
    s.filter(|r: SearchResult| r.window is Some)
}

/// The results of `s` that do not refer to windows, in order.
pub open spec fn others_of(s: Seq<SearchResult>) -> Seq<SearchResult> {
    s.filter(|r: SearchResult| r.window is None)
}

/// `s` with the results that refer to windows first, each part in its order.
pub open spec fn windows_first(s: Seq<SearchResult>) -> Seq<SearchResult> {
    windows_of(s) + others_of(s)
}

/// Appending a result appends it to the part it belongs to.
pub proof fn lemma_parts_push(s: Seq<SearchResult>, r: SearchResult)
    ensures
        windows_of(s.push(r)) == if r.window is Some { windows_of(s).push(r) } else { windows_of(s) },
        others_of(s.push(r)) == if r.window is None { others_of(s).push(r) } else { others_of(s) },
{
    reveal(Seq::filter);
    assert(s.push(r).drop_last() =~= s);
}

/// Putting the windows first keeps every result: the two parts hold as many as `s`.
pub proof fn lemma_windows_first_len(s: Seq<SearchResult>)
    ensures
        windows_first(s).len() == s.len(),
    decreases s.len(),
{
    if s.len() == 0 {
        reveal(Seq::filter);
        assert(windows_of(s).len() == 0);
        assert(others_of(s).len() == 0);
    } else {
        lemma_windows_first_len(s.drop_last());
        lemma_parts_push(s.drop_last(), s.last());
        assert(s.drop_last().push(s.last()) =~= s);
    }
}

/// Law: the results shown for a query that starts with `/` or `~` are the first 100 collected,
/// or all of them when fewer were collected; for any other query, the first 8, or all of them.
pub proof fn law_shown_result_limit(
    plugins: Map<PluginKey, PluginConnector>,
    active: Seq<(PluginKey, PluginSearchResult)>,
    q: Seq<char>,
    shown: Seq<SearchResult>,
)
    requires
        shown == windows_first(shown_results(plugins, active, shown_count(q, active.len()))),
    ensures
        q.len() > 0 && q[0] == '/' ==> shown.len() == if active.len() < 100 { active.len() } else { 100 },
        q.len() > 0 && q[0] == '~' ==> shown.len() == if active.len() < 100 { active.len() } else { 100 },
        !(q.len() > 0 && (q[0] == '/' || q[0] == '~')) ==> shown.len() == if active.len() < 8 {
            active.len()
        } else {
            8
        },
{
    lemma_windows_first_len(shown_results(plugins, active, shown_count(q, active.len())));
}

/// For each identifier of the first `n` collected results, its position; a later result takes
/// the place of an earlier one with the same identifier.
pub open spec fn positions(active: Seq<(PluginKey, PluginSearchResult)>, n: nat) -> Map<Indice, Indice>
    decreases n,
{
    if n == 0 {
        Map::empty()
    } else {
        positions(active, (n - 1) as nat).insert(active[n - 1].1.id, (n - 1) as u32)
    }
}

/// The collected result at position `id`, if there is one and its plugin is registered.
pub open spec fn result_at(
    active: Seq<(PluginKey, PluginSearchResult)>,
    plugins: Map<PluginKey, PluginConnector>,
    id: int,
) -> Option<(PluginKey, PluginSearchResult)> {
    if 0 <= id < active.len() && plugins.contains_key(active[id].0) {
        Some(active[id])
    } else {
        None
    }
}

/// What the service does about a response of a plugin.
#[derive(Debug)]
pub enum PluginEventAction {
    /// Nothing is sent.
    Nothing,
    /// Send this response to the frontend.
    Respond(Response),
    /// The plugin finished answering: take the step; if `deactivate`, remove the plugin once
    /// the step is taken.
    Finished { step: FinishStep, deactivate: bool },
}

/// What the service does about a request of the frontend.
#[derive(Debug)]
pub enum RequestAction {
    /// Carry out this search plan.
    Search(SearchPlan),
    /// Send an interrupt to these plugins.
    Interrupt(Vec<PluginKey>),
    /// Send the message of this activation, if any, and store the remembered activations if
    /// the activation was remembered.
    Activated(Activation),
    /// Send this message, if any.
    Forward(Option<PluginMessage>),
    /// Send these exit requests, then stop the service.
    Exit(Vec<PluginMessage>),
    /// The service does not handle this request.
    Ignored,
}

/// The state of the launcher service.
pub struct Service {
    active_search: Vec<(PluginKey, PluginSearchResult)>,
    associated_list: HashMap<Indice, Indice>,
    awaiting_results: HashSet<PluginKey>,
    last_query: String,
    no_sort: bool,
    plugins: Slab<PluginConnector>,
    search_scheduled: bool,
    recent: RecentUseStorage,
    running: HashSet<PluginKey>,
}

/// `after` and `plan` are the state and the plan once `before` starts a search for `query`.
pub open spec fn searched(before: Service, after: Service, query: Seq<char>, plan: SearchPlan) -> bool {
    &&& after.associated() == before.associated()
    &&& after.plugins() == before.plugins()
    &&& after.recent() == before.recent()
    &&& after.awaiting() == before.awaiting()
    &&& after.no_sort() == before.no_sort()
    &&& !before.awaiting().is_empty() ==> {
        &&& after.active() == before.active()
        &&& after.running() == before.running()
        &&& after.search_scheduled()
        &&& after.last_query() == query
        &&& plan matches SearchPlan::Backoff { interrupt } && if before.search_scheduled() {
            interrupt@.len() == 0
        } else {
            lists_ascending(interrupt@, before.plugins().dom().intersect(before.running()))
        }
    }
    &&& before.awaiting().is_empty() ==> {
        let q = after.last_query();
        &&& after.active().len() == 0
        &&& !after.search_scheduled()
        &&& q == if before.search_scheduled() { before.last_query() } else { query }
        &&& plan matches SearchPlan::Dispatch { query: sent, targets, isolated } && {
            &&& sent@ == q
            &&& forall|i: int| 0 <= i < targets@.len() ==> {
                &&& (#[trigger] targets@[i]).request matches Request::Search(sq) && sq@ == q
                &&& targets@[i].launch == !before.running().contains(targets@[i].plugin)
            }
            &&& after.running() == before.running().union(
                targets@.map_values(|m: PluginMessage| m.plugin).to_set(),
            )
            &&& isolated == exists|k: usize| first_isolating(before.plugins(), k, q)
            &&& isolated ==> targets@.len() == 1 && first_isolating(
                before.plugins(),
                targets@[0].plugin,
                q,
            )
            &&& !isolated ==> lists_ascending(
                targets@.map_values(|m: PluginMessage| m.plugin),
                accepting(before.plugins(), before.plugins().dom(), q),
            )
        }
    }
}

/// `m` forwards the request `request` makes of the plugin's own identifier to the plugin of the
/// result shown at position `id`, which is started first unless it is running; without such a
/// result nothing is sent.
pub open spec fn forwarded(
    before: Service,
    after: Service,
    id: Indice,
    request: spec_fn(Indice) -> Request,
    m: Option<PluginMessage>,
) -> bool {
    match result_at(before.active(), before.plugins(), id as int) {
        Some(e) => {
            &&& m == Some(
                PluginMessage {
                    plugin: e.0,
                    request: request(e.1.id),
                    launch: !before.running().contains(e.0),
                },
            )
            &&& after.running() == before.running().insert(e.0)
        },
        None => m is None && after.running() == before.running(),
    }
}

/// The activation of the result shown at position `id` is remembered, exactly when that result
/// exists and carries a command (`remembered`).
pub open spec fn remembers(before: Service, after: Service, id: Indice, remembered: bool) -> bool {
    match result_at(before.active(), before.plugins(), id as int) {
        Some(e) => match e.1.spec_cache_identifier() {
            Some(x) => remembered && before.recent().records_add(x, after.recent()),
            None => !remembered && after.recent() == before.recent(),
        },
        None => !remembered && after.recent() == before.recent(),
    }
}

/// Everything but the running plugins and the remembered activations stays as it was.
pub open spec fn same_search(before: Service, after: Service) -> bool {
    &&& after.active() == before.active()
    &&& after.associated() == before.associated()
    &&& after.awaiting() == before.awaiting()
    &&& after.last_query() == before.last_query()
    &&& after.no_sort() == before.no_sort()
    &&& after.plugins() == before.plugins()
    &&& after.search_scheduled() == before.search_scheduled()
}

/// `after` and `step` are the state and the next step once plugin `plugin` of `before`
/// finished answering.
pub open spec fn finishes(before: Service, after: Service, plugin: PluginKey, step: FinishStep) -> bool {
    &&& after.awaiting() == before.awaiting().remove(plugin)
    &&& step == if !after.awaiting().is_empty() {
        FinishStep::Waiting
    } else if before.search_scheduled() {
        FinishStep::SearchAgain
    } else {
        FinishStep::ShowResults
    }
    &&& after.active() == before.active()
    &&& after.associated() == before.associated()
    &&& after.last_query() == before.last_query()
    &&& after.no_sort() == before.no_sort()
    &&& after.plugins() == before.plugins()
    &&& after.search_scheduled() == before.search_scheduled()
    &&& after.recent() == before.recent()
    &&& after.running() == before.running()
}

/// `ms` asks every plugin of `before` to exit, in increasing order of key, starting those that
/// are not running; all of them count as running in `after`.
pub open spec fn exits(before: Service, after: Service, ms: Seq<PluginMessage>) -> bool {
    &&& same_search(before, after)
    &&& after.recent() == before.recent()
    &&& lists_ascending(ms.map_values(|m: PluginMessage| m.plugin), before.plugins().dom())
    &&& forall|i: int| 0 <= i < ms.len() ==> {
        &&& (#[trigger] ms[i]).request == Request::Exit
        &&& ms[i].launch == !before.running().contains(ms[i].plugin)
    }
    &&& after.running() == before.running().union(before.plugins().dom())
}

/// What an activation sends, and whether it was remembered.
#[derive(Debug)]
pub struct Activation {
    pub message: Option<PluginMessage>,
    pub remembered: bool,
}

impl Service {
    /// The results collected for the current search, with the plugins that sent them.
    pub closed spec fn active(&self) -> Seq<(PluginKey, PluginSearchResult)> {
        self.active_search@
    }

    /// For each identifier of a shown result, its position in the shown list.
    pub closed spec fn associated(&self) -> Map<Indice, Indice> {
        self.associated_list@
    }

    /// The plugins that have not yet finished answering the current search.
    pub closed spec fn awaiting(&self) -> Set<PluginKey> {
        self.awaiting_results@
    }

    /// The query of the current search.
    pub closed spec fn last_query(&self) -> Seq<char> {
        self.last_query@
    }

    /// The results of the current search are shown in the order the plugin sent them.
    pub closed spec fn no_sort(&self) -> bool {
        self.no_sort
    }

    /// The registered plugins, by key.
    pub closed spec fn plugins(&self) -> Map<PluginKey, PluginConnector> {
        plugin_table(self.plugins)
    }

    /// A search arrived while plugins were still answering, and waits for them.
    pub closed spec fn search_scheduled(&self) -> bool {
        self.search_scheduled
    }

    /// The storage of recently activated results.
    pub closed spec fn recent(&self) -> RecentUseStorage {
        self.recent
    }

    /// The plugins that are running and can receive messages.
    pub closed spec fn running(&self) -> Set<PluginKey> {
        self.running@
    }

    /// No plugin was removed since the plugins were registered, or each key removed was given
    /// out again: the next plugin registered gets the key after all others.
    pub closed spec fn plugins_compact(&self) -> bool {
        plugin_table_compact(self.plugins)
    }

    /// The service is well formed.
    pub open spec fn wf(&self) -> bool {
        &&& self.recent().wf()
        &&& self.plugins().dom().finite()
    }

    /// A service with no plugin and no search, remembering `recent`.
    pub fn new(recent: RecentUseStorage) -> (s: Service)
        requires
            recent.wf(),
        ensures
            s.wf(),
            s.active() == Seq::<(PluginKey, PluginSearchResult)>::empty(),
            s.associated() == Map::<Indice, Indice>::empty(),
            s.awaiting() == Set::<PluginKey>::empty(),
            s.last_query() == Seq::<char>::empty(),
            !s.no_sort(),
            s.plugins() == Map::<PluginKey, PluginConnector>::empty(),
            s.plugins_compact(),
            !s.search_scheduled(),
            s.recent() == recent,
            s.running() == Set::<PluginKey>::empty(),
    {
        let plugins = plugin_table_new();
        proof {
            assert(plugin_table(plugins) =~= Map::<PluginKey, PluginConnector>::empty());
        }
        Service {
            active_search: Vec::new(),
            associated_list: HashMap::new(),
            awaiting_results: HashSet::new(),
            last_query: String::new(),
            no_sort: false,
            plugins,
            search_scheduled: false,
            recent,
            running: HashSet::new(),
        }
    }

    /// The storage of recently activated results.
    pub fn recent_storage(&self) -> (r: &RecentUseStorage)
        ensures
            *r == self.recent(),
    {
        &self.recent
    }

    /// The query of the current search.
    pub fn query(&self) -> (q: &str)
        ensures
            q@ == self.last_query(),
    {
        self.last_query.as_str()
    }

    /// The results collected for the current search, with the plugins that sent them.
    pub fn results(&self) -> (r: &Vec<(PluginKey, PluginSearchResult)>)
        ensures
            r@ == self.active(),
    {
        &self.active_search
    }

    /// The configuration of a registered plugin.
    pub fn plugin_config(&self, key: PluginKey) -> (r: Option<&PluginConfig>)
        ensures
            match r {
                Some(c) => self.plugins().contains_key(key) && *c == self.plugins()[key].config,
                None => !self.plugins().contains_key(key),
            },
    {
        match plugin_table_get(&self.plugins, key) {
            Some(p) => Some(&p.config),
            None => None,
        }
    }

    /// The keys of the registered plugins, in increasing order.
    pub fn plugin_keys(&self) -> (ks: Vec<PluginKey>)
        ensures
            lists_ascending(ks@, self.plugins().dom()),
    {
        plugin_table_keys(&self.plugins)
    }

    /// Registers a plugin under a new key, and returns that key.
    pub fn register_plugin(&mut self, config: PluginConfig) -> (k: PluginKey)
        requires
            old(self).wf(),
        ensures
            final(self).wf(),
            !old(self).plugins().contains_key(k),
            final(self).plugins() == old(self).plugins().insert(k, PluginConnector { config }),
            old(self).plugins_compact() ==> k == old(self).plugins().dom().len() && final(self).plugins_compact(),
            final(self).active() == old(self).active(),
            final(self).associated() == old(self).associated(),
            final(self).awaiting() == old(self).awaiting(),
            final(self).last_query() == old(self).last_query(),
            final(self).no_sort() == old(self).no_sort(),
            final(self).search_scheduled() == old(self).search_scheduled(),
            final(self).recent() == old(self).recent(),
            final(self).running() == old(self).running(),
    {
        plugin_table_insert(&mut self.plugins, PluginConnector { config })
    }

    /// Whether a plugin of the given name is registered.
    pub fn has_plugin_named(&self, name: &String) -> (b: bool)
        ensures
            b == exists|k: PluginKey| #[trigger]
                self.plugins().contains_key(k) && self.plugins()[k].config.name@ == name@,
    {
        let keys = plugin_table_keys(&self.plugins);
        let mut i: usize = 0;
        while i < keys.len()
            invariant
                keys@.to_set() == self.plugins().dom(),
                0 <= i <= keys@.len(),
                forall|j: int| 0 <= j < i ==> self.plugins()[#[trigger] keys@[j]].config.name@ != name@,
            decreases keys@.len() - i,
        {
            let k = keys[i];
            proof {
                assert(keys@.to_set().contains(k));
            }
            let p = plugin_table_get(&self.plugins, k).unwrap();
            if p.config.name == *name {
                return true;
            }
            i = i + 1;
        }
        proof {
            assert forall|k: PluginKey| #[trigger] self.plugins().contains_key(k) implies self.plugins()[k].config.name@ != name@ by {
                assert(keys@.to_set().contains(k));
                let j = choose|j: int| 0 <= j < keys@.len() && keys@[j] == k;
            }
        }
        false
    }

    /// Registers a plugin found on disk, unless a plugin of the same name is registered
    /// already: plugins found first override those found later.
    pub fn load_plugin(&mut self, config: PluginConfig) -> (r: Option<PluginKey>)
        requires
            old(self).wf(),
        ensures
            final(self).wf(),
            match r {
                None => {
                    &&& *final(self) == *old(self)
                    &&& exists|k: PluginKey| #[trigger] old(self).plugins().contains_key(k)
                        && old(self).plugins()[k].config.name@ == config.name@
                },
                Some(k) => {
                    &&& !(exists|j: PluginKey| #[trigger] old(self).plugins().contains_key(j)
                        && old(self).plugins()[j].config.name@ == config.name@)
                    &&& !old(self).plugins().contains_key(k)
                    &&& final(self).plugins() == old(self).plugins().insert(k, PluginConnector { config })
                    &&& old(self).plugins_compact() ==> k == old(self).plugins().dom().len()
                        && final(self).plugins_compact()
                    &&& final(self).active() == old(self).active()
                    &&& final(self).awaiting() == old(self).awaiting()
                    &&& final(self).running() == old(self).running()
                    &&& final(self).recent() == old(self).recent()
                },
            },
    {
        if self.has_plugin_named(&config.name) {
            return None;
        }
        Some(self.register_plugin(config))
    }

    /// The plugins that are running, in increasing order of key: these receive an interrupt.
    pub fn interrupt(&self) -> (r: Vec<PluginKey>)
        ensures
            lists_ascending(r@, self.plugins().dom().intersect(self.running())),
    {
        let keys = plugin_table_keys(&self.plugins);
        let mut r: Vec<PluginKey> = Vec::new();
        let mut i: usize = 0;
        while i < keys.len()
            invariant
                lists_ascending(keys@, self.plugins().dom()),
                0 <= i <= keys@.len(),
                r@.to_set() == keys@.subrange(0, i as int).to_set().intersect(self.running()),
                forall|a: int, b: int| 0 <= a < b < r@.len() ==> r@[a] < r@[b],
                forall|a: int| 0 <= a < r@.len() ==> exists|j: int| 0 <= j < i && keys@[j] == #[trigger] r@[a],
            decreases keys@.len() - i,
        {
            let k = keys[i];
            let ghost old_r = r@;
            if self.running.contains(&k) {
                r.push(k);
            }
            proof {
                let s0 = keys@.subrange(0, i as int);
                let s1 = keys@.subrange(0, i + 1);
                assert(s1 =~= s0.push(k));
                assert forall|x: usize| r@.to_set().contains(x) <==> s1.to_set().intersect(self.running()).contains(x) by {
                    if r@.contains(x) {
                        let a = choose|a: int| 0 <= a < r@.len() && r@[a] == x;
                        if a < old_r.len() {
                            assert(old_r[a] == x);
                            assert(old_r.to_set().contains(x));
                            let t = choose|t: int| 0 <= t < s0.len() && s0[t] == x;
                            assert(s1[t] == x);
                        } else {
                            assert(s1[i as int] == x);
                        }
                    }
                    if s1.contains(x) && self.running().contains(x) {
                        let t = choose|t: int| 0 <= t < s1.len() && s1[t] == x;
                        if t < i {
                            assert(s0[t] == x);
                            assert(old_r.to_set().contains(x));
                            let a = choose|a: int| 0 <= a < old_r.len() && old_r[a] == x;
                            assert(r@[a] == x);
                        } else {
                            assert(r@[r@.len() - 1] == x);
                        }
                    }
                }
                assert(r@.to_set() =~= s1.to_set().intersect(self.running()));
                assert forall|a: int| 0 <= a < r@.len() implies exists|j: int| 0 <= j < i + 1 && keys@[j] == #[trigger] r@[a] by {
                    if a < old_r.len() {
                        assert(r@[a] == old_r[a]);
                    } else {
                        assert(keys@[i as int] == r@[a]);
                    }
                }
                assert forall|a: int, b: int| 0 <= a < b < r@.len() implies r@[a] < r@[b] by {
                    if b == old_r.len() {
                        let j = choose|j: int| 0 <= j < i && keys@[j] == #[trigger] old_r[a];
                        assert(r@[a] == old_r[a]);
                    }
                }
            }
            i = i + 1;
        }
        proof {
            assert(keys@.subrange(0, keys@.len() as int) =~= keys@);
        }
        r
    }

    /// The message that sends `request` to plugin `k`, which is started first unless it is
    /// running already; the plugin counts as running afterwards.
    fn message(&mut self, k: PluginKey, request: Request) -> (m: PluginMessage)
        ensures
            m.plugin == k,
            m.request == request,
            m.launch == !old(self).running().contains(k),
            final(self).running() == old(self).running().insert(k),
            final(self).active() == old(self).active(),
            final(self).associated() == old(self).associated(),
            final(self).awaiting() == old(self).awaiting(),
            final(self).last_query() == old(self).last_query(),
            final(self).no_sort() == old(self).no_sort(),
            final(self).plugins() == old(self).plugins(),
            final(self).search_scheduled() == old(self).search_scheduled(),
            final(self).recent() == old(self).recent(),
    {
        let launch = self.running.insert(k);
        PluginMessage { plugin: k, request, launch }
    }

    /// Starts a search for `query`.
    ///
    /// While plugins are still answering a previous query, the search is postponed: the first
    /// time, running plugins are interrupted; each time, the query is remembered, so the newest
    /// one is searched once they are done. Otherwise the
    /// collected results are dropped and the query (or the postponed one) is sent either to the
    /// first plugin that isolates it, or to every plugin that accepts it.
    pub fn search(&mut self, query: String) -> (plan: SearchPlan)
        requires
            old(self).wf(),
        ensures
            final(self).wf(),
            searched(*old(self), *final(self), query@, plan),
    {
        if !self.awaiting_results.is_empty() {
            if !self.search_scheduled {
                let interrupt = self.interrupt();
                self.search_scheduled = true;
                self.last_query = query;
                return SearchPlan::Backoff { interrupt };
            }
            self.last_query = query;
            return SearchPlan::Backoff { interrupt: Vec::new() };
        }
        self.active_search.clear();
        if !self.search_scheduled {
            self.last_query = query;
        }
        self.search_scheduled = false;
        let ghost q = self.last_query@;
        let ghost plugins = self.plugins();
        let empty = self.last_query.as_str().is_empty();
        let keys = plugin_table_keys(&self.plugins);
        let mut queue: Vec<PluginKey> = Vec::new();
        let mut isolated: Option<PluginKey> = None;
        let mut i: usize = 0;
        proof {
            assert(queue@.to_set() =~= accepting(plugins, keys@.subrange(0, 0).to_set(), q));
        }
        while i < keys.len()
            invariant_except_break
                isolated is None,
            invariant
                q == self.last_query@,
                plugins == self.plugins(),
                empty == (q.len() == 0),
                lists_ascending(keys@, plugins.dom()),
                0 <= i <= keys@.len(),
                isolated is None ==> forall|j: int| 0 <= j < i ==> !isolating(plugins, #[trigger] keys@[j], q),
                isolated is None ==> lists_ascending(
                    queue@,
                    accepting(plugins, keys@.subrange(0, i as int).to_set(), q),
                ),
            ensures
                isolated matches Some(k) ==> first_isolating(plugins, k, q),
                isolated is None ==> i == keys@.len(),
            decreases keys@.len() - i,
        {
            let k = keys[i];
            proof {
                assert(keys@.to_set().contains(k));
            }
            let p = plugin_table_get(&self.plugins, k).unwrap();
            let ghost old_queue = queue@;
            let s0 = Ghost(keys@.subrange(0, i as int));
            let s1 = Ghost(keys@.subrange(0, i + 1));
            proof {
                assert(s1@ =~= s0@.push(k));
            }
            let mut accepted = true;
            match &p.config.regex {
                Some(re) => {
                    if !pattern_is_match(re, self.last_query.as_str()) {
                        accepted = false;
                    }
                },
                None => {},
            }
            if accepted && empty && !p.config.show_on_empty_query {
                accepted = false;
            }
            if accepted {
                let mut iso = p.config.isolate;
                if !iso {
                    match &p.config.isolate_with {
                        Some(re) => {
                            iso = pattern_is_match(re, self.last_query.as_str());
                        },
                        None => {},
                    }
                }
                if iso {
                    isolated = Some(k);
                    proof {
                        assert forall|j: usize| j < k implies !#[trigger] isolating(plugins, j, q) by {
                            if plugins.contains_key(j) {
                                assert(keys@.to_set().contains(j));
                                let t = choose|t: int| 0 <= t < keys@.len() && keys@[t] == j;
                                if t >= i {
                                    if t > i {
                                        assert(keys@[i as int] < keys@[t]);
                                    }
                                }
                            }
                        }
                    }
                    break;
                }
                queue.push(k);
            }
            proof {
                let f = |x: usize| accepts(plugins[x].config, q);
                assert forall|x: usize| queue@.to_set().contains(x) <==> accepting(plugins, s1@.to_set(), q).contains(x) by {
                    if queue@.contains(x) {
                        let a = choose|a: int| 0 <= a < queue@.len() && queue@[a] == x;
                        if a < old_queue.len() {
                            assert(old_queue[a] == x);
                            assert(old_queue.to_set().contains(x));
                            let t = choose|t: int| 0 <= t < s0@.len() && s0@[t] == x;
                            assert(s1@[t] == x);
                        } else {
                            assert(s1@[i as int] == x);
                        }
                    }
                    if s1@.contains(x) && f(x) {
                        let t = choose|t: int| 0 <= t < s1@.len() && s1@[t] == x;
                        if t < i {
                            assert(s0@[t] == x);
                            assert(accepting(plugins, s0@.to_set(), q).contains(x));
                            let a = choose|a: int| 0 <= a < old_queue.len() && old_queue[a] == x;
                            assert(queue@[a] == x);
                        } else {
                            assert(queue@[queue@.len() - 1] == x);
                        }
                    }
                }
                assert(queue@.to_set() =~= accepting(plugins, s1@.to_set(), q));
                assert forall|a: int, b: int| 0 <= a < b < queue@.len() implies queue@[a] < queue@[b] by {
                    if b == old_queue.len() {
                        assert(old_queue.to_set().contains(old_queue[a]));
                        let t = choose|t: int| 0 <= t < s0@.len() && s0@[t] == old_queue[a];
                        assert(queue@[a] == old_queue[a]);
                        assert(keys@[t] < keys@[i as int]);
                    }
                }
            }
            i = i + 1;
        }
        proof {
            if isolated is None {
                assert(keys@.subrange(0, keys@.len() as int) =~= keys@);
                assert forall|k: usize| !#[trigger] isolating(plugins, k, q) by {
                    if plugins.contains_key(k) {
                        assert(keys@.to_set().contains(k));
                        let t = choose|t: int| 0 <= t < keys@.len() && keys@[t] == k;
                    }
                }
                assert(queue@.to_set() == accepting(plugins, plugins.dom(), q));
            }
        }
        let mut targets: Vec<PluginMessage> = Vec::new();
        match isolated {
            Some(k) => {
                let request = Request::Search(self.last_query.clone());
                let m = self.message(k, request);
                targets.push(m);
                proof {
                    let ks = targets@.map_values(|m: PluginMessage| m.plugin);
                    assert(ks =~= Seq::<usize>::empty().push(k));
                    Seq::<usize>::empty().lemma_push_to_set_commute(k);
                    assert(Seq::<usize>::empty().to_set() =~= Set::<usize>::empty());
                    assert(ks.to_set() =~= set![k]);
                    assert(self.running() =~= old(self).running().union(set![k]));
                }
                SearchPlan::Dispatch { query: self.last_query.clone(), targets, isolated: true }
            },
            None => {
                let mut j: usize = 0;
                while j < queue.len()
                    invariant
                        0 <= j <= queue@.len(),
                        targets@.len() == j,
                        q == self.last_query@,
                        plugins == self.plugins(),
                        forall|a: int| 0 <= a < j ==> (#[trigger] targets@[a]).plugin == queue@[a],
                        forall|a: int| 0 <= a < j ==> {
                            &&& (#[trigger] targets@[a]).request matches Request::Search(sq) && sq@ == q
                            &&& targets@[a].launch == !old(self).running().contains(targets@[a].plugin)
                        },
                        self.running() == old(self).running().union(queue@.subrange(0, j as int).to_set()),
                        self.active().len() == 0,
                        !self.search_scheduled,
                        self.associated() == old(self).associated(),
                        self.recent() == old(self).recent(),
                        self.awaiting() == old(self).awaiting(),
                        self.no_sort() == old(self).no_sort(),
                        queue@.no_duplicates(),
                    decreases queue@.len() - j,
                {
                    let k = queue[j];
                    let request = Request::Search(self.last_query.clone());
                    let ghost before = self.running();
                    let m = self.message(k, request);
                    proof {
                        assert(!queue@.subrange(0, j as int).contains(k)) by {
                            if queue@.subrange(0, j as int).contains(k) {
                                let t = choose|t: int| 0 <= t < j && queue@.subrange(0, j as int)[t] == k;
                                assert(queue@[t] == queue@[j as int]);
                            }
                        }
                        assert(!before.contains(k) ==> !old(self).running().contains(k));
                        assert(old(self).running().contains(k) ==> before.contains(k));
                        assert(queue@.subrange(0, j + 1) =~= queue@.subrange(0, j as int).push(k));
                        queue@.subrange(0, j as int).lemma_push_to_set_commute(k);
                        assert(self.running() =~= old(self).running().union(queue@.subrange(0, j + 1).to_set()));
                        assert(m.launch == !old(self).running().contains(k));
                    }
                    targets.push(m);
                    j = j + 1;
                }
                proof {
                    assert(queue@.subrange(0, queue@.len() as int) =~= queue@);
                    assert(targets@.map_values(|m: PluginMessage| m.plugin) =~= queue@);
                }
                SearchPlan::Dispatch { query: self.last_query.clone(), targets, isolated: false }
            },
        }
    }

    /// Records that the query reached plugin `plugin`: the service now waits for it to finish.
    /// When a single plugin claimed the query, its results are shown unsorted if it asks so.
    /// Nothing changes for a plugin that is not registered.
    pub fn search_delivered(&mut self, plugin: PluginKey, isolated: bool)
        requires
            old(self).wf(),
        ensures
            final(self).wf(),
            old(self).plugins().contains_key(plugin) ==> {
                &&& final(self).awaiting() == old(self).awaiting().insert(plugin)
                &&& final(self).no_sort() == if isolated {
                    old(self).plugins()[plugin].config.no_sort
                } else {
                    old(self).no_sort()
                }
            },
            !old(self).plugins().contains_key(plugin) ==> {
                &&& final(self).awaiting() == old(self).awaiting()
                &&& final(self).no_sort() == old(self).no_sort()
            },
            final(self).active() == old(self).active(),
            final(self).associated() == old(self).associated(),
            final(self).last_query() == old(self).last_query(),
            final(self).plugins() == old(self).plugins(),
            final(self).search_scheduled() == old(self).search_scheduled(),
            final(self).recent() == old(self).recent(),
            final(self).running() == old(self).running(),
    {
        match plugin_table_get(&self.plugins, plugin) {
            Some(p) => {
                let no_sort = p.config.no_sort;
                self.awaiting_results.insert(plugin);
                if isolated {
                    self.no_sort = no_sort;
                }
            },
            None => {},
        }
    }

    /// Plugin `plugin` finished answering the current search.
    ///
    /// While other plugins are still answering, the service keeps waiting. Once none is left, a
    /// search that was postponed meanwhile is started (with an empty query, which keeps the
    /// postponed one), or else the collected results are sorted and shown.
    pub fn finished(&mut self, plugin: PluginKey) -> (step: FinishStep)
        requires
            old(self).wf(),
        ensures
            final(self).wf(),
            finishes(*old(self), *final(self), plugin, step),
    {
        self.awaiting_results.remove(&plugin);
        if !self.awaiting_results.is_empty() {
            return FinishStep::Waiting;
        }
        if self.search_scheduled {
            FinishStep::SearchAgain
        } else {
            FinishStep::ShowResults
        }
    }

    /// Orders the collected results and returns those to show.
    ///
    /// `relevance[i]` is the relevance key of the `i`-th collected result (how well it matches
    /// the query, and how recently and often it was activated). Unless the plugin that claimed
    /// the query asked for its own order, the results are sorted stably: results of plugins that
    /// are still registered first, then by plugin priority, by descending relevance and by
    /// descending length of the name. The first 8 (100 for a query that starts with `/` or `~`)
    /// are shown, numbered by their position, with those that refer to windows first.
    pub fn sort(&mut self, relevance: &Vec<u64>) -> (shown: Vec<SearchResult>)
        requires
            old(self).wf(),
            relevance@.len() == old(self).active().len(),
        ensures
            final(self).wf(),
            !final(self).no_sort(),
            old(self).no_sort() ==> final(self).active() == old(self).active(),
            !old(self).no_sort() ==> exists|perm: Seq<int>| {
                &&& is_stable_order(priorities(old(self).plugins(), old(self).active(), relevance@), perm)
                &&& final(self).active().len() == old(self).active().len()
                &&& forall|j: int| 0 <= j < final(self).active().len()
                    ==> final(self).active()[j] == old(self).active()[#[trigger] perm[j]]
            },
            final(self).associated() == positions(
                final(self).active(),
                shown_count(old(self).last_query(), old(self).active().len()),
            ),
            shown@ == windows_first(
                shown_results(
                    old(self).plugins(),
                    final(self).active(),
                    shown_count(old(self).last_query(), old(self).active().len()),
                ),
            ),
            old(self).last_query().len() > 0 && (old(self).last_query()[0] == '/' || old(self).last_query()[0] == '~')
                ==> shown@.len() == if old(self).active().len() < 100 { old(self).active().len() } else { 100 },
            !(old(self).last_query().len() > 0 && (old(self).last_query()[0] == '/' || old(self).last_query()[0] == '~'))
                ==> shown@.len() == if old(self).active().len() < 8 { old(self).active().len() } else { 8 },
            final(self).awaiting() == old(self).awaiting(),
            final(self).last_query() == old(self).last_query(),
            final(self).plugins() == old(self).plugins(),
            final(self).search_scheduled() == old(self).search_scheduled(),
            final(self).recent() == old(self).recent(),
            final(self).running() == old(self).running(),
    {
        let n = self.active_search.len();
        let ghost mut order: Seq<int> = Seq::empty();
        if self.no_sort {
            self.no_sort = false;
        } else {
            let mut prios: Vec<Option<Priority>> = Vec::new();
            let mut i: usize = 0;
            while i < n
                invariant
                    n == self.active_search@.len(),
                    relevance@.len() == n,
                    0 <= i <= n,
                    prios@.len() == i,
                    forall|j: int| 0 <= j < i ==> #[trigger] prios@[j] == priorities(
                        self.plugins(),
                        self.active_search@,
                        relevance@,
                    )[j],
                decreases n - i,
            {
                let entry = &self.active_search[i];
                let p = match plugin_table_get(&self.plugins, entry.0) {
                    Some(c) => Some(
                        Priority {
                            plugin_priority: c.config.priority,
                            value: relevance[i],
                            execlen: entry.1.name.as_str().len(),
                        },
                    ),
                    None => None,
                };
                prios.push(p);
                i = i + 1;
            }
            proof {
                assert(prios@ =~= priorities(self.plugins(), self.active_search@, relevance@));
            }
            let mut items: Vec<(PluginKey, PluginSearchResult)> = Vec::new();
            std::mem::swap(&mut items, &mut self.active_search);
            let (sorted, perm) = sort_by_priority(items, &prios);
            self.active_search = sorted;
            proof {
                order = perm@;
            }
        }
        let take: usize = if !self.last_query.as_str().is_empty() && (self.last_query.as_str().get_char(0) == '/'
            || self.last_query.as_str().get_char(0) == '~') {
            100
        } else {
            8
        };
        let count: usize = if n < take { n } else { take };
        proof {
            assert(count == shown_count(old(self).last_query(), old(self).active().len()));
        }
        self.associated_list.clear();
        let mut windows: Vec<SearchResult> = Vec::new();
        let mut others: Vec<SearchResult> = Vec::new();
        let ghost plugins = self.plugins();
        let ghost ordered = self.active_search@;
        proof {
            if !old(self).no_sort() {
                assert(is_stable_order(priorities(old(self).plugins(), old(self).active(), relevance@), order));
                assert(forall|a: int| 0 <= a < ordered.len()
                    ==> ordered[a] == old(self).active()[#[trigger] order[a]]);
            }
        }
        let mut j: usize = 0;
        while j < count
            invariant
                self.active_search@ == ordered,
                self.awaiting() == old(self).awaiting(),
                self.last_query() == old(self).last_query(),
                self.search_scheduled() == old(self).search_scheduled(),
                self.recent() == old(self).recent(),
                self.running() == old(self).running(),
                count <= n,
                count <= 100,
                n == self.active_search@.len(),
                plugins == self.plugins(),
                !self.no_sort,
                self.recent().wf(),
                self.plugins().dom().finite(),
                0 <= j <= count,
                self.associated_list@ == positions(self.active_search@, j as nat),
                windows@ == windows_of(shown_results(plugins, self.active_search@, j as nat)),
                others@ == others_of(shown_results(plugins, self.active_search@, j as nat)),
            decreases count - j,
        {
            let entry = &self.active_search[j];
            self.associated_list.insert(entry.1.id, j as u32);
            let category = match plugin_table_get(&self.plugins, entry.0) {
                Some(c) => match &c.config.icon {
                    Some(i) => Some(IconSource::Name(i.clone())),
                    None => None,
                },
                None => None,
            };
            let r = SearchResult {
                id: j as u32,
                name: entry.1.name.clone(),
                description: entry.1.description.clone(),
                icon: crate::protocol::duplicate_icon(&entry.1.icon),
                category_icon: category,
                window: entry.1.window,
            };
            proof {
                let prev = shown_results(plugins, self.active_search@, j as nat);
                assert(shown_results(plugins, self.active_search@, (j + 1) as nat) =~= prev.push(r));
                lemma_parts_push(prev, r);
            }
            if r.window.is_some() {
                windows.push(r);
            } else {
                others.push(r);
            }
            j = j + 1;
        }
        windows.append(&mut others);
        proof {
            lemma_windows_first_len(shown_results(plugins, self.active_search@, count as nat));
        }
        windows
    }


    /// The plugin, the plugin's own identifier and the cache identifier of the result shown at
    /// position `id`.
    fn target(&self, id: Indice) -> (r: Option<(PluginKey, Indice, Option<String>)>)
        ensures
            match result_at(self.active(), self.plugins(), id as int) {
                Some(e) => r matches Some(t) && t.0 == e.0 && t.1 == e.1.id && match t.2 {
                    Some(x) => e.1.spec_cache_identifier() == Some(x@),
                    None => e.1.spec_cache_identifier() is None,
                },
                None => r is None,
            },
    {
        let pos = id as usize;
        if pos >= self.active_search.len() {
            return None;
        }
        let entry = &self.active_search[pos];
        match plugin_table_get(&self.plugins, entry.0) {
            Some(_) => Some((entry.0, entry.1.id, entry.1.cache_identifier())),
            None => None,
        }
    }

    /// Remembers an activation of the command `exec`.
    fn remember(&mut self, exec: &Option<String>)
        requires
            old(self).wf(),
            old(self).recent().can_add(),
        ensures
            final(self).wf(),
            same_search(*old(self), *final(self)),
            final(self).running() == old(self).running(),
            match exec {
                Some(x) => old(self).recent().records_add(x@, final(self).recent()),
                None => final(self).recent() == old(self).recent(),
            },
    {
        match exec {
            Some(x) => self.recent.add(x.as_str()),
            None => {},
        }
    }

    /// Activates the result shown at position `id`: its plugin is asked to activate it, and the
    /// activation is remembered when the result carries a command.
    pub fn activate(&mut self, id: Indice) -> (a: Activation)
        requires
            old(self).wf(),
            old(self).recent().can_add(),
        ensures
            final(self).wf(),
            same_search(*old(self), *final(self)),
            forwarded(*old(self), *final(self), id, |i: Indice| Request::Activate(i), a.message),
            remembers(*old(self), *final(self), id, a.remembered),
    {
        match self.target(id) {
            Some((k, meta_id, ex)) => {
                let message = self.message(k, Request::Activate(meta_id));
                let remembered = ex.is_some();
                self.remember(&ex);
                Activation { message: Some(message), remembered }
            },
            None => Activation { message: None, remembered: false },
        }
    }

    /// Activates the context option `context` of the result shown at position `id`; the
    /// activation is remembered as by `activate`.
    pub fn activate_context(&mut self, id: Indice, context: Indice) -> (a: Activation)
        requires
            old(self).wf(),
            old(self).recent().can_add(),
        ensures
            final(self).wf(),
            same_search(*old(self), *final(self)),
            forwarded(
                *old(self),
                *final(self),
                id,
                |i: Indice| Request::ActivateContext { id: i, context },
                a.message,
            ),
            remembers(*old(self), *final(self), id, a.remembered),
    {
        match self.target(id) {
            Some((k, meta_id, ex)) => {
                let message = self.message(k, Request::ActivateContext { id: meta_id, context });
                let remembered = ex.is_some();
                self.remember(&ex);
                Activation { message: Some(message), remembered }
            },
            None => Activation { message: None, remembered: false },
        }
    }

    /// Asks the plugin of the result shown at position `id` to complete it.
    pub fn complete(&mut self, id: Indice) -> (m: Option<PluginMessage>)
        requires
            old(self).wf(),
        ensures
            final(self).wf(),
            same_search(*old(self), *final(self)),
            final(self).recent() == old(self).recent(),
            forwarded(*old(self), *final(self), id, |i: Indice| Request::Complete(i), m),
    {
        match self.target(id) {
            Some((k, meta_id, _)) => Some(self.message(k, Request::Complete(meta_id))),
            None => None,
        }
    }

    /// Asks the plugin of the result shown at position `id` for its context options.
    pub fn context(&mut self, id: Indice) -> (m: Option<PluginMessage>)
        requires
            old(self).wf(),
        ensures
            final(self).wf(),
            same_search(*old(self), *final(self)),
            final(self).recent() == old(self).recent(),
            forwarded(*old(self), *final(self), id, |i: Indice| Request::Context(i), m),
    {
        match self.target(id) {
            Some((k, meta_id, _)) => Some(self.message(k, Request::Context(meta_id))),
            None => None,
        }
    }

    /// Asks the plugin of the result shown at position `id` to close it.
    pub fn quit(&mut self, id: Indice) -> (m: Option<PluginMessage>)
        requires
            old(self).wf(),
        ensures
            final(self).wf(),
            same_search(*old(self), *final(self)),
            final(self).recent() == old(self).recent(),
            forwarded(*old(self), *final(self), id, |i: Indice| Request::Quit(i), m),
    {
        match self.target(id) {
            Some((k, meta_id, _)) => Some(self.message(k, Request::Quit(meta_id))),
            None => None,
        }
    }


    /// Asks every plugin to exit, in increasing order of key; plugins that are not running are
    /// started to receive the request.
    pub fn exit(&mut self) -> (ms: Vec<PluginMessage>)
        requires
            old(self).wf(),
        ensures
            final(self).wf(),
            exits(*old(self), *final(self), ms@),
    {
        let keys = plugin_table_keys(&self.plugins);
        let mut ms: Vec<PluginMessage> = Vec::new();
        let mut j: usize = 0;
        while j < keys.len()
            invariant
                lists_ascending(keys@, old(self).plugins().dom()),
                0 <= j <= keys@.len(),
                ms@.len() == j,
                self.wf(),
                same_search(*old(self), *self),
                self.recent() == old(self).recent(),
                forall|a: int| 0 <= a < j ==> (#[trigger] ms@[a]).plugin == keys@[a],
                forall|a: int| 0 <= a < j ==> {
                    &&& (#[trigger] ms@[a]).request == Request::Exit
                    &&& ms@[a].launch == !old(self).running().contains(ms@[a].plugin)
                },
                self.running() == old(self).running().union(keys@.subrange(0, j as int).to_set()),
            decreases keys@.len() - j,
        {
            let k = keys[j];
            let ghost before = self.running();
            let m = self.message(k, Request::Exit);
            proof {
                assert(!keys@.subrange(0, j as int).contains(k)) by {
                    if keys@.subrange(0, j as int).contains(k) {
                        let t = choose|t: int| 0 <= t < j && keys@.subrange(0, j as int)[t] == k;
                        assert(keys@[t] < keys@[j as int]);
                    }
                }
                assert(keys@.subrange(0, j + 1) =~= keys@.subrange(0, j as int).push(k));
                keys@.subrange(0, j as int).lemma_push_to_set_commute(k);
                assert(self.running() =~= old(self).running().union(keys@.subrange(0, j + 1).to_set()));
            }
            ms.push(m);
            j = j + 1;
        }
        proof {
            assert(keys@.subrange(0, keys@.len() as int) =~= keys@);
            assert(ms@.map_values(|m: PluginMessage| m.plugin) =~= keys@);
        }
        ms
    }

    /// The plugin `plugin` exited: it is no longer running, and is started again when it is
    /// next needed.
    pub fn plugin_exit(&mut self, plugin: PluginKey)
        requires
            old(self).wf(),
        ensures
            final(self).wf(),
            same_search(*old(self), *final(self)),
            final(self).recent() == old(self).recent(),
            final(self).running() == old(self).running().remove(plugin),
    {
        self.running.remove(&plugin);
    }

    /// Removes the registered plugin `plugin`, which is no longer running either.
    pub fn remove_plugin(&mut self, plugin: PluginKey)
        requires
            old(self).wf(),
            old(self).plugins().contains_key(plugin),
        ensures
            final(self).wf(),
            final(self).plugins() == old(self).plugins().remove(plugin),
            final(self).running() == old(self).running().remove(plugin),
            final(self).active() == old(self).active(),
            final(self).associated() == old(self).associated(),
            final(self).awaiting() == old(self).awaiting(),
            final(self).last_query() == old(self).last_query(),
            final(self).no_sort() == old(self).no_sort(),
            final(self).search_scheduled() == old(self).search_scheduled(),
            final(self).recent() == old(self).recent(),
    {
        let _ = plugin_table_remove(&mut self.plugins, plugin);
        self.running.remove(&plugin);
    }

    /// Collects a result that plugin `plugin` sent for the current search.
    pub fn append(&mut self, plugin: PluginKey, item: PluginSearchResult)
        requires
            old(self).wf(),
        ensures
            final(self).wf(),
            final(self).active() == old(self).active().push((plugin, item)),
            final(self).associated() == old(self).associated(),
            final(self).awaiting() == old(self).awaiting(),
            final(self).last_query() == old(self).last_query(),
            final(self).no_sort() == old(self).no_sort(),
            final(self).plugins() == old(self).plugins(),
            final(self).search_scheduled() == old(self).search_scheduled(),
            final(self).recent() == old(self).recent(),
            final(self).running() == old(self).running(),
    {
        self.active_search.push((plugin, item));
    }

    /// Drops the collected results.
    pub fn clear(&mut self)
        requires
            old(self).wf(),
        ensures
            final(self).wf(),
            final(self).active() == Seq::<(PluginKey, PluginSearchResult)>::empty(),
            final(self).associated() == old(self).associated(),
            final(self).awaiting() == old(self).awaiting(),
            final(self).last_query() == old(self).last_query(),
            final(self).no_sort() == old(self).no_sort(),
            final(self).plugins() == old(self).plugins(),
            final(self).search_scheduled() == old(self).search_scheduled(),
            final(self).recent() == old(self).recent(),
            final(self).running() == old(self).running(),
    {
        self.active_search.clear();
    }

    /// The context options that a plugin sent for its result `id`, addressed to the position at
    /// which that result is shown; nothing when it is not shown.
    pub fn context_response(&self, id: Indice, options: Vec<ContextOption>) -> (r: Option<Response>)
        ensures
            self.associated().contains_key(id) ==> r == Some(
                Response::Context { id: self.associated()[id], options },
            ),
            !self.associated().contains_key(id) ==> r is None,
    {
        match self.associated_list.get(&id) {
            Some(pos) => Some(Response::Context { id: *pos, options }),
            None => None,
        }
    }

    /// The help texts of the registered plugins, in increasing order of key.
    pub fn help_details(&self) -> (hs: Vec<PluginHelp>)
        ensures
            exists|keys: Seq<PluginKey>| {
                &&& lists_ascending(keys, self.plugins().dom())
                &&& hs@.len() == keys.len()
                &&& forall|i: int| 0 <= i < keys.len() ==> {
                    let c = self.plugins()[#[trigger] keys[i]].config;
                    &&& hs@[i].name == c.name
                    &&& hs@[i].description@ == match c.description {
                        Some(d) => d@,
                        None => Seq::<char>::empty(),
                    }
                    &&& hs@[i].help == c.generic_query
                }
            },
    {
        let keys = plugin_table_keys(&self.plugins);
        let mut hs: Vec<PluginHelp> = Vec::new();
        let mut j: usize = 0;
        while j < keys.len()
            invariant
                lists_ascending(keys@, self.plugins().dom()),
                0 <= j <= keys@.len(),
                hs@.len() == j,
                forall|i: int| 0 <= i < j ==> {
                    let c = self.plugins()[#[trigger] keys@[i]].config;
                    &&& hs@[i].name == c.name
                    &&& hs@[i].description@ == match c.description {
                        Some(d) => d@,
                        None => Seq::<char>::empty(),
                    }
                    &&& hs@[i].help == c.generic_query
                },
            decreases keys@.len() - j,
        {
            let k = keys[j];
            proof {
                assert(keys@.to_set().contains(k));
            }
            let p = plugin_table_get(&self.plugins, k).unwrap();
            hs.push(p.details());
            j = j + 1;
        }
        hs
    }


    /// Handles a request of the frontend.
    pub fn handle_request(&mut self, request: Request) -> (action: RequestAction)
        requires
            old(self).wf(),
            (request is Activate || request is ActivateContext) ==> old(self).recent().can_add(),
        ensures
            final(self).wf(),
            match request {
                Request::Search(q) => action matches RequestAction::Search(plan) && searched(
                    *old(self),
                    *final(self),
                    q@,
                    plan,
                ),
                Request::Interrupt => action matches RequestAction::Interrupt(ks) && lists_ascending(
                    ks@,
                    old(self).plugins().dom().intersect(old(self).running()),
                ) && *final(self) == *old(self),
                Request::Activate(id) => action matches RequestAction::Activated(a) && {
                    &&& same_search(*old(self), *final(self))
                    &&& forwarded(*old(self), *final(self), id, |i: Indice| Request::Activate(i), a.message)
                    &&& remembers(*old(self), *final(self), id, a.remembered)
                },
                Request::ActivateContext { id, context } => action matches RequestAction::Activated(a) && {
                    &&& same_search(*old(self), *final(self))
                    &&& forwarded(
                        *old(self),
                        *final(self),
                        id,
                        |i: Indice| Request::ActivateContext { id: i, context },
                        a.message,
                    )
                    &&& remembers(*old(self), *final(self), id, a.remembered)
                },
                Request::Complete(id) => action matches RequestAction::Forward(m) && {
                    &&& same_search(*old(self), *final(self))
                    &&& final(self).recent() == old(self).recent()
                    &&& forwarded(*old(self), *final(self), id, |i: Indice| Request::Complete(i), m)
                },
                Request::Context(id) => action matches RequestAction::Forward(m) && {
                    &&& same_search(*old(self), *final(self))
                    &&& final(self).recent() == old(self).recent()
                    &&& forwarded(*old(self), *final(self), id, |i: Indice| Request::Context(i), m)
                },
                Request::Quit(id) => action matches RequestAction::Forward(m) && {
                    &&& same_search(*old(self), *final(self))
                    &&& final(self).recent() == old(self).recent()
                    &&& forwarded(*old(self), *final(self), id, |i: Indice| Request::Quit(i), m)
                },
                Request::Exit => action matches RequestAction::Exit(ms) && exits(
                    *old(self),
                    *final(self),
                    ms@,
                ),
                _ => action is Ignored && *final(self) == *old(self),
            },
    {
        match request {
            Request::Search(query) => RequestAction::Search(self.search(query)),
            Request::Interrupt => RequestAction::Interrupt(self.interrupt()),
            Request::Activate(id) => RequestAction::Activated(self.activate(id)),
            Request::ActivateContext { id, context } => RequestAction::Activated(
                self.activate_context(id, context),
            ),
            Request::Complete(id) => RequestAction::Forward(self.complete(id)),
            Request::Context(id) => RequestAction::Forward(self.context(id)),
            Request::Quit(id) => RequestAction::Forward(self.quit(id)),
            Request::Exit => RequestAction::Exit(self.exit()),
            _ => RequestAction::Ignored,
        }
    }

    /// Handles a response of plugin `plugin`.
    pub fn handle_plugin_response(&mut self, plugin: PluginKey, response: PluginResponse) -> (action:
        PluginEventAction)
        requires
            old(self).wf(),
        ensures
            final(self).wf(),
            match response {
                PluginResponse::Append(item) => {
                    &&& action is Nothing
                    &&& final(self).active() == old(self).active().push((plugin, item))
                    &&& final(self).associated() == old(self).associated()
                    &&& final(self).awaiting() == old(self).awaiting()
                    &&& final(self).last_query() == old(self).last_query()
                    &&& final(self).no_sort() == old(self).no_sort()
                    &&& final(self).plugins() == old(self).plugins()
                    &&& final(self).search_scheduled() == old(self).search_scheduled()
                    &&& final(self).recent() == old(self).recent()
                    &&& final(self).running() == old(self).running()
                },
                PluginResponse::Clear => {
                    &&& action is Nothing
                    &&& final(self).active().len() == 0
                    &&& final(self).associated() == old(self).associated()
                    &&& final(self).awaiting() == old(self).awaiting()
                    &&& final(self).last_query() == old(self).last_query()
                    &&& final(self).no_sort() == old(self).no_sort()
                    &&& final(self).plugins() == old(self).plugins()
                    &&& final(self).search_scheduled() == old(self).search_scheduled()
                    &&& final(self).recent() == old(self).recent()
                    &&& final(self).running() == old(self).running()
                },
                PluginResponse::Close => action == PluginEventAction::Respond(Response::Close)
                    && *final(self) == *old(self),
                PluginResponse::Context { id, options } => {
                    &&& *final(self) == *old(self)
                    &&& old(self).associated().contains_key(id) ==> action == PluginEventAction::Respond(
                        Response::Context { id: old(self).associated()[id], options },
                    )
                    &&& !old(self).associated().contains_key(id) ==> action is Nothing
                },
                PluginResponse::DesktopEntry { path, gpu_preference, action_name } => {
                    &&& action == PluginEventAction::Respond(
                        Response::DesktopEntry { path, gpu_preference, action_name },
                    )
                    &&& *final(self) == *old(self)
                },
                PluginResponse::Fill(text) => action == PluginEventAction::Respond(Response::Fill(text))
                    && *final(self) == *old(self),
                PluginResponse::Finished => action matches PluginEventAction::Finished { step, deactivate }
                    && !deactivate && finishes(*old(self), *final(self), plugin, step),
                PluginResponse::Deactivate => action matches PluginEventAction::Finished { step, deactivate }
                    && deactivate && finishes(*old(self), *final(self), plugin, step),
            },
    {
        match response {
            PluginResponse::Append(item) => {
                self.append(plugin, item);
                PluginEventAction::Nothing
            },
            PluginResponse::Clear => {
                self.clear();
                PluginEventAction::Nothing
            },
            PluginResponse::Close => PluginEventAction::Respond(Response::Close),
            PluginResponse::Context { id, options } => match self.context_response(id, options) {
                Some(r) => PluginEventAction::Respond(r),
                None => PluginEventAction::Nothing,
            },
            PluginResponse::DesktopEntry { path, gpu_preference, action_name } => PluginEventAction::Respond(
                Response::DesktopEntry { path, gpu_preference, action_name },
            ),
            PluginResponse::Fill(text) => PluginEventAction::Respond(Response::Fill(text)),
            PluginResponse::Finished => PluginEventAction::Finished {
                step: self.finished(plugin),
                deactivate: false,
            },
            PluginResponse::Deactivate => PluginEventAction::Finished {
                step: self.finished(plugin),
                deactivate: true,
            },
        }
    }

}

} // verus!

verus! {

/// Law: plugins registered one after another, with none removed, get increasing keys; as the
/// plugins are searched in increasing order of key, they are searched in the order they were
/// registered, and a plugin registered last comes last.
pub proof fn law_registration_order(
    a: Service,
    b: Service,
    c: Service,
    k1: PluginKey,
    k2: PluginKey,
    c1: PluginConfig,
    c2: PluginConfig,
)
    requires
        a.wf(),
        a.plugins_compact(),
        !a.plugins().contains_key(k1),
        b.plugins() == a.plugins().insert(k1, PluginConnector { config: c1 }),
        a.plugins_compact() ==> k1 == a.plugins().dom().len() && b.plugins_compact(),
        !b.plugins().contains_key(k2),
        c.plugins() == b.plugins().insert(k2, PluginConnector { config: c2 }),
        b.plugins_compact() ==> k2 == b.plugins().dom().len() && c.plugins_compact(),
    ensures
        k1 < k2,
        c.plugins_compact(),
{
    assert(b.plugins().dom() == a.plugins().dom().insert(k1));
}

/// Law: removing a plugin that was just registered leaves the registered plugins as they were.
pub proof fn law_remove_undoes_register(plugins: Map<PluginKey, PluginConnector>, k: PluginKey, c: PluginConnector)
    requires
        !plugins.contains_key(k),
    ensures
        plugins.insert(k, c).remove(k) == plugins,
{
    assert(plugins.insert(k, c).remove(k) =~= plugins);
}

/// Law: a search that was postponed while plugins were answering is the one that is sent once
/// the last of them finishes; the empty query that restarts the search is not.
pub proof fn law_postponed_query_is_searched(
    a: Service,
    b: Service,
    c: Service,
    plugin: PluginKey,
    step: FinishStep,
    restart: Seq<char>,
    plan: SearchPlan,
)
    requires
        finishes(a, b, plugin, step),
        step == FinishStep::SearchAgain,
        searched(b, c, restart, plan),
    ensures
        plan matches SearchPlan::Dispatch { query: sent, .. } && sent@ == a.last_query(),
        c.last_query() == a.last_query(),
        !c.search_scheduled(),
{
}

/// Law: a query that a plugin isolates reaches that plugin alone, and no other plugin of lower
/// key isolates it.
pub proof fn law_isolated_query_reaches_one_plugin(
    a: Service,
    b: Service,
    query: Seq<char>,
    plan: SearchPlan,
)
    requires
        a.awaiting().is_empty(),
        searched(a, b, query, plan),
        exists|k: PluginKey| first_isolating(a.plugins(), k, b.last_query()),
    ensures
        plan matches SearchPlan::Dispatch { targets, isolated, .. } && {
            &&& isolated
            &&& targets@.len() == 1
            &&& isolating(a.plugins(), targets@[0].plugin, b.last_query())
            &&& forall|j: PluginKey| j < targets@[0].plugin ==> !#[trigger] isolating(a.plugins(), j, b.last_query())
        },
{
}

/// Law: while a plugin is still answering, the results are not shown, and searches that arrive
/// meanwhile interrupt the running plugins once; the newest of them is the one to run.
pub proof fn law_search_waits_for_plugins(
    a: Service,
    b: Service,
    c: Service,
    q1: Seq<char>,
    q2: Seq<char>,
    p1: SearchPlan,
    p2: SearchPlan,
)
    requires
        !a.awaiting().is_empty(),
        !a.search_scheduled(),
        searched(a, b, q1, p1),
        searched(b, c, q2, p2),
    ensures
        p1 matches SearchPlan::Backoff { interrupt } && lists_ascending(
            interrupt@,
            a.plugins().dom().intersect(a.running()),
        ),
        p2 matches SearchPlan::Backoff { interrupt } && interrupt@.len() == 0,
        c.last_query() == q2,
        c.search_scheduled(),
        c.active() == a.active(),
{
}

} // verus!
