//! The built-in plugin that lists the query prefixes of the other plugins.
use crate::protocol::{Indice, PluginResponse, PluginSearchResult};
use crate::service::PluginHelp;
use vstd::prelude::*;

verus! {

/// The help plugin: the help texts of the registered plugins, numbered by position.
pub struct HelpPlugin {
    pub details: Vec<PluginHelp>,
}

/// The result that lists the help text `d`, numbered `id`.
pub open spec fn help_result(d: PluginHelp, id: int) -> PluginSearchResult {
    PluginSearchResult {
        id: id as u32,
        name: d.name,
        description: d.description,
        keywords: None,
        icon: None,
        exec_command: None,
        window: None,
    }
}

/// The positions of the help texts that give a query prefix, in order.
pub open spec fn with_help(details: Seq<PluginHelp>, n: int) -> Seq<int>
    decreases n,
{
    if n <= 0 {
        Seq::empty()
    } else if details[n - 1].help is Some {
        with_help(details, n - 1).push(n - 1)
    } else {
        with_help(details, n - 1)
    }
}

impl HelpPlugin {
    /// A help plugin that has not yet fetched any help text.
    pub fn new() -> (p: HelpPlugin)
        ensures
            p.details@.len() == 0,
    {
        HelpPlugin { details: Vec::new() }
    }

    /// The help texts have to be fetched from the service before a search.
    pub fn needs_reload(&self) -> (b: bool)
        ensures
            b == (self.details@.len() == 0),
    {
        self.details.len() == 0
    }

    /// Answers a search, whatever the query: one result for each plugin that gives a query
    /// prefix, numbered by its position, then `Finished`.
    pub fn search(&self) -> (rs: Vec<PluginResponse>)
        requires
            self.details@.len() <= u32::MAX,
        ensures
            rs@.len() == with_help(self.details@, self.details@.len() as int).len() + 1,
            forall|j: int| 0 <= j < rs@.len() - 1 ==> (#[trigger] rs@[j]) == PluginResponse::Append(
                help_result(
                    self.details@[with_help(self.details@, self.details@.len() as int)[j]],
                    with_help(self.details@, self.details@.len() as int)[j],
                ),
            ),
            rs@.last() == PluginResponse::Finished,
    {
        let mut rs: Vec<PluginResponse> = Vec::new();
        let mut i: usize = 0;
        while i < self.details.len()
            invariant
                self.details@.len() <= u32::MAX,
                0 <= i <= self.details@.len(),
                rs@.len() == with_help(self.details@, i as int).len(),
                forall|j: int| 0 <= j < rs@.len() ==> (#[trigger] rs@[j]) == PluginResponse::Append(
                    help_result(
                        self.details@[with_help(self.details@, i as int)[j]],
                        with_help(self.details@, i as int)[j],
                    ),
                ),
            decreases self.details@.len() - i,
        {
            let d = &self.details[i];
            if d.help.is_some() {
                let r = PluginSearchResult {
                    id: i as u32,
                    name: d.name.clone(),
                    description: d.description.clone(),
                    keywords: None,
                    icon: None,
                    exec_command: None,
                    window: None,
                };
                rs.push(PluginResponse::Append(r));
            }
            i = i + 1;
        }
        rs.push(PluginResponse::Finished);
        rs
    }

    /// Activating (or completing) the result `id` fills the query prefix of its plugin in.
    pub fn activate(&self, id: Indice) -> (r: Option<PluginResponse>)
        ensures
            (id < self.details@.len() && self.details@[id as int].help is Some) ==> r == Some(
                PluginResponse::Fill(self.details@[id as int].help->0),
            ),
            !(id < self.details@.len() && self.details@[id as int].help is Some) ==> r is None,
    {
        let pos = id as usize;
        if pos < self.details.len() {
            match &self.details[pos].help {
                Some(h) => Some(PluginResponse::Fill(h.clone())),
                None => None,
            }
        } else {
            None
        }
    }
}

} // verus!
