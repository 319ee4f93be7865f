//! Messages exchanged between frontends, the launcher service and its plugins.
use vstd::prelude::*;

verus! {

/// u32 value defining the generation of an indice.
pub type Generation = u32;

/// u32 value defining the indice of a slot.
pub type Indice = u32;

/// An additional option that a search result offers for launching it.
#[derive(Debug, Clone)]
pub struct ContextOption {
    pub id: Indice,
    pub name: String,
}

/// Which graphics card a desktop entry should be launched with.
#[derive(Debug, Clone, Copy, PartialEq, Eq, Structural)]
pub enum GpuPreference {
    Default,
    NonDefault,
    SpecificIdx(u32),
}

/// Where the icon of an item comes from.
#[derive(Debug, Clone)]
pub enum IconSource {
    /// Locate by name or path.
    Name(String),
    /// Icon is a mime type.
    Mime(String),
}

/// Which windows a search over open windows should consider.
#[derive(Debug, Clone, Copy, PartialEq, Eq, Structural)]
pub enum WorkspaceFilter {
    /// Every window, whatever workspace it is on.
    All,
    /// Only the windows on one of the currently active workspaces.
    Current,
}

/// An RGBA thumbnail of a window.
#[derive(Debug, Clone)]
pub struct ThumbnailData {
    pub width: u32,
    pub height: u32,
    pub pixels: Vec<u8>,
}

impl IconSource {
    /// A copy of the icon source.
    pub fn duplicate(&self) -> (r: IconSource)
        ensures
            r == *self,
    {
        match self {
            IconSource::Name(n) => IconSource::Name(n.clone()),
            IconSource::Mime(m) => IconSource::Mime(m.clone()),
        }
    }
}

/// A copy of an optional icon source.
pub fn duplicate_icon(i: &Option<IconSource>) -> (r: Option<IconSource>)
    ensures
        r == *i,
{
    match i {
        Some(x) => Some(x.duplicate()),
        None => None,
    }
}

/// Search information from a plugin to be sorted and filtered by the launcher service.
#[derive(Debug, Clone)]
pub struct PluginSearchResult {
    /// Numeric identifier tracked by the plugin.
    pub id: Indice,
    /// The name / title.
    pub name: String,
    /// The description / subtitle.
    pub description: String,
    /// Extra words to match when sorting and filtering.
    pub keywords: Option<Vec<String>>,
    /// Icon to display in the frontend.
    pub icon: Option<IconSource>,
    /// Command that is executed by this result, used for sorting and filtering.
    pub exec_command: Option<String>,
    /// Designates that this search item refers to a window.
    pub window: Option<(Generation, Indice)>,
}

impl PluginSearchResult {
    /// A result with the given identifier, name and description, and nothing else set.
    pub fn new(id: Indice, name: String, description: String) -> (r: PluginSearchResult)
        ensures
            r.id == id,
            r.name@ == name@,
            r.description@ == description@,
            r.keywords is None,
            r.icon is None,
            r.exec_command is None,
            r.window is None,
    {
        PluginSearchResult {
            id,
            name,
            description,
            keywords: None,
            icon: None,
            exec_command: None,
            window: None,
        }
    }

    /// The key under which activations of this result are remembered: its name, and only when
    /// the result executes a command.
    pub open spec fn spec_cache_identifier(&self) -> Option<Seq<char>> {
        match self.exec_command {
            Some(_) => Some(self.name@),
            None => None,
        }
    }

    /// The key under which activations of this result are remembered.
    ///
    /// The exec field may clash in multiple search results as the arguments are cut from the
    /// string, so the name is used, and only for results that carry a command.
    pub fn cache_identifier(&self) -> (r: Option<String>)
        ensures
            match r {
                Some(s) => self.spec_cache_identifier() == Some(s@),
                None => self.spec_cache_identifier() is None,
            },
    {
        match &self.exec_command {
            Some(_) => Some(self.name.clone()),
            None => None,
        }
    }
}

/// Sent from a plugin to the launcher service.
#[derive(Debug, Clone)]
pub enum PluginResponse {
    /// Append a new search item to the launcher.
    Append(PluginSearchResult),
    /// Clear all results in the launcher list.
    Clear,
    /// Close the launcher.
    Close,
    /// Additional options for launching a certain item.
    Context { id: Indice, options: Vec<ContextOption> },
    /// Instruct the launcher service to deactivate this plugin.
    Deactivate,
    /// Notifies that a .desktop entry should be launched by the frontend.
    DesktopEntry { path: String, gpu_preference: GpuPreference, action_name: Option<String> },
    /// Update the text in the launcher.
    Fill(String),
    /// Indicates that a plugin is finished with its queries.
    Finished,
}

/// Sent to the input pipe of the launcher service, and disseminated to its plugins.
#[derive(Debug, Clone)]
pub enum Request {
    /// Activate on the selected item.
    Activate(Indice),
    /// Activate a context item on an item.
    ActivateContext { id: Indice, context: Indice },
    /// Perform a tab completion from the selected item.
    Complete(Indice),
    /// Request for any context options this result may have.
    Context(Indice),
    /// Request to end the service.
    Exit,
    /// Requests to cancel any active searches.
    Interrupt,
    /// Request to close the selected item.
    Quit(Indice),
    /// Perform a search in our database.
    Search(String),
    /// Perform a search restricted to windows of some workspaces.
    SearchFiltered { query: String, workspace_filter: WorkspaceFilter },
    /// Request to close the plugin without exiting.
    Close,
}

/// Serialized response to launcher frontend about a search result.
#[derive(Debug, Clone)]
pub struct SearchResult {
    /// Numeric identifier tracked by the plugin.
    pub id: Indice,
    /// The name / title.
    pub name: String,
    /// The description / subtitle.
    pub description: String,
    /// Icon to display in the frontend for this item
    pub icon: Option<IconSource>,
    /// Icon to display in the frontend for this plugin
    pub category_icon: Option<IconSource>,
    /// Designates that this search item refers to a window.
    pub window: Option<(Generation, Indice)>,
}

/// Sent from the launcher service to a frontend.
#[derive(Debug, Clone)]
pub enum Response {
    /// An operation was performed and the frontend may choose to exit its process.
    Close,
    /// Additional options for launching a certain item
    Context { id: Indice, options: Vec<ContextOption> },
    /// Notifies that a .desktop entry should be launched by the frontend.
    DesktopEntry { path: String, gpu_preference: GpuPreference, action_name: Option<String> },
    /// The frontend should clear its search results and display a new list.
    Update(Vec<SearchResult>),
    /// An item was selected that resulted in a need to autofill the launcher.
    Fill(String),
}

} // verus!
