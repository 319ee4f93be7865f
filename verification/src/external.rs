//! The bookkeeping of a plugin that runs as a separate process: when the process is started
//! again, and which `Finished` responses the service must still get when it dies.
use crate::protocol::{PluginResponse, Request};
use vstd::prelude::*;

verus! {

/// What the service knows of the process of an external plugin.
#[derive(Debug, Clone, Copy, PartialEq, Eq, Structural)]
pub struct ExternalPluginState {
    /// A process is running and reachable.
    pub has_process: bool,
    /// The task that forwards the process's responses has ended.
    pub detached: bool,
    /// A search was sent and its `Finished` response has not arrived.
    pub searching: bool,
}

impl ExternalPluginState {
    /// No process yet.
    pub fn new() -> (s: ExternalPluginState)
        ensures
            !s.has_process && !s.detached && !s.searching,
    {
        ExternalPluginState { has_process: false, detached: false, searching: false }
    }

    /// Before a request is sent: a process that `exited`, or whose forwarding task ended, is
    /// dropped.
    pub fn process_check(&mut self, exited: bool)
        ensures
            old(self).has_process ==> {
                &&& final(self).has_process == (!exited && !old(self).detached)
                &&& !final(self).detached
            },
            !old(self).has_process ==> final(self).has_process == old(self).has_process && final(self).detached
                == old(self).detached,
            final(self).searching == old(self).searching,
    {
        if self.has_process {
            if exited {
                self.has_process = false;
            }
            if self.detached {
                self.detached = false;
                self.has_process = false;
            }
        }
    }

    /// A request is about to be sent: the process has to be started first when there is none.
    pub fn needs_launch(&self) -> (b: bool)
        ensures
            b == !self.has_process,
    {
        !self.has_process
    }

    /// The process was started (`ok`), or could not be.
    pub fn launched(&mut self, ok: bool)
        ensures
            final(self).has_process == (old(self).has_process || ok),
            final(self).detached == old(self).detached,
            final(self).searching == old(self).searching,
    {
        if ok {
            self.has_process = true;
        }
    }

    /// A search was sent (`ok`) or could not reach the process: in that case the plugin
    /// answers `Finished` at once.
    pub fn search_sent(&mut self, ok: bool) -> (r: Option<PluginResponse>)
        ensures
            ok ==> final(self).searching && r is None,
            !ok ==> final(self).searching == old(self).searching && r == Some(PluginResponse::Finished),
            final(self).has_process == old(self).has_process,
            final(self).detached == old(self).detached,
    {
        if ok {
            self.searching = true;
            None
        } else {
            Some(PluginResponse::Finished)
        }
    }

    /// The process answered `response`, which is forwarded; a `Finished` ends the search.
    pub fn on_response(&mut self, response: PluginResponse) -> (r: PluginResponse)
        ensures
            r == response,
            final(self).searching == (old(self).searching && !(response is Finished)),
            final(self).has_process == old(self).has_process,
            final(self).detached == old(self).detached,
    {
        if let PluginResponse::Finished = response {
            self.searching = false;
        }
        response
    }

    /// The task that forwards the responses ended: a search still waiting for its `Finished`
    /// gets one.
    pub fn on_task_end(&mut self) -> (r: Option<PluginResponse>)
        ensures
            !final(self).searching,
            final(self).detached,
            final(self).has_process == old(self).has_process,
            old(self).searching ==> r == Some(PluginResponse::Finished),
            !old(self).searching ==> r is None,
    {
        let was = self.searching;
        self.searching = false;
        self.detached = true;
        if was {
            Some(PluginResponse::Finished)
        } else {
            None
        }
    }

    /// The plugin is asked to exit: its process, if any, is stopped.
    pub fn exit(&mut self) -> (stop: bool)
        ensures
            stop == old(self).has_process,
            !final(self).has_process,
            final(self).detached == old(self).detached,
            final(self).searching == old(self).searching,
    {
        let had = self.has_process;
        self.has_process = false;
        had
    }
}

/// What a plugin does with a request.
#[derive(Debug)]
pub enum PluginCall {
    Search(String),
    Interrupt,
    Activate(u32),
    ActivateContext { id: u32, context: u32 },
    Complete(u32),
    Context(u32),
    Quit(u32),
    /// Exit; `stop` tells that the plugin stops reading requests.
    Exit { stop: bool },
    /// The request is not for plugins.
    Ignored,
}

/// What a plugin of the service does with a request: `Exit` makes it stop, `Close` makes it
/// exit and go on reading requests.
pub fn plugin_call(request: Request) -> (c: PluginCall)
    ensures
        c == plugin_call_spec(request),
{
    match request {
        Request::Search(q) => PluginCall::Search(q),
        Request::Interrupt => PluginCall::Interrupt,
        Request::Activate(id) => PluginCall::Activate(id),
        Request::ActivateContext { id, context } => PluginCall::ActivateContext { id, context },
        Request::Complete(id) => PluginCall::Complete(id),
        Request::Context(id) => PluginCall::Context(id),
        Request::Quit(id) => PluginCall::Quit(id),
        Request::Exit => PluginCall::Exit { stop: true },
        Request::Close => PluginCall::Exit { stop: false },
        Request::SearchFiltered { .. } => PluginCall::Ignored,
    }
}

/// What a plugin built with the toolkit does with a request: both `Exit` and `Close` make it
/// exit and stop.
pub fn toolkit_call(request: Request) -> (c: PluginCall)
    ensures
        match request {
            Request::Exit => c matches PluginCall::Exit { stop } && stop,
            Request::Close => c matches PluginCall::Exit { stop } && stop,
            _ => c == plugin_call_spec(request),
        },
{
    match request {
        Request::Close => PluginCall::Exit { stop: true },
        other => plugin_call(other),
    }
}

/// What a plugin of the service does with a request.
pub open spec fn plugin_call_spec(request: Request) -> PluginCall {
    match request {
        Request::Search(q) => PluginCall::Search(q),
        Request::Interrupt => PluginCall::Interrupt,
        Request::Activate(id) => PluginCall::Activate(id),
        Request::ActivateContext { id, context } => PluginCall::ActivateContext { id, context },
        Request::Complete(id) => PluginCall::Complete(id),
        Request::Context(id) => PluginCall::Context(id),
        Request::Quit(id) => PluginCall::Quit(id),
        Request::Exit => PluginCall::Exit { stop: true },
        Request::Close => PluginCall::Exit { stop: false },
        Request::SearchFiltered { .. } => PluginCall::Ignored,
    }
}

} // verus!
