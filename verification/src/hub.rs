//! The decisions of the `rz-hub` Zellij plugin: which pipe messages it takes,
//! and when it asks Zellij to render again.
//!
//! The plugin routes messages addressed to the pipe named `rz`; a message that
//! registers or unregisters an agent changes what the hub would show, and so
//! does every pane update. Rendering clears that need.

use vstd::prelude::*;
use vstd::string::*;

use crate::text::same_text;

verus! {

/// The events the hub subscribes to.
pub enum HubEvent {
    /// The set of panes changed.
    PaneUpdate,
    /// A timer set by the hub fired.
    Timer,
    /// Zellij answered the hub's permission request.
    PermissionRequestResult,
    /// Any other event.
    Other,
}

/// What the hub does with one pipe message.
pub struct PipeDecision {
    /// The message is handed to the router.
    pub route: bool,
    /// Zellij is asked to render the hub again.
    pub render: bool,
}

/// The hub's own state beside its agent registry and timers.
pub struct HubState {
    /// The plugin ID Zellij gave the hub.
    pub plugin_id: u32,
    /// The view is out of date and should be rendered again.
    pub dirty: bool,
    /// The ID the next timer gets.
    pub next_timer_id: u64,
}

/// The pipe name the hub listens on.
pub open spec fn is_hub_pipe(name: Seq<char>) -> bool {
    name == "rz"@
}

/// An action that changes the agent registry.
pub open spec fn changes_registry(action: Option<&str>) -> bool {
    match action {
        Some(a) => a@ == "register"@ || a@ == "unregister"@,
        None => false,
    }
}

impl HubState {
    /// A hub that has not loaded yet: plugin ID 0, nothing to render, first timer ID 1.
    pub fn new() -> (r: HubState)
        ensures
            r.plugin_id == 0,
            !r.dirty,
            r.next_timer_id == 1,
    {
        HubState { plugin_id: 0, dirty: false, next_timer_id: 1 }
    }

    /// Loads the hub with the plugin ID that Zellij gave it and the value of its
    /// `visible` setting; returns whether the hub hides itself, which it does
    /// unless `visible` is `true`.
    pub fn load(&mut self, plugin_id: u32, visible: Option<&str>) -> (hide: bool)
        ensures
            final(self).plugin_id == plugin_id,
            final(self).dirty == old(self).dirty,
            final(self).next_timer_id == old(self).next_timer_id,
            hide == !(match visible {
                Some(v) => v@ == "true"@,
                None => false,
            }),
    {
        self.plugin_id = plugin_id;
        match visible {
            Some(v) => !same_text(v, "true"),
            None => true,
        }
    }

    /// Takes in an event; returns whether Zellij should render the hub.
    ///
    /// A pane update marks the view out of date; other events leave it as it is.
    pub fn update(&mut self, event: &HubEvent) -> (render: bool)
        ensures
            final(self).plugin_id == old(self).plugin_id,
            final(self).next_timer_id == old(self).next_timer_id,
            final(self).dirty == (old(self).dirty || *event is PaneUpdate),
            render == final(self).dirty,
    {
        if let HubEvent::PaneUpdate = event {
            self.dirty = true;
        }
        self.dirty
    }

    /// Decides what to do with a pipe message named `name` whose `action`
    /// argument is `action`.
    ///
    /// Messages on other pipes are ignored and change nothing. Messages on the
    /// hub's pipe are routed; the view is then out of date exactly when the
    /// action registers or unregisters an agent.
    pub fn pipe(&mut self, name: &str, action: Option<&str>) -> (d: PipeDecision)
        ensures
            final(self).plugin_id == old(self).plugin_id,
            final(self).next_timer_id == old(self).next_timer_id,
            d.route == is_hub_pipe(name@),
            final(self).dirty == if is_hub_pipe(name@) {
                changes_registry(action)
            } else {
                old(self).dirty
            },
            d.render == (is_hub_pipe(name@) && final(self).dirty),
    {
        if !same_text(name, "rz") {
            return PipeDecision { route: false, render: false };
        }
        self.dirty = match action {
            Some(a) => same_text(a, "register") || same_text(a, "unregister"),
            None => false,
        };
        PipeDecision { route: true, render: self.dirty }
    }

    /// The hub has rendered: its view is up to date.
    pub fn render(&mut self)
        ensures
            final(self).plugin_id == old(self).plugin_id,
            final(self).next_timer_id == old(self).next_timer_id,
            !final(self).dirty,
    {
        self.dirty = false;
    }
}

} // verus!
