//! The single-instance guard: what the running instance does when it is told
//! of a second launch.
//!
//! The windowing framework holds the lock that keeps a second process from
//! starting up, and reports each attempt to the running instance together
//! with the arguments of the new process. [`on_second_launch`] decides what
//! follows; the caller carries it out on the window and the event channel.

use vstd::prelude::*;
use crate::deep_link::{deep_links, is_link, links_in};

verus! {

/// The label of the application's primary window.
pub const MAIN_WINDOW: &'static str = "main";

/// The event that carries forwarded deep links to the front end.
pub const DEEP_LINK_EVENT: &'static str = "single-instance-deep-link";

/// One operation on the main window. A failure of any of them is ignored.
#[derive(Clone, Copy, Debug, PartialEq, Eq, Structural)]
pub enum WindowStep {
    /// Restore the window if it is minimized.
    Unminimize,
    /// Give the window input focus.
    Focus,
    /// Make the window visible.
    Show,
}

/// What the running instance does about one second launch.
#[derive(Debug, PartialEq, Eq)]
pub struct Relaunch {
    /// The operations to perform on the main window, in this order.
    pub window: Vec<WindowStep>,
    /// The payload of the [`DEEP_LINK_EVENT`] to emit, or `None` where no
    /// event is emitted.
    pub event: Option<Vec<String>>,
}

/// The window is brought back, focused and shown, in that order, where there
/// is one; where there is none, nothing is done to it.
pub open spec fn window_steps(main_window_present: bool) -> Seq<WindowStep> {
    if main_window_present {
        seq![WindowStep::Unminimize, WindowStep::Focus, WindowStep::Show]
    } else {
        Seq::empty()
    }
}

/// The deep links among the arguments are forwarded in one event; without a
/// deep link there is no event.
pub open spec fn event_payload(args: Seq<String>) -> Option<Seq<String>> {
    if links_in(args).len() > 0 {
        Some(links_in(args))
    } else {
        None
    }
}

impl Relaunch {
    /// The payload of the event as a sequence, `None` without an event.
    pub open spec fn payload(self) -> Option<Seq<String>> {
        match self.event {
            Some(urls) => Some(urls@),
            None => None,
        }
    }
}

/// The operations that bring the main window to the front.
pub fn restore_window(main_window_present: bool) -> (steps: Vec<WindowStep>)
    ensures
        steps@ == window_steps(main_window_present),
{
    let mut steps: Vec<WindowStep> = Vec::new();
    if main_window_present {
        steps.push(WindowStep::Unminimize);
        steps.push(WindowStep::Focus);
        steps.push(WindowStep::Show);
    }
    assert(steps@ =~= window_steps(main_window_present));
    steps
}

/// The deep links to forward to the front end, `None` where there is none.
pub fn forwarded_links(args: &[String]) -> (event: Option<Vec<String>>)
    ensures
        match event {
            Some(urls) => event_payload(args@) == Some(urls@),
            None => event_payload(args@) is None,
        },
{
    let urls = deep_links(args);
    if urls.len() > 0 {
        Some(urls)
    } else {
        None
    }
}

/// Decides what the running instance does when a second launch with the
/// arguments `args` is reported to it. `main_window_present` says whether the
/// window labelled [`MAIN_WINDOW`] was found.
pub fn on_second_launch(main_window_present: bool, args: &[String]) -> (plan: Relaunch)
    ensures
        plan.window@ == window_steps(main_window_present),
        plan.payload() == event_payload(args@),
{
    Relaunch { window: restore_window(main_window_present), event: forwarded_links(args) }
}

/// An event is emitted exactly when some argument is a deep link.
pub proof fn lemma_event_iff_some_link(args: Seq<String>)
    ensures
        event_payload(args) is Some <==> exists|i: int|
            0 <= i < args.len() && is_link(#[trigger] args[i]@),
{
    let pred = |arg: String| is_link(arg@);
    if exists|i: int| 0 <= i < args.len() && is_link(#[trigger] args[i]@) {
        let i = choose|i: int| 0 <= i < args.len() && is_link(#[trigger] args[i]@);
        args.lemma_filter_contains(pred, i);
    }
    if links_in(args).len() > 0 {
        let url = links_in(args)[0];
        args.lemma_filter_pred(pred, 0);
        assert(links_in(args).contains(url));
        args.lemma_filter_contains_rev(pred, url);
        let i = choose|i: int| 0 <= i < args.len() && args[i] == url;
        assert(is_link(args[i]@));
    }
}

} // verus!
