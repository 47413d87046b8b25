//! Integrations: the transforms that a client applies, in the order of their
//! registration, to every event before it is queued. An integration may
//! change the event, drop it, or pass it on as it is.

use crate::protocol::{Context, ContextView, Event, EventView, Level};
use crate::views::{opt_view, replicate_opt, views, Replicate};
use vstd::prelude::*;

verus! {

/// What is known of the machine and the program; gathered once, when the
/// client is configured.
#[derive(Debug)]
pub struct SystemInfo {
    pub server_name: Option<String>,
    pub os: Option<Context>,
    pub rust: Option<Context>,
    pub device: Option<Context>,
}

/// What a `SystemInfo` holds, as mathematical values.
pub ghost struct SystemInfoView {
    pub server_name: Option<Seq<char>>,
    pub os: Option<ContextView>,
    pub rust: Option<ContextView>,
    pub device: Option<ContextView>,
}

impl View for SystemInfo {
    type V = SystemInfoView;

    open spec fn view(&self) -> SystemInfoView {
        SystemInfoView {
            server_name: opt_view(self.server_name),
            os: opt_view(self.os),
            rust: opt_view(self.rust),
            device: opt_view(self.device),
        }
    }
}

/// Adds the `os`, `rust` and `device` contexts to events, and the server
/// name, each only where the event does not have it yet.
#[derive(Debug)]
pub struct ContextIntegration {
    /// Add the `os` context.
    pub add_os: bool,
    /// Add the `rust` context.
    pub add_rust: bool,
    /// Add the `device` context.
    pub add_device: bool,
    pub system: SystemInfo,
}

/// What a `ContextIntegration` holds, as mathematical values.
pub ghost struct ContextIntegrationView {
    pub add_os: bool,
    pub add_rust: bool,
    pub add_device: bool,
    pub system: SystemInfoView,
}

impl View for ContextIntegration {
    type V = ContextIntegrationView;

    open spec fn view(&self) -> ContextIntegrationView {
        ContextIntegrationView {
            add_os: self.add_os,
            add_rust: self.add_rust,
            add_device: self.add_device,
            system: self.system@,
        }
    }
}

/// The contexts with `value` under `key`, where that is wanted, there is a
/// value, and the key is still free; else the contexts as they are.
pub open spec fn filled(
    contexts: Map<Seq<char>, ContextView>,
    key: Seq<char>,
    wanted: bool,
    value: Option<ContextView>,
) -> Map<Seq<char>, ContextView> {
    if wanted && value is Some && !contexts.contains_key(key) {
        contexts.insert(key, value->0)
    } else {
        contexts
    }
}

/// The event with the contexts and the server name that it lacked.
pub open spec fn with_contexts(event: EventView, integration: ContextIntegrationView) -> EventView {
    let system = integration.system;
    let os = filled(event.contexts, "os"@, integration.add_os, system.os);
    let rust = filled(os, "rust"@, integration.add_rust, system.rust);
    let device = filled(rust, "device"@, integration.add_device, system.device);
    EventView {
        contexts: device,
        server_name: if event.server_name is Some {
            event.server_name
        } else {
            system.server_name
        },
        ..event
    }
}

fn fill(event: &mut Event, key: &str, wanted: bool, value: &Option<Context>)
    ensures
        final(event)@ == (EventView {
            contexts: filled(old(event)@.contexts, key@, wanted, opt_view(*value)),
            ..old(event)@
        }),
{
    if wanted {
        match value {
            Some(context) => {
                if !event.contexts.contains_key(key) {
                    event.contexts.insert(key.to_owned(), context.replicate());
                }
            },
            None => {},
        }
    }
}

impl ContextIntegration {
    /// Adds to `event` the contexts and the server name that it lacks.
    pub fn process_event(&self, event: Event) -> (r: Event)
        ensures
            r@ == with_contexts(event@, self@),
    {
        let mut event = event;
        fill(&mut event, "os", self.add_os, &self.system.os);
        fill(&mut event, "rust", self.add_rust, &self.system.rust);
        fill(&mut event, "device", self.add_device, &self.system.device);
        if event.server_name.is_none() {
            event.server_name = replicate_opt(&self.system.server_name);
        }
        event
    }
}

/// A transform of events, resolved when the client is configured.
#[derive(Debug)]
pub enum Integration {
    /// Adds contexts and the server name.
    Contexts(ContextIntegration),
    /// Drops every event that is less severe than the level.
    MinimumLevel(Level),
}

/// What an `Integration` holds, as mathematical values.
pub ghost enum IntegrationView {
    Contexts(ContextIntegrationView),
    MinimumLevel(Level),
}

impl View for Integration {
    type V = IntegrationView;

    open spec fn view(&self) -> IntegrationView {
        match self {
            Integration::Contexts(c) => IntegrationView::Contexts(c@),
            Integration::MinimumLevel(level) => IntegrationView::MinimumLevel(*level),
        }
    }
}

/// What one integration makes of an event: the event that goes on, or
/// nothing where the event is dropped.
pub open spec fn processed(integration: IntegrationView, event: EventView) -> Option<EventView> {
    match integration {
        IntegrationView::Contexts(c) => Some(with_contexts(event, c)),
        IntegrationView::MinimumLevel(level) => if event.level.rank() < level.rank() {
            None
        } else {
            Some(event)
        },
    }
}

/// What a list of integrations makes of an event: each in turn works on
/// what the one before it passed on, and once the event is dropped it stays
/// dropped.
pub open spec fn processed_by_all(list: Seq<IntegrationView>, event: EventView) -> Option<
    EventView,
>
    decreases list.len(),
{
    if list.len() == 0 {
        Some(event)
    } else {
        match processed_by_all(list.drop_last(), event) {
            Some(passed) => processed(list.last(), passed),
            None => None,
        }
    }
}

/// No integration touches the breadcrumbs: an event that passes a list of
/// integrations has the trail that it came with.
pub proof fn lemma_integrations_keep_trail(list: Seq<IntegrationView>, event: EventView)
    ensures
        processed_by_all(list, event) matches Some(e) ==> e.breadcrumbs == event.breadcrumbs,
    decreases list.len(),
{
    if list.len() > 0 {
        lemma_integrations_keep_trail(list.drop_last(), event);
    }
}

impl Integration {
    /// Applies the integration to an event.
    pub fn process_event(&self, event: Event) -> (r: Option<Event>)
        ensures
            opt_view(r) == processed(self@, event@),
    {
        match self {
            Integration::Contexts(c) => Some(c.process_event(event)),
            Integration::MinimumLevel(level) => {
                if event.level.severity() < level.severity() {
                    None
                } else {
                    Some(event)
                }
            },
        }
    }
}

/// Applies the integrations of `list` to an event, in order.
pub fn run_integrations(list: &Vec<Integration>, event: Event) -> (r: Option<Event>)
    ensures
        opt_view(r) == processed_by_all(views(list@), event@),
{
    let ghost all = views(list@);
    let mut current = event;
    let mut i: usize = 0;
    while i < list.len()
        invariant
            i <= list@.len(),
            all == views(list@),
            processed_by_all(all.take(i as int), event@) == Some(current@),
        decreases list@.len() - i,
    {
        proof {
            assert(all.take(i + 1).drop_last() =~= all.take(i as int));
        }
        match list[i].process_event(current) {
            Some(next) => {
                current = next;
            },
            None => {
                proof {
                    lemma_dropped_stays_dropped(all, (i + 1) as int, event@);
                }
                return None;
            },
        }
        i += 1;
    }
    assert(all.take(i as int) =~= all);
    Some(current)
}

proof fn lemma_dropped_stays_dropped(list: Seq<IntegrationView>, k: int, event: EventView)
    requires
        0 <= k <= list.len(),
        processed_by_all(list.take(k), event) is None,
    ensures
        processed_by_all(list, event) is None,
    decreases list.len() - k,
{
    if k < list.len() {
        assert(list.take(k + 1).drop_last() =~= list.take(k));
        lemma_dropped_stays_dropped(list, k + 1, event);
    } else {
        assert(list.take(k) =~= list);
    }
}

} // verus!
