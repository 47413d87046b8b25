//! The client: the configuration, the integrations and the delivery queue
//! that captured events pass through.

use crate::dsn::{dsn_of_text, ConfigurationError, Dsn, DsnView};
use crate::integrations::{
    lemma_integrations_keep_trail, processed_by_all, run_integrations, Integration,
    IntegrationView,
};
use crate::protocol::{Event, EventId, EventView};
use crate::sampling::{draw_of, keeps, next_state, should_keep, Sampler, FULL_RATE, ZERO_SEED};
use crate::scope::{empty_scope, event_with_scope, Scope, ScopeView};
use crate::views::{opt_view, views};
use crate::transport::{admission_of, after_enqueue, new_transport, Transport, TransportView};
use vstd::prelude::*;

verus! {

/// The options that a client is built from.
#[derive(Debug)]
pub struct ClientOptions {
    /// The address of the service.
    pub dsn: String,
    pub release: Option<String>,
    pub environment: Option<String>,
    /// The share of events that is sent, in millionths.
    pub sample_rate: u32,
    /// The most breadcrumbs that an event carries.
    pub max_breadcrumbs: usize,
    /// The most events that wait to be sent at one time.
    pub transport_queue_size: usize,
    /// How often an event is sent again after a failure that may pass.
    pub max_retries: u32,
    /// The seed of the draws that sampling goes by.
    pub sample_seed: u64,
    /// The integrations, in the order in which they are applied.
    pub integrations: Vec<Integration>,
}

impl ClientOptions {
    /// The options for the service at `dsn`, with every event sent, up to
    /// 100 breadcrumbs, a queue of 30 events, 3 retries and no integration.
    pub fn new(dsn: &str) -> (r: ClientOptions)
        ensures
            r.dsn@ == dsn@,
            r.release is None,
            r.environment is None,
            r.sample_rate == FULL_RATE,
            r.max_breadcrumbs == 100,
            r.transport_queue_size == 30,
            r.max_retries == 3,
            r.sample_seed == 0,
            r.integrations@.len() == 0,
    {
        ClientOptions {
            dsn: dsn.to_owned(),
            release: None,
            environment: None,
            sample_rate: FULL_RATE,
            max_breadcrumbs: 100,
            transport_queue_size: 30,
            max_retries: 3,
            sample_seed: 0,
            integrations: Vec::new(),
        }
    }
}

/// The state of a client.
pub ghost struct ClientView {
    pub dsn: DsnView,
    pub release: Option<Seq<char>>,
    pub environment: Option<Seq<char>>,
    pub sample_rate: u32,
    pub max_breadcrumbs: nat,
    pub integrations: Seq<IntegrationView>,
    /// The state of the generator of draws.
    pub sampler: u64,
    pub transport: TransportView,
}

/// A client: its configuration, which never changes once the client is
/// built, the generator of its draws, and its delivery queue.
#[derive(Debug)]
pub struct Client {
    dsn: Dsn,
    release: Option<String>,
    environment: Option<String>,
    sample_rate: u32,
    max_breadcrumbs: usize,
    integrations: Vec<Integration>,
    sampler: Sampler,
    transport: Transport,
}

impl View for Client {
    type V = ClientView;

    closed spec fn view(&self) -> ClientView {
        ClientView {
            dsn: self.dsn@,
            release: opt_view(self.release),
            environment: opt_view(self.environment),
            sample_rate: self.sample_rate,
            max_breadcrumbs: self.max_breadcrumbs as nat,
            integrations: views(self.integrations@),
            sampler: self.sampler.state(),
            transport: self.transport@,
        }
    }
}

/// The client that options make, with the address `dsn`.
pub open spec fn client_of(options: ClientOptions, dsn: DsnView) -> ClientView {
    ClientView {
        dsn,
        release: opt_view(options.release),
        environment: opt_view(options.environment),
        sample_rate: options.sample_rate,
        max_breadcrumbs: options.max_breadcrumbs as nat,
        integrations: views(options.integrations@),
        sampler: if options.sample_seed == 0 {
            ZERO_SEED
        } else {
            options.sample_seed
        },
        transport: new_transport(options.transport_queue_size as nat, options.max_retries),
    }
}

/// The event as it is queued: `event` with the scope merged into it, then
/// worked on by the integrations, then given the identifier `fresh_id`
/// where it has none. Without a scope the event still loses the breadcrumbs
/// that it has beyond the client's limit. Nothing where an integration drops
/// the event.
pub open spec fn prepared(
    client: ClientView,
    event: EventView,
    scope: Option<ScopeView>,
    fresh_id: EventId,
) -> Option<EventView> {
    let merged = event_with_scope(
        event,
        match scope {
            Some(s) => s,
            None => empty_scope(),
        },
        client.max_breadcrumbs,
    );
    match processed_by_all(client.integrations, merged) {
        Some(e) => Some(
            EventView {
                event_id: Some(
                    match e.event_id {
                        Some(id) => id,
                        None => fresh_id,
                    },
                ),
                ..e
            },
        ),
        None => None,
    }
}

/// The client after it captured `event` at the time `now`, and the
/// identifier that the capture returns. The generator always moves on by
/// one draw. The event is dropped, and the queue left alone, where the draw
/// does not keep it or an integration drops it. Else it is offered to the
/// queue, and its identifier is returned where the queue admits it.
pub open spec fn after_capture(
    client: ClientView,
    event: EventView,
    scope: Option<ScopeView>,
    fresh_id: EventId,
    now: u64,
) -> (ClientView, Option<EventId>) {
    let state = next_state(client.sampler);
    let drawn = ClientView { sampler: state, ..client };
    if !keeps(client.sample_rate, draw_of(state)) {
        (drawn, None)
    } else {
        match prepared(client, event, scope, fresh_id) {
            None => (drawn, None),
            Some(e) => (
                ClientView { transport: after_enqueue(client.transport, e, now), ..drawn },
                if admission_of(client.transport).admitted {
                    e.event_id
                } else {
                    None
                },
            ),
        }
    }
}

/// Sampling at its two ends. At rate 0 no event is queued, whatever the
/// state of the generator. At the full rate no event is dropped for its
/// draw: every event that the integrations let pass is offered to the queue.
/// A capture never changes the rate.
pub proof fn lemma_sampling_extremes(
    client: ClientView,
    event: EventView,
    scope: Option<ScopeView>,
    fresh_id: EventId,
    now: u64,
)
    ensures
        after_capture(client, event, scope, fresh_id, now).0.sample_rate == client.sample_rate,
        client.sample_rate == 0 ==> {
            &&& after_capture(client, event, scope, fresh_id, now).1 is None
            &&& after_capture(client, event, scope, fresh_id, now).0.transport == client.transport
        },
        client.sample_rate >= FULL_RATE ==> (match prepared(client, event, scope, fresh_id) {
            Some(e) => after_capture(client, event, scope, fresh_id, now).0.transport
                == after_enqueue(client.transport, e, now),
            None => after_capture(client, event, scope, fresh_id, now).0.transport
                == client.transport,
        }),
{
}

/// No event is queued with more breadcrumbs than the client allows.
pub proof fn lemma_queued_trail_bounded(
    client: ClientView,
    event: EventView,
    scope: Option<ScopeView>,
    fresh_id: EventId,
)
    ensures
        prepared(client, event, scope, fresh_id) matches Some(e) ==> e.breadcrumbs.len()
            <= client.max_breadcrumbs,
{
    let merged = event_with_scope(
        event,
        match scope {
            Some(s) => s,
            None => empty_scope(),
        },
        client.max_breadcrumbs,
    );
    lemma_integrations_keep_trail(client.integrations, merged);
}

/// Whether an identifier has the version and variant bits of a random
/// UUID.
pub open spec fn is_random_id(id: EventId) -> bool {
    id.value & 0x0000_0000_0000_F000_C000_0000_0000_0000u128
        == 0x0000_0000_0000_4000_8000_0000_0000_0000u128
}

/// `uuid::Uuid::new_v4`, as a number: a random identifier of version 4,
/// whose version and variant bits are fixed. The call panics where the
/// system has no random bytes to give. Not proved here.
#[verifier::external_body]
pub(crate) fn random_event_id() -> (r: EventId)
    ensures
        is_random_id(r),
{
    EventId { value: uuid::Uuid::new_v4().as_u128() }
}

impl Client {
    /// Builds a client from its options. This fails where the address of
    /// the service is not valid, and only then.
    pub fn new(options: ClientOptions) -> (r: Result<Client, ConfigurationError>)
        ensures
            match dsn_of_text(options.dsn@) {
                Ok(dsn) => r matches Ok(client) && client@ == client_of(options, dsn),
                Err(e) => r matches Err(f) && f == e,
            },
    {
        match Dsn::parse(options.dsn.as_str()) {
            Ok(dsn) => Ok(
                Client {
                    dsn,
                    release: options.release,
                    environment: options.environment,
                    sample_rate: options.sample_rate,
                    max_breadcrumbs: options.max_breadcrumbs,
                    integrations: options.integrations,
                    sampler: Sampler::new(options.sample_seed),
                    transport: Transport::new(options.transport_queue_size, options.max_retries),
                },
            ),
            Err(e) => Err(e),
        }
    }

    /// The address of the service.
    pub fn dsn(&self) -> (r: &Dsn)
        ensures
            r@ == self@.dsn,
    {
        &self.dsn
    }

    /// The release that the client reports for.
    pub fn release(&self) -> (r: &Option<String>)
        ensures
            opt_view(*r) == self@.release,
    {
        &self.release
    }

    /// The environment that the client reports for.
    pub fn environment(&self) -> (r: &Option<String>)
        ensures
            opt_view(*r) == self@.environment,
    {
        &self.environment
    }

    /// The share of events that is sent, in millionths.
    pub fn sample_rate(&self) -> (r: u32)
        ensures
            r == self@.sample_rate,
    {
        self.sample_rate
    }

    /// The most breadcrumbs that an event carries.
    pub fn max_breadcrumbs(&self) -> (r: usize)
        ensures
            r == self@.max_breadcrumbs,
    {
        self.max_breadcrumbs
    }

    /// The delivery queue, for reading.
    pub fn transport(&self) -> (r: &Transport)
        ensures
            r@ == self@.transport,
    {
        &self.transport
    }

    /// The delivery queue, for the worker that sends what is in it. Nothing
    /// else of the client changes.
    pub fn transport_mut(&mut self) -> (r: &mut Transport)
        ensures
            r@ == old(self)@.transport,
            final(self)@ == (ClientView { transport: final(r)@, ..old(self)@ }),
    {
        &mut self.transport
    }

    /// Captures an event with `fresh_id` as the identifier that it gets
    /// where it has none.
    pub fn capture_event_as(
        &mut self,
        event: Event,
        scope: Option<&Scope>,
        fresh_id: EventId,
        now: u64,
    ) -> (r: Option<EventId>)
        ensures
            (final(self)@, r) == after_capture(
                old(self)@,
                event@,
                opt_view(scope),
                fresh_id,
                now,
            ),
    {
        let draw = self.sampler.next_draw();
        if !should_keep(self.sample_rate, draw) {
            return None;
        }
        let mut event = event;
        match scope {
            Some(s) => {
                s.apply_to_event(&mut event, self.max_breadcrumbs);
            },
            None => {
                Scope::new().apply_to_event(&mut event, self.max_breadcrumbs);
            },
        }
        match run_integrations(&self.integrations, event) {
            None => None,
            Some(mut passed) => {
                let id = match passed.event_id {
                    Some(id) => id,
                    None => fresh_id,
                };
                passed.event_id = Some(id);
                let admission = self.transport.enqueue(passed, now);
                if admission.admitted {
                    Some(id)
                } else {
                    None
                }
            },
        }
    }

    /// Captures an event: merges the scope into it, applies the
    /// integrations, and offers what is left to the delivery queue. Returns
    /// the identifier of the event where the queue admitted it, and nothing
    /// where the event was dropped on the way. An event that has no
    /// identifier gets a random one, for which the system must have random
    /// bytes to give.
    pub fn capture_event(&mut self, event: Event, scope: Option<&Scope>, now: u64) -> (r: Option<
        EventId,
    >)
        ensures
            exists|fresh_id: EventId|
                is_random_id(fresh_id) && (final(self)@, r) == #[trigger] after_capture(
                    old(self)@,
                    event@,
                    opt_view(scope),
                    fresh_id,
                    now,
                ),
    {
        let fresh_id = random_event_id();
        self.capture_event_as(event, scope, fresh_id, now)
    }
}

} // verus!
