//! The proxy: its settings, its worker pool, its listeners and the decisions
//! of the acceptor that runs on each listener.
//!
//! The pool carries one acceptor per listener and nothing else; the two
//! workers of a connection run on threads of their own, so the number of
//! connections is not bounded by the pool. Sockets are bound, accepted and
//! connected by the program around this module, which reports here what
//! became of each attempt and is told what to do next.

use crate::configuration::config::Config;
use crate::servlet::request_metadata::RequestMetadata;
use crate::servlet::threading::thread_handler::{
    handler_type_named, HandlerKind, ThreadHandlerType,
};
use crate::text::{decimal_usize, parse_usize};
use crate::traffic::bindingset::{binding_rule_views, BindingRule, BindingRuleView, BindingSet};
use crate::unique::fresh_identifier;
use vstd::prelude::*;

verus! {

/// `rayon::ThreadPool`, the pool on which the acceptors run.
#[verifier::external_type_specification]
#[verifier::external_body]
pub struct ExThreadPool(rayon::ThreadPool);

/// `rayon::ThreadPoolBuildError`: the pool could not be started.
#[verifier::external_type_specification]
#[verifier::external_body]
pub struct ExThreadPoolBuildError(rayon::ThreadPoolBuildError);

/// The name of a thread of the pool: a fresh identifier, whatever its index.
pub fn worker_thread_name(index: usize) -> (name: String)
    ensures
        name@.len() == 36,
{
    fresh_identifier()
}

/// `rayon::ThreadPoolBuilder`: `new`, `num_threads`, `thread_name`, `build`.
/// The pool is asked for `threads` threads, each named by
/// [`worker_thread_name`]; with `0` the crate picks the number itself.
/// Whether the threads can be started is up to the system, so nothing is
/// claimed of the outcome.
#[verifier::external_body]
fn build_thread_pool(threads: usize) -> (pool: Result<
    rayon::ThreadPool,
    rayon::ThreadPoolBuildError,
>) {
    rayon::ThreadPoolBuilder::new().num_threads(threads).thread_name(worker_thread_name).build()
}

// ---- Settings ----
/// The size of the pool where the configuration names none.
pub const DEFAULT_THREAD_POOL_SIZE: usize = 50;

/// The key under which the configuration holds the size of the pool.
pub open spec fn thread_pool_size_key() -> Seq<char> {
    "thread_pool_size"@
}

/// The key under which the configuration holds the forwarding strategy.
pub open spec fn handler_type_key() -> Seq<char> {
    "thread_handler_type"@
}

/// The size of the pool that a configuration asks for: 50 where it names
/// none, else the number written, and `None` where what is written is not a
/// number.
pub open spec fn configured_pool_size(properties: Map<Seq<char>, Seq<char>>) -> Option<usize> {
    if properties.contains_key(thread_pool_size_key()) {
        decimal_usize(properties[thread_pool_size_key()])
    } else {
        Some(DEFAULT_THREAD_POOL_SIZE)
    }
}

/// The strategy that a configuration asks for: progressive where it names
/// none, else the one named, and capture for a name that is no strategy.
pub open spec fn configured_handler_type(properties: Map<Seq<char>, Seq<char>>)
    -> ThreadHandlerType {
    if properties.contains_key(handler_type_key()) {
        handler_type_named(properties[handler_type_key()])
    } else {
        ThreadHandlerType::PROGRESSIVE
    }
}

/// The defaults of the settings. A configuration without a pool size asks
/// for 50 threads; one without a strategy asks for the progressive one; a
/// strategy under any name but `PROGRESSIVE` is the capture strategy,
/// whether the name is `CAPTURE` or unknown; and no other key matters.
pub proof fn lemma_settings_defaults(properties: Map<Seq<char>, Seq<char>>)
    ensures
        !properties.contains_key(thread_pool_size_key()) ==> configured_pool_size(properties)
            == Some(50usize),
        !properties.contains_key(handler_type_key()) ==> configured_handler_type(properties)
            == ThreadHandlerType::PROGRESSIVE,
        properties.contains_key(handler_type_key()) && properties[handler_type_key()]
            != "PROGRESSIVE"@ ==> configured_handler_type(properties)
            == ThreadHandlerType::CAPTURE,
        properties.contains_key(handler_type_key()) && properties[handler_type_key()]
            == "PROGRESSIVE"@ ==> configured_handler_type(properties)
            == ThreadHandlerType::PROGRESSIVE,
        forall|key: Seq<char>, value: Seq<char>|
            key != thread_pool_size_key() && key != handler_type_key() ==> configured_pool_size(
                #[trigger] properties.insert(key, value),
            ) == configured_pool_size(properties) && configured_handler_type(
                properties.insert(key, value),
            ) == configured_handler_type(properties),
{
}

/// What a proxy takes from its configuration.
#[derive(Clone, Copy, Debug)]
pub struct ProxySettings {
    pub thread_pool_size: usize,
    pub thread_handler_type: ThreadHandlerType,
}

/// Why a proxy could not be made.
#[derive(Debug)]
pub enum ProxyError {
    /// The configured size of the pool is not a number.
    InvalidThreadPoolSize { value: String },
    /// The pool could not be started.
    ThreadPool(rayon::ThreadPoolBuildError),
}

// ---- Listeners ----
/// A listener that the proxy serves: its number and the binding it came
/// from. The socket itself belongs to the acceptor that runs on it.
#[derive(Debug)]
pub struct ListenerBinding {
    pub id: u64,
    pub rule: BindingRule,
}

/// A listener as plain values.
pub struct ListenerBindingView {
    pub id: u64,
    pub rule: BindingRuleView,
}

impl View for ListenerBinding {
    type V = ListenerBindingView;

    open spec fn view(&self) -> ListenerBindingView {
        ListenerBindingView { id: self.id, rule: self.rule@ }
    }
}

/// The views of a list of listeners, in order.
pub open spec fn listener_views(listeners: Seq<ListenerBinding>) -> Seq<ListenerBindingView> {
    Seq::new(listeners.len(), |i: int| listeners[i]@)
}

/// An acceptor to run on the pool: the listener's number, the place of its
/// binding in the set, and the strategy for its connections.
#[derive(Clone, Copy, PartialEq, Eq, Debug, Structural)]
pub struct AcceptorJob {
    pub listener_id: u64,
    pub binding: usize,
    pub handler_type: ThreadHandlerType,
}

/// Whether the binding at `place` was bound, by what is reported of the
/// bindings in their order. A binding of which nothing is reported counts as
/// not bound.
pub open spec fn was_bound(bound: Seq<bool>, place: int) -> bool {
    0 <= place < bound.len() && bound[place]
}

/// The listeners that come of the first `count` bindings, given which of
/// them could be bound: one for each binding that was bound, numbered from 0
/// in the order of the bindings. A binding that could not be bound is passed
/// over and changes nothing for the others.
pub open spec fn installed(bindings: Seq<BindingRuleView>, bound: Seq<bool>, count: nat) -> Seq<
    ListenerBindingView,
>
    decreases count,
{
    if count == 0 {
        Seq::empty()
    } else {
        let before = installed(bindings, bound, (count - 1) as nat);
        if was_bound(bound, count - 1) {
            before.push(ListenerBindingView { id: before.len() as u64, rule: bindings[count - 1] })
        } else {
            before
        }
    }
}

/// The acceptors that come of the first `count` bindings: one for each
/// listener of [`installed`], in the same order.
pub open spec fn acceptors(bound: Seq<bool>, handler_type: ThreadHandlerType, count: nat) -> Seq<
    AcceptorJob,
>
    decreases count,
{
    if count == 0 {
        Seq::empty()
    } else {
        let before = acceptors(bound, handler_type, (count - 1) as nat);
        if was_bound(bound, count - 1) {
            before.push(
                AcceptorJob {
                    listener_id: before.len() as u64,
                    binding: (count - 1) as usize,
                    handler_type,
                },
            )
        } else {
            before
        }
    }
}

/// There is one acceptor per listener, and never more listeners than
/// bindings.
pub proof fn lemma_one_acceptor_per_listener(
    bindings: Seq<BindingRuleView>,
    bound: Seq<bool>,
    handler_type: ThreadHandlerType,
    count: nat,
)
    ensures
        installed(bindings, bound, count).len() == acceptors(bound, handler_type, count).len(),
        installed(bindings, bound, count).len() <= count,
    decreases count,
{
    if count > 0 {
        lemma_one_acceptor_per_listener(bindings, bound, handler_type, (count - 1) as nat);
    }
}

/// The listener at place `place` carries the number `place`, and so does its
/// acceptor; it stands for the binding that the acceptor names, which is one
/// of the first `count` and was bound.
pub proof fn lemma_listener_at(
    bindings: Seq<BindingRuleView>,
    bound: Seq<bool>,
    handler_type: ThreadHandlerType,
    count: nat,
    place: int,
)
    requires
        count <= usize::MAX,
        0 <= place < installed(bindings, bound, count).len(),
    ensures
        place < acceptors(bound, handler_type, count).len(),
        installed(bindings, bound, count)[place].id == place,
        acceptors(bound, handler_type, count)[place].listener_id == place,
        acceptors(bound, handler_type, count)[place].handler_type == handler_type,
        0 <= acceptors(bound, handler_type, count)[place].binding < count,
        was_bound(bound, acceptors(bound, handler_type, count)[place].binding as int),
        installed(bindings, bound, count)[place].rule
            == bindings[acceptors(bound, handler_type, count)[place].binding as int],
    decreases count,
{
    lemma_one_acceptor_per_listener(bindings, bound, handler_type, count);
    if count > 0 {
        lemma_one_acceptor_per_listener(bindings, bound, handler_type, (count - 1) as nat);
        let before = installed(bindings, bound, (count - 1) as nat);
        if place < before.len() {
            lemma_listener_at(bindings, bound, handler_type, (count - 1) as nat, place);
        }
    }
}

/// Binding isolation. A binding that could be bound is served, whatever
/// became of the other bindings of the set: it has a listener and an
/// acceptor of its own.
pub proof fn lemma_binding_isolation(
    bindings: Seq<BindingRuleView>,
    bound: Seq<bool>,
    handler_type: ThreadHandlerType,
    served: int,
)
    requires
        bindings.len() <= usize::MAX,
        0 <= served < bindings.len(),
        was_bound(bound, served),
    ensures
        exists|j: int|
            0 <= j < installed(bindings, bound, bindings.len()).len() && (#[trigger] installed(
                bindings,
                bound,
                bindings.len(),
            )[j]).rule == bindings[served] && acceptors(bound, handler_type, bindings.len())[j]
                == (AcceptorJob { listener_id: j as u64, binding: served as usize, handler_type }),
{
    lemma_served_from(bindings, bound, handler_type, served, bindings.len());
}

/// The listener of a bound binding is there from the moment the binding was
/// reached, and stays at its place.
proof fn lemma_served_from(
    bindings: Seq<BindingRuleView>,
    bound: Seq<bool>,
    handler_type: ThreadHandlerType,
    served: int,
    count: nat,
)
    requires
        count <= usize::MAX,
        0 <= served < count,
        was_bound(bound, served),
    ensures
        exists|j: int|
            0 <= j < installed(bindings, bound, count).len() && (#[trigger] installed(
                bindings,
                bound,
                count,
            )[j]).rule == bindings[served] && acceptors(bound, handler_type, count)[j] == (
            AcceptorJob { listener_id: j as u64, binding: served as usize, handler_type }),
    decreases count,
{
    lemma_one_acceptor_per_listener(bindings, bound, handler_type, count);
    lemma_one_acceptor_per_listener(bindings, bound, handler_type, (count - 1) as nat);
    let before = installed(bindings, bound, (count - 1) as nat);
    let jobs_before = acceptors(bound, handler_type, (count - 1) as nat);
    if served == count - 1 {
        let j = before.len() as int;
        assert(installed(bindings, bound, count)[j].rule == bindings[served]);
        assert(acceptors(bound, handler_type, count)[j] == (AcceptorJob {
            listener_id: j as u64,
            binding: served as usize,
            handler_type,
        }));
    } else {
        lemma_served_from(bindings, bound, handler_type, served, (count - 1) as nat);
        let j = choose|j: int|
            0 <= j < before.len() && (#[trigger] before[j]).rule == bindings[served]
                && jobs_before[j] == (AcceptorJob {
                listener_id: j as u64,
                binding: served as usize,
                handler_type,
            });
        assert(installed(bindings, bound, count)[j] == before[j]);
        assert(acceptors(bound, handler_type, count)[j] == jobs_before[j]);
    }
}

/// What `start` hands back: the number of bindings in the set, for the log,
/// and the acceptors to run.
#[derive(Debug)]
pub struct StartReport {
    pub binding_count: usize,
    pub jobs: Vec<AcceptorJob>,
}

/// The address that stands for a name, and how many further addresses the
/// name resolved to.
#[derive(Debug)]
pub struct Resolution<A> {
    pub address: A,
    pub alternatives: usize,
}

// ---- The acceptor ----
/// What an acceptor is waiting for.
#[derive(Clone, Copy, PartialEq, Eq, Debug, Structural)]
pub enum AcceptorPhase {
    /// For a client to be accepted.
    Accepting,
    /// For the connection to the upstream.
    Connecting,
    /// For the second handle of each of the two sockets.
    Cloning,
}

/// What became of the acceptor's last action.
#[derive(Clone, Copy, PartialEq, Eq, Debug, Structural)]
pub enum AcceptorEvent {
    Accepted,
    AcceptFailed,
    Connected,
    ConnectFailed,
    Cloned,
    CloneFailed,
}

/// What an acceptor does next.
#[derive(Debug)]
pub enum AcceptorAction {
    /// Accept the next client.
    Accept,
    /// Connect to the upstream of the binding.
    Connect,
    /// Take a second handle of the client's socket and of the upstream's.
    CloneStreams,
    /// Start the two workers of the connection on threads of their own, with
    /// this metadata shared between them, then accept the next client.
    Dispatch { forward: HandlerKind, backward: HandlerKind, metadata: RequestMetadata },
    /// Close what is held of the connection, then accept the next client.
    Abandon,
}

/// What an acceptor does next, without the metadata of a dispatch.
pub enum AcceptorDecision {
    Accept,
    Connect,
    CloneStreams,
    Dispatch { forward: HandlerKind, backward: HandlerKind },
    Abandon,
}

impl AcceptorAction {
    /// The decision that the action carries out.
    pub open spec fn decision(self) -> AcceptorDecision {
        match self {
            AcceptorAction::Accept => AcceptorDecision::Accept,
            AcceptorAction::Connect => AcceptorDecision::Connect,
            AcceptorAction::CloneStreams => AcceptorDecision::CloneStreams,
            AcceptorAction::Dispatch { forward, backward, .. } => AcceptorDecision::Dispatch {
                forward,
                backward,
            },
            AcceptorAction::Abandon => AcceptorDecision::Abandon,
        }
    }
}

/// The worker for what the client sends, under a strategy.
pub open spec fn forward_kind(handler_type: ThreadHandlerType) -> HandlerKind {
    match handler_type {
        ThreadHandlerType::CAPTURE => HandlerKind::ForwardCapture,
        ThreadHandlerType::PROGRESSIVE => HandlerKind::ForwardProgressive,
    }
}

/// The worker for what the upstream sends back, under a strategy.
pub open spec fn backward_kind(handler_type: ThreadHandlerType) -> HandlerKind {
    match handler_type {
        ThreadHandlerType::CAPTURE => HandlerKind::BackwardCapture,
        ThreadHandlerType::PROGRESSIVE => HandlerKind::BackwardProgressive,
    }
}

/// The step of an acceptor.
///
/// A client accepted is connected to the upstream; once connected, the
/// sockets are cloned; once cloned, the two workers of the strategy are
/// dispatched. A client that cannot be accepted is passed over. A connection
/// whose upstream refuses, or whose sockets cannot be cloned, is abandoned.
/// In every case the acceptor goes on to accept.
pub open spec fn acceptor_step(
    phase: AcceptorPhase,
    event: AcceptorEvent,
    handler_type: ThreadHandlerType,
) -> (AcceptorPhase, AcceptorDecision) {
    match (phase, event) {
        (AcceptorPhase::Accepting, AcceptorEvent::Accepted) => (
            AcceptorPhase::Connecting,
            AcceptorDecision::Connect,
        ),
        (AcceptorPhase::Accepting, _) => (AcceptorPhase::Accepting, AcceptorDecision::Accept),
        (AcceptorPhase::Connecting, AcceptorEvent::Connected) => (
            AcceptorPhase::Cloning,
            AcceptorDecision::CloneStreams,
        ),
        (AcceptorPhase::Cloning, AcceptorEvent::Cloned) => (
            AcceptorPhase::Accepting,
            AcceptorDecision::Dispatch {
                forward: forward_kind(handler_type),
                backward: backward_kind(handler_type),
            },
        ),
        _ => (AcceptorPhase::Accepting, AcceptorDecision::Abandon),
    }
}

/// No failure stops an acceptor: after an event that is a failure, it is
/// accepting again, and it has dispatched nothing.
pub proof fn lemma_acceptor_recovers(
    phase: AcceptorPhase,
    event: AcceptorEvent,
    handler_type: ThreadHandlerType,
)
    requires
        event == AcceptorEvent::AcceptFailed || event == AcceptorEvent::ConnectFailed || event
            == AcceptorEvent::CloneFailed,
    ensures
        acceptor_step(phase, event, handler_type).0 == AcceptorPhase::Accepting,
        !(acceptor_step(phase, event, handler_type).1 is Dispatch),
        phase != AcceptorPhase::Accepting ==> acceptor_step(phase, event, handler_type).1
            is Abandon,
{
}

// ---- The proxy ----
/// A proxy: the strategy for its connections, its pool, and the listeners it
/// serves.
pub struct Proxy {
    pub thread_handler_type: ThreadHandlerType,
    /// The number of threads that the pool was asked for.
    pub thread_pool_size: usize,
    pub thread_pool: rayon::ThreadPool,
    pub listeners: Vec<ListenerBinding>,
}

impl Proxy {
    /// What the configuration asks for. The size of the pool is read under
    /// `thread_pool_size` and defaults to 50; the strategy is read under
    /// `thread_handler_type` and defaults to progressive. A size that is
    /// not a decimal number is refused.
    pub fn settings(configuration: &Config) -> (settings: Result<ProxySettings, ProxyError>)
        ensures
            match configured_pool_size(configuration@.properties) {
                Some(size) => settings is Ok && settings->Ok_0.thread_pool_size == size
                    && settings->Ok_0.thread_handler_type == configured_handler_type(
                    configuration@.properties,
                ),
                None => settings matches Err(ProxyError::InvalidThreadPoolSize { value })
                    && value@ == configuration@.properties[thread_pool_size_key()],
            },
    {
        let thread_pool_size: usize = match configuration.properties.get("thread_pool_size") {
            None => DEFAULT_THREAD_POOL_SIZE,
            Some(text) => match parse_usize(text.as_str()) {
                Some(size) => size,
                None => {
                    return Err(ProxyError::InvalidThreadPoolSize { value: text.clone() });
                },
            },
        };
        let thread_handler_type = match configuration.properties.get("thread_handler_type") {
            None => ThreadHandlerType::PROGRESSIVE,
            Some(text) => match ThreadHandlerType::from_str(text.as_str()) {
                Ok(handler_type) => handler_type,
                Err(_) => ThreadHandlerType::CAPTURE,
            },
        };
        Ok(ProxySettings { thread_pool_size, thread_handler_type })
    }

    /// The proxy that comes of its settings and of the attempt to start its
    /// pool: it serves no listener yet.
    pub fn with_pool(
        settings: ProxySettings,
        pool: Result<rayon::ThreadPool, rayon::ThreadPoolBuildError>,
    ) -> (proxy: Result<Proxy, ProxyError>)
        ensures
            match pool {
                Ok(thread_pool) => proxy is Ok && proxy->Ok_0.thread_pool == thread_pool
                    && proxy->Ok_0.thread_handler_type == settings.thread_handler_type
                    && proxy->Ok_0.thread_pool_size == settings.thread_pool_size
                    && proxy->Ok_0.listeners@.len() == 0,
                Err(error) => proxy matches Err(ProxyError::ThreadPool(cause)) && cause == error,
            },
    {
        match pool {
            Ok(thread_pool) => Ok(
                Proxy {
                    thread_handler_type: settings.thread_handler_type,
                    thread_pool_size: settings.thread_pool_size,
                    thread_pool,
                    listeners: Vec::new(),
                },
            ),
            Err(error) => Err(ProxyError::ThreadPool(error)),
        }
    }

    /// A proxy for the configuration: its settings are those of
    /// [`Proxy::settings`], its pool is asked for as many threads as they
    /// say, and it serves no listener yet. It fails where the settings are
    /// refused, and else only where the pool cannot be started.
    pub fn new(configuration: Config) -> (proxy: Result<Proxy, ProxyError>)
        ensures
            match proxy {
                Ok(made) => configured_pool_size(configuration@.properties) == Some(
                    made.thread_pool_size,
                ) && made.thread_handler_type == configured_handler_type(
                    configuration@.properties,
                ) && made.listeners@.len() == 0,
                Err(ProxyError::InvalidThreadPoolSize { value }) => configured_pool_size(
                    configuration@.properties,
                ) is None && value@ == configuration@.properties[thread_pool_size_key()],
                Err(ProxyError::ThreadPool(_)) => configured_pool_size(configuration@.properties)
                    is Some,
            },
    {
        match Proxy::settings(&configuration) {
            Err(error) => Err(error),
            Ok(settings) => Proxy::with_pool(
                settings,
                build_thread_pool(settings.thread_pool_size),
            ),
        }
    }

    /// Takes note of the listeners of a binding set. `bound` says of each
    /// binding, in the order of the set, whether its address was resolved
    /// and bound; a binding of which it says nothing counts as not bound.
    /// Each binding that was bound gets a listener, numbered from 0 in the
    /// order of the set, and an acceptor with the proxy's strategy; a
    /// binding that was not bound is passed over.
    pub fn initialize_bindings(&mut self, rule_set: BindingSet, bound: &Vec<bool>) -> (jobs: Vec<
        AcceptorJob,
    >)
        ensures
            listener_views(final(self).listeners@) == listener_views(old(self).listeners@)
                + installed(rule_set@.bindings, bound@, rule_set@.bindings.len()),
            jobs@ == acceptors(
                bound@,
                old(self).thread_handler_type,
                rule_set@.bindings.len(),
            ),
            final(self).thread_handler_type == old(self).thread_handler_type,
            final(self).thread_pool_size == old(self).thread_pool_size,
            final(self).thread_pool == old(self).thread_pool,
    {
        let handler_type: ThreadHandlerType = self.thread_handler_type;
        let ghost bindings = rule_set@.bindings;
        let ghost before = listener_views(self.listeners@);
        let rules = rule_set.bindings.into_vec();
        assert(rules@.len() == bindings.len());
        let total: usize = rules.len();
        let mut jobs: Vec<AcceptorJob> = Vec::new();
        let mut incremental_listener_id: u64 = 0;
        let mut position: usize = 0;
        assert(listener_views(self.listeners@) =~= before + installed(bindings, bound@, 0));
        for rule in it: rules.into_iter()
            invariant
                it.seq() == rules@,
                binding_rule_views(rules@) == bindings,
                rules@.len() == bindings.len(),
                total == rules@.len(),
                position == it.index(),
                self.thread_handler_type == handler_type,
                self.thread_pool_size == old(self).thread_pool_size,
                self.thread_pool == old(self).thread_pool,
                listener_views(self.listeners@) == before + installed(
                    bindings,
                    bound@,
                    position as nat,
                ),
                jobs@ == acceptors(bound@, handler_type, position as nat),
                incremental_listener_id == jobs@.len(),
        {
            proof {
                assert(position < rules@.len());
                lemma_one_acceptor_per_listener(bindings, bound@, handler_type, position as nat);
                assert(bindings[position as int] == rule@);
            }
            if position < bound.len() && bound[position] {
                let ghost held = listener_views(self.listeners@);
                let ghost added = ListenerBindingView { id: incremental_listener_id, rule: rule@ };
                self.listeners.push(ListenerBinding { id: incremental_listener_id, rule });
                assert(listener_views(self.listeners@) =~= held.push(added));
                assert(held.push(added) =~= before + installed(
                    bindings,
                    bound@,
                    position as nat,
                ).push(added));
                jobs.push(
                    AcceptorJob {
                        listener_id: incremental_listener_id,
                        binding: position,
                        handler_type,
                    },
                );
                incremental_listener_id = incremental_listener_id + 1;
            }
            position = position + 1;
        }
        jobs
    }

    /// The address that a name is taken to: the first of those it resolved
    /// to, or none where it resolved to nothing. The others are counted, to
    /// be logged.
    pub fn resolve_binding_address<A>(candidates: Vec<A>) -> (resolution: Option<Resolution<A>>)
        ensures
            match resolution {
                None => candidates@.len() == 0,
                Some(chosen) => candidates@.len() > 0 && chosen.address == candidates@[0]
                    && chosen.alternatives == candidates@.len() - 1,
            },
    {
        let mut candidates = candidates;
        let count = candidates.len();
        if count == 0 {
            None
        } else {
            let address = candidates.swap_remove(0);
            Some(Resolution { address, alternatives: count - 1 })
        }
    }

    /// The step of the acceptor of one listener: what to do after `event`,
    /// for connections that are served with `handler_type`. A connection
    /// that is dispatched gets metadata of its own, with a fresh identifier
    /// and nothing stamped or counted.
    pub fn invoke_acceptor_handler(
        phase: &mut AcceptorPhase,
        event: AcceptorEvent,
        handler_type: ThreadHandlerType,
    ) -> (action: AcceptorAction)
        ensures
            *final(phase) == acceptor_step(*old(phase), event, handler_type).0,
            action.decision() == acceptor_step(*old(phase), event, handler_type).1,
            action matches AcceptorAction::Dispatch { metadata, .. } ==> metadata.request_start
                == 0 && metadata.response_end == 0 && metadata.response_packet_count == 0,
    {
        match (*phase, event) {
            (AcceptorPhase::Accepting, AcceptorEvent::Accepted) => {
                *phase = AcceptorPhase::Connecting;
                AcceptorAction::Connect
            },
            (AcceptorPhase::Accepting, _) => AcceptorAction::Accept,
            (AcceptorPhase::Connecting, AcceptorEvent::Connected) => {
                *phase = AcceptorPhase::Cloning;
                AcceptorAction::CloneStreams
            },
            (AcceptorPhase::Cloning, AcceptorEvent::Cloned) => {
                *phase = AcceptorPhase::Accepting;
                AcceptorAction::Dispatch {
                    forward: handler_type.forward_handler(),
                    backward: handler_type.backward_handler(),
                    metadata: RequestMetadata::new(),
                }
            },
            _ => {
                *phase = AcceptorPhase::Accepting;
                AcceptorAction::Abandon
            },
        }
    }

    /// Starts the proxy on a binding set: takes note of its listeners as
    /// [`Proxy::initialize_bindings`] does, and hands back the acceptors to
    /// run together with the number of bindings in the set. Whoever runs the
    /// acceptors stays parked afterwards: listeners are never closed.
    pub fn start(&mut self, binding_set: BindingSet, bound: &Vec<bool>) -> (report: StartReport)
        ensures
            report.binding_count == binding_set@.bindings.len(),
            report.jobs@ == acceptors(
                bound@,
                old(self).thread_handler_type,
                binding_set@.bindings.len(),
            ),
            listener_views(final(self).listeners@) == listener_views(old(self).listeners@)
                + installed(binding_set@.bindings, bound@, binding_set@.bindings.len()),
            final(self).thread_handler_type == old(self).thread_handler_type,
            final(self).thread_pool_size == old(self).thread_pool_size,
            final(self).thread_pool == old(self).thread_pool,
    {
        let binding_count: usize = binding_set.bindings.len();
        let jobs = self.initialize_bindings(binding_set, bound);
        StartReport { binding_count, jobs }
    }
}

} // verus!
