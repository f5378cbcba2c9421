use vstd::prelude::*;

use std::collections::HashMap;

use crate::correlator::CalloutCorrelator;
use crate::error::FatalError;
use crate::traits::{
    Context, HttpContext, HttpFactory, RootContext, RootFactory, StreamContext, StreamFactory,
};
use crate::types::{Action, ContextType, PeerType};

verus! {

broadcast use vstd::std_specs::hash::group_hash_axioms;

/// What the root table holds under one id: the handler a configured factory
/// produced, or the built-in handler that accepts and ignores every event,
/// used when no root factory was configured.
pub enum RootEntry<R> {
    User(R),
    Noop,
}

/// The abstract state of a dispatcher: which ids are live in which of the
/// three handler tables and under which handler, which factories are
/// configured, which context is current, and which callout tokens are
/// outstanding.
#[verifier::ext_equal]
pub struct DispatcherModel<R, S, H> {
    pub has_root_factory: bool,
    pub has_stream_factory: bool,
    pub has_http_factory: bool,
    pub roots: Map<u32, RootEntry<R>>,
    pub streams: Map<u32, S>,
    pub https: Map<u32, H>,
    pub active_context_id: u32,
    pub callouts: Map<u32, u32>,
}

impl<R, S, H> DispatcherModel<R, S, H> {
    /// The ids currently owned by any of the three tables.
    pub open spec fn live(self) -> Set<u32> {
        self.roots.dom().union(self.streams.dom()).union(self.https.dom())
    }

    /// No id is owned by two tables at once.
    pub open spec fn wf(self) -> bool {
        &&& self.roots.dom().disjoint(self.streams.dom())
        &&& self.roots.dom().disjoint(self.https.dom())
        &&& self.streams.dom().disjoint(self.https.dom())
    }

    /// The two states have the same factories configured.
    pub open spec fn same_config(self, other: Self) -> bool {
        &&& other.has_root_factory == self.has_root_factory
        &&& other.has_stream_factory == self.has_stream_factory
        &&& other.has_http_factory == self.has_http_factory
    }

}

/// One event was routed to the HTTP handler owning `id`: that handler may
/// have changed, everything else is as before, and `id` became current.
pub open spec fn routed_http<R, S, H>(
    pre: DispatcherModel<R, S, H>,
    post: DispatcherModel<R, S, H>,
    id: u32,
) -> bool {
    &&& pre.https.contains_key(id)
    &&& post.https.dom() == pre.https.dom()
    &&& (forall|k: u32| #![auto] k != id && pre.https.contains_key(k) ==> post.https[k] == pre.https[k])
    &&& post.roots == pre.roots
    &&& post.streams == pre.streams
    &&& post.callouts == pre.callouts
    &&& post.active_context_id == id
    &&& pre.same_config(post)
}

/// One event was routed to the stream handler owning `id`.
pub open spec fn routed_stream<R, S, H>(
    pre: DispatcherModel<R, S, H>,
    post: DispatcherModel<R, S, H>,
    id: u32,
) -> bool {
    &&& pre.streams.contains_key(id)
    &&& post.streams.dom() == pre.streams.dom()
    &&& (forall|k: u32| #![auto]
        k != id && pre.streams.contains_key(k) ==> post.streams[k] == pre.streams[k])
    &&& post.roots == pre.roots
    &&& post.https == pre.https
    &&& post.callouts == pre.callouts
    &&& post.active_context_id == id
    &&& pre.same_config(post)
}

/// One event was routed to the root handler owning `id`.
pub open spec fn routed_root<R, S, H>(
    pre: DispatcherModel<R, S, H>,
    post: DispatcherModel<R, S, H>,
    id: u32,
) -> bool {
    &&& pre.roots.contains_key(id)
    &&& post.roots.dom() == pre.roots.dom()
    &&& (forall|k: u32| #![auto] k != id && pre.roots.contains_key(k) ==> post.roots[k] == pre.roots[k])
    &&& post.streams == pre.streams
    &&& post.https == pre.https
    &&& post.callouts == pre.callouts
    &&& post.active_context_id == id
    &&& pre.same_config(post)
}

/// One event was routed to whichever table owns `id`, probing the HTTP
/// table, then the stream table, then the root table.
pub open spec fn routed<R, S, H>(
    pre: DispatcherModel<R, S, H>,
    post: DispatcherModel<R, S, H>,
    id: u32,
) -> bool {
    if pre.https.contains_key(id) {
        routed_http(pre, post, id)
    } else if pre.streams.contains_key(id) {
        routed_stream(pre, post, id)
    } else {
        routed_root(pre, post, id)
    }
}

/// A context was created: `id` entered exactly one table, chosen by the
/// construction strategy, and nothing else changed.  When `parent` is zero
/// the new context is a root; when no root factory is configured the root
/// table gains the built-in no-op handler.  Otherwise `parent` must already
/// be a registered root; a configured HTTP factory takes precedence, then a
/// configured stream factory, and only then the parent root synthesizes the
/// child itself (which may change the parent's own entry).
pub open spec fn created<R, S, H>(
    pre: DispatcherModel<R, S, H>,
    post: DispatcherModel<R, S, H>,
    id: u32,
    parent: u32,
) -> bool {
    &&& !pre.live().contains(id)
    &&& post.active_context_id == pre.active_context_id
    &&& post.callouts == pre.callouts
    &&& pre.same_config(post)
    &&& if parent == 0 {
        &&& post.roots.dom() == pre.roots.dom().insert(id)
        &&& (forall|k: u32| #![auto]
            k != id && pre.roots.contains_key(k) ==> post.roots[k] == pre.roots[k])
        &&& (!pre.has_root_factory ==> post.roots[id] == RootEntry::<R>::Noop)
        &&& post.streams == pre.streams
        &&& post.https == pre.https
    } else {
        &&& pre.roots.contains_key(parent)
        &&& post.roots.dom() == pre.roots.dom()
        &&& (forall|k: u32| #![auto]
            k != parent && pre.roots.contains_key(k) ==> post.roots[k] == pre.roots[k])
        &&& ((pre.has_http_factory || pre.has_stream_factory) ==> post.roots == pre.roots)
        &&& if pre.has_http_factory {
            &&& post.https.dom() == pre.https.dom().insert(id)
            &&& (forall|k: u32| #![auto]
                k != id && pre.https.contains_key(k) ==> post.https[k] == pre.https[k])
            &&& post.streams == pre.streams
        } else if pre.has_stream_factory {
            &&& post.streams.dom() == pre.streams.dom().insert(id)
            &&& (forall|k: u32| #![auto]
                k != id && pre.streams.contains_key(k) ==> post.streams[k] == pre.streams[k])
            &&& post.https == pre.https
        } else {
            ||| {
                &&& post.https.dom() == pre.https.dom().insert(id)
                &&& (forall|k: u32| #![auto]
                    k != id && pre.https.contains_key(k) ==> post.https[k] == pre.https[k])
                &&& post.streams == pre.streams
            }
            ||| {
                &&& post.streams.dom() == pre.streams.dom().insert(id)
                &&& (forall|k: u32| #![auto]
                    k != id && pre.streams.contains_key(k) ==> post.streams[k] == pre.streams[k])
                &&& post.https == pre.https
            }
        }
    }
}

/// Construction reached the parent root's ad-hoc synthesis and failed
/// there: no table gained or lost an id, but the parent root's entry may
/// have changed while it was being consulted.
pub open spec fn create_stopped_at_root<R, S, H>(
    pre: DispatcherModel<R, S, H>,
    post: DispatcherModel<R, S, H>,
    parent: u32,
) -> bool {
    &&& pre.roots.contains_key(parent)
    &&& !pre.has_http_factory
    &&& !pre.has_stream_factory
    &&& post.roots.dom() == pre.roots.dom()
    &&& (forall|k: u32| #![auto]
        k != parent && pre.roots.contains_key(k) ==> post.roots[k] == pre.roots[k])
    &&& post.streams == pre.streams
    &&& post.https == pre.https
    &&& post.callouts == pre.callouts
    &&& post.active_context_id == pre.active_context_id
    &&& pre.same_config(post)
}

/// The state after deleting `id`: it is removed from whichever table held
/// it.  Outstanding callouts of the deleted context stay registered; their
/// responses are dropped when they arrive.
pub open spec fn deleted<R, S, H>(
    m: DispatcherModel<R, S, H>,
    id: u32,
) -> DispatcherModel<R, S, H> {
    DispatcherModel {
        roots: m.roots.remove(id),
        streams: m.streams.remove(id),
        https: m.https.remove(id),
        ..m
    }
}

/// `id` is owned by exactly one of the three handler tables.
pub open spec fn in_exactly_one_table<R, S, H>(m: DispatcherModel<R, S, H>, id: u32) -> bool {
    ||| (m.roots.contains_key(id) && !m.streams.contains_key(id) && !m.https.contains_key(id))
    ||| (!m.roots.contains_key(id) && m.streams.contains_key(id) && !m.https.contains_key(id))
    ||| (!m.roots.contains_key(id) && !m.streams.contains_key(id) && m.https.contains_key(id))
}

/// One successful creation keeps the registry invariant: the new id is
/// live in exactly one table, every id live before is still live, and no
/// other id appeared.
pub proof fn lemma_created_preserves_uniqueness<R, S, H>(
    pre: DispatcherModel<R, S, H>,
    post: DispatcherModel<R, S, H>,
    id: u32,
    parent: u32,
)
    requires
        pre.wf(),
        created(pre, post, id, parent),
    ensures
        post.wf(),
        post.live() == pre.live().insert(id),
        in_exactly_one_table(post, id),
        forall|k: u32| #![auto]
            pre.live().contains(k) && in_exactly_one_table(pre, k) && k != id
                ==> in_exactly_one_table(post, k),
{
    assert(post.live() =~= pre.live().insert(id));
}

/// The ids that a sequence of creation events introduces.
pub open spec fn created_ids(events: Seq<(u32, u32)>) -> Set<u32>
    decreases events.len(),
{
    if events.len() == 0 {
        Set::empty()
    } else {
        created_ids(events.drop_last()).insert(events.last().0)
    }
}

/// A run of successful creation events: `states` has one more entry than
/// `events`, and each event takes its state to the next one.  Each event
/// pairs the new id with its parent id.
pub open spec fn creation_trace<R, S, H>(
    states: Seq<DispatcherModel<R, S, H>>,
    events: Seq<(u32, u32)>,
) -> bool {
    &&& states.len() == events.len() + 1
    &&& (forall|i: int| #![auto]
        0 <= i < events.len() ==> created(states[i], states[i + 1], events[i].0, events[i].1))
}

/// After any sequence of successful creation events (each child
/// referencing an already-registered root, as `created` demands), exactly
/// one handler exists per created id, in exactly one table: the live ids
/// are the initial ones plus the created ones, and no id is owned by two
/// tables.
pub proof fn lemma_creation_sequence_unique_ownership<R, S, H>(
    states: Seq<DispatcherModel<R, S, H>>,
    events: Seq<(u32, u32)>,
)
    requires
        states[0].wf(),
        creation_trace(states, events),
    ensures
        states.last().wf(),
        states.last().live() == states[0].live().union(created_ids(events)),
        forall|id: u32| #![auto]
            states.last().live().contains(id) ==> in_exactly_one_table(states.last(), id),
    decreases events.len(),
{
    if events.len() == 0 {
        assert(states.last() == states[0]);
        assert(states.last().live() =~= states[0].live().union(created_ids(events)));
    } else {
        let shorter = states.drop_last();
        assert(creation_trace(shorter, events.drop_last()));
        lemma_creation_sequence_unique_ownership(shorter, events.drop_last());
        assert(shorter.last() == states[states.len() - 2]);
        assert(created(
            states[events.len() - 1],
            states[events.len() as int],
            events.last().0,
            events.last().1,
        ));
        lemma_created_preserves_uniqueness(
            shorter.last(),
            states.last(),
            events.last().0,
            events.last().1,
        );
        assert(states.last().live() =~= states[0].live().union(created_ids(events)));
    }
    assert forall|id: u32| #![auto] states.last().live().contains(id) implies in_exactly_one_table(
        states.last(),
        id,
    ) by {
        lemma_live_in_exactly_one_table(states.last(), id);
    }
}

/// In a well-formed state, a live id is owned by exactly one table.
pub proof fn lemma_live_in_exactly_one_table<R, S, H>(m: DispatcherModel<R, S, H>, id: u32)
    requires
        m.wf(),
        m.live().contains(id),
    ensures
        in_exactly_one_table(m, id),
{
}

/// A configured global HTTP factory takes precedence over everything the
/// parent root offers: a successfully created child then enters the HTTP
/// table and no other.
pub proof fn lemma_http_factory_takes_precedence<R, S, H>(
    pre: DispatcherModel<R, S, H>,
    post: DispatcherModel<R, S, H>,
    id: u32,
    parent: u32,
)
    requires
        pre.wf(),
        created(pre, post, id, parent),
        parent != 0,
        pre.has_http_factory,
    ensures
        post.https.contains_key(id),
        !post.streams.contains_key(id),
        !post.roots.contains_key(id),
{
}

/// Deletion is not idempotent by design: after a deletion of `id` the id
/// is live in no table, so a second deletion of the same id must fail.
pub proof fn lemma_second_delete_fatal<R, S, H>(m: DispatcherModel<R, S, H>, id: u32)
    ensures
        !deleted(m, id).live().contains(id),
{
}

/// The process-wide context dispatcher of one execution unit.  It owns the
/// three handler tables, the optional global factories, the id of the
/// context currently being served, and the callout correlation table.
pub struct Dispatcher<S, H, R, RF, SF, HF> where
    S: StreamContext,
    H: HttpContext,
    R: RootContext<S, H>,
    RF: RootFactory<R>,
    SF: StreamFactory<S>,
    HF: HttpFactory<H>,
 {
    new_root: Option<RF>,
    new_stream: Option<SF>,
    new_http: Option<HF>,
    roots: HashMap<u32, RootEntry<R>>,
    streams: HashMap<u32, S>,
    https: HashMap<u32, H>,
    active_id: u32,
    callouts: CalloutCorrelator,
}

impl<S, H, R, RF, SF, HF> View for Dispatcher<S, H, R, RF, SF, HF> where
    S: StreamContext,
    H: HttpContext,
    R: RootContext<S, H>,
    RF: RootFactory<R>,
    SF: StreamFactory<S>,
    HF: HttpFactory<H>,
 {
    type V = DispatcherModel<R, S, H>;

    closed spec fn view(&self) -> DispatcherModel<R, S, H> {
        DispatcherModel {
            has_root_factory: self.new_root is Some,
            has_stream_factory: self.new_stream is Some,
            has_http_factory: self.new_http is Some,
            roots: self.roots@,
            streams: self.streams@,
            https: self.https@,
            active_context_id: self.active_id,
            callouts: self.callouts@,
        }
    }
}

impl<S, H, R, RF, SF, HF> Dispatcher<S, H, R, RF, SF, HF> where
    S: StreamContext,
    H: HttpContext,
    R: RootContext<S, H>,
    RF: RootFactory<R>,
    SF: StreamFactory<S>,
    HF: HttpFactory<H>,
 {
    /// A dispatcher with no live context, no configured factory and no
    /// outstanding callout; the current context id starts at zero.
    pub fn new() -> (d: Self)
        ensures
            d@.wf(),
            !d@.has_root_factory,
            !d@.has_stream_factory,
            !d@.has_http_factory,
            d@.roots == Map::<u32, RootEntry<R>>::empty(),
            d@.streams == Map::<u32, S>::empty(),
            d@.https == Map::<u32, H>::empty(),
            d@.callouts == Map::<u32, u32>::empty(),
            d@.active_context_id == 0,
    {
        Dispatcher {
            new_root: None,
            new_stream: None,
            new_http: None,
            roots: HashMap::new(),
            streams: HashMap::new(),
            https: HashMap::new(),
            active_id: 0,
            callouts: CalloutCorrelator::new(),
        }
    }

    /// Configures the factory for new root contexts.
    pub fn set_root_context(&mut self, factory: RF)
        ensures
            final(self)@ == (DispatcherModel { has_root_factory: true, ..old(self)@ }),
    {
        self.new_root = Some(factory);
    }

    /// Configures the global factory for new stream child contexts.
    pub fn set_stream_context(&mut self, factory: SF)
        ensures
            final(self)@ == (DispatcherModel { has_stream_factory: true, ..old(self)@ }),
    {
        self.new_stream = Some(factory);
    }

    /// Configures the global factory for new HTTP child contexts.
    pub fn set_http_context(&mut self, factory: HF)
        ensures
            final(self)@ == (DispatcherModel { has_http_factory: true, ..old(self)@ }),
    {
        self.new_http = Some(factory);
    }

    /// The id the host currently considers current for ambient outbound
    /// calls.
    pub fn active_context_id(&self) -> (id: u32)
        ensures
            id == self@.active_context_id,
    {
        self.active_id
    }

    /// Whether some table owns `context_id`.
    pub fn contains_context(&self, context_id: u32) -> (b: bool)
        ensures
            b == self@.live().contains(context_id),
    {
        self.https.contains_key(&context_id) || self.streams.contains_key(&context_id)
            || self.roots.contains_key(&context_id)
    }

    /// Whether the root table owns `context_id`.
    pub fn is_root_context(&self, context_id: u32) -> (b: bool)
        ensures
            b == self@.roots.contains_key(context_id),
    {
        self.roots.contains_key(&context_id)
    }

    /// Whether the stream table owns `context_id`.
    pub fn is_stream_context(&self, context_id: u32) -> (b: bool)
        ensures
            b == self@.streams.contains_key(context_id),
    {
        self.streams.contains_key(&context_id)
    }

    /// Whether the HTTP table owns `context_id`.
    pub fn is_http_context(&self, context_id: u32) -> (b: bool)
        ensures
            b == self@.https.contains_key(context_id),
    {
        self.https.contains_key(&context_id)
    }

    /// Whether the correlation table still holds `token_id`.
    pub fn has_outstanding_callout(&self, token_id: u32) -> (b: bool)
        ensures
            b == self@.callouts.contains_key(token_id),
    {
        self.callouts.is_outstanding(token_id)
    }

    /// Creates the context `context_id` and registers its handler.  When
    /// `root_context_id` is zero the new context is a root; otherwise it is
    /// a child of that root, built by the first applicable strategy: the
    /// global HTTP factory, the global stream factory, then ad-hoc
    /// synthesis by the parent root (HTTP first, then stream, and last the
    /// kind the root announces).  Every unresolved branch is a fatal
    /// contract violation.
    pub fn on_create_context(&mut self, context_id: u32, root_context_id: u32) -> (r: Result<
        (),
        FatalError,
    >)
        requires
            old(self)@.wf(),
        ensures
            final(self)@.wf(),
            r is Ok ==> created(old(self)@, final(self)@, context_id, root_context_id),
            old(self)@.live().contains(context_id) <==> r == Err::<(), FatalError>(
                FatalError::DuplicateContextId { context_id },
            ),
            (!old(self)@.live().contains(context_id) && root_context_id == 0) ==> r is Ok,
            (!old(self)@.live().contains(context_id) && root_context_id != 0 && !old(
                self,
            )@.roots.contains_key(root_context_id)) <==> r == Err::<(), FatalError>(
                FatalError::InvalidRootContextId { root_context_id },
            ),
            (!old(self)@.live().contains(context_id) && root_context_id != 0 && old(
                self,
            )@.roots.contains_key(root_context_id) && (old(self)@.has_http_factory || old(
                self,
            )@.has_stream_factory)) ==> r is Ok,
            r matches Err(e) ==> match e {
                FatalError::DuplicateContextId { context_id: c } => c == context_id && final(self)@ == old(self)@,
                FatalError::InvalidRootContextId { root_context_id: p } => p == root_context_id
                    && final(self)@ == old(self)@,
                FatalError::MissingContextType { root_context_id: p } => p == root_context_id
                    && !old(self)@.live().contains(context_id) && create_stopped_at_root(
                    old(self)@,
                    final(self)@,
                    root_context_id,
                ),
                FatalError::HttpChildDeclined { context_id: c } => c == context_id && !old(
                    self,
                )@.live().contains(context_id) && create_stopped_at_root(
                    old(self)@,
                    final(self)@,
                    root_context_id,
                ),
                FatalError::StreamChildDeclined { context_id: c } => c == context_id && !old(
                    self,
                )@.live().contains(context_id) && create_stopped_at_root(
                    old(self)@,
                    final(self)@,
                    root_context_id,
                ),
                _ => false,
            },
    {
        if self.contains_context(context_id) {
            return Err(FatalError::DuplicateContextId { context_id });
        }
        if root_context_id == 0 {
            let mut taken_root: Option<RF> = None;
            core::mem::swap(&mut self.new_root, &mut taken_root);
            let entry = match taken_root {
                Some(mut factory) => {
                    let root = factory.new_root_context(context_id);
                    self.new_root = Some(factory);
                    RootEntry::User(root)
                },
                None => RootEntry::Noop,
            };
            self.roots.insert(context_id, entry);
            proof {
                assert(self@.roots.dom() =~= old(self)@.roots.dom().insert(context_id));
            }
            return Ok(());
        }
        if !self.roots.contains_key(&root_context_id) {
            return Err(FatalError::InvalidRootContextId { root_context_id });
        }
        let mut taken_http: Option<HF> = None;
        core::mem::swap(&mut self.new_http, &mut taken_http);
        match taken_http {
            Some(mut factory) => {
                let handler = factory.new_http_context(context_id, root_context_id);
                self.new_http = Some(factory);
                self.https.insert(context_id, handler);
                proof {
                    assert(self@.https.dom() =~= old(self)@.https.dom().insert(context_id));
                }
                return Ok(());
            },
            None => {},
        }
        let mut taken_stream: Option<SF> = None;
        core::mem::swap(&mut self.new_stream, &mut taken_stream);
        match taken_stream {
            Some(mut factory) => {
                let handler = factory.new_stream_context(context_id, root_context_id);
                self.new_stream = Some(factory);
                self.streams.insert(context_id, handler);
                proof {
                    assert(self@.streams.dom() =~= old(self)@.streams.dom().insert(context_id));
                }
                return Ok(());
            },
            None => {},
        }
        let taken_slot = self.roots.remove(&root_context_id);
        match taken_slot {
            Some(slot) => match slot {
                RootEntry::Noop => {
                    self.roots.insert(root_context_id, RootEntry::Noop);
                    proof {
                        assert(self@.roots.dom() =~= old(self)@.roots.dom());
                    }
                    Err(FatalError::MissingContextType { root_context_id })
                },
                RootEntry::User(mut root) => {
                    match root.create_http_context(context_id) {
                        Some(handler) => {
                            self.roots.insert(root_context_id, RootEntry::User(root));
                            self.https.insert(context_id, handler);
                            proof {
                                assert(self@.roots.dom() =~= old(self)@.roots.dom());
                                assert(self@.https.dom() =~= old(self)@.https.dom().insert(
                                    context_id,
                                ));
                            }
                            Ok(())
                        },
                        None => match root.create_stream_context(context_id) {
                            Some(handler) => {
                                self.roots.insert(root_context_id, RootEntry::User(root));
                                self.streams.insert(context_id, handler);
                                proof {
                                    assert(self@.roots.dom() =~= old(self)@.roots.dom());
                                    assert(self@.streams.dom() =~= old(self)@.streams.dom().insert(
                                        context_id,
                                    ));
                                }
                                Ok(())
                            },
                            None => match root.get_type() {
                                Some(ContextType::HttpContext) => {
                                    match root.create_http_context(context_id) {
                                        Some(handler) => {
                                            self.roots.insert(
                                                root_context_id,
                                                RootEntry::User(root),
                                            );
                                            self.https.insert(context_id, handler);
                                            proof {
                                                assert(self@.roots.dom() =~= old(
                                                    self,
                                                )@.roots.dom());
                                                assert(self@.https.dom() =~= old(
                                                    self,
                                                )@.https.dom().insert(context_id));
                                            }
                                            Ok(())
                                        },
                                        None => {
                                            self.roots.insert(
                                                root_context_id,
                                                RootEntry::User(root),
                                            );
                                            proof {
                                                assert(self@.roots.dom() =~= old(
                                                    self,
                                                )@.roots.dom());
                                            }
                                            Err(FatalError::HttpChildDeclined { context_id })
                                        },
                                    }
                                },
                                Some(ContextType::StreamContext) => {
                                    match root.create_stream_context(context_id) {
                                        Some(handler) => {
                                            self.roots.insert(
                                                root_context_id,
                                                RootEntry::User(root),
                                            );
                                            self.streams.insert(context_id, handler);
                                            proof {
                                                assert(self@.roots.dom() =~= old(
                                                    self,
                                                )@.roots.dom());
                                                assert(self@.streams.dom() =~= old(
                                                    self,
                                                )@.streams.dom().insert(context_id));
                                            }
                                            Ok(())
                                        },
                                        None => {
                                            self.roots.insert(
                                                root_context_id,
                                                RootEntry::User(root),
                                            );
                                            proof {
                                                assert(self@.roots.dom() =~= old(
                                                    self,
                                                )@.roots.dom());
                                            }
                                            Err(FatalError::StreamChildDeclined { context_id })
                                        },
                                    }
                                },
                                None => {
                                    self.roots.insert(root_context_id, RootEntry::User(root));
                                    proof {
                                        assert(self@.roots.dom() =~= old(self)@.roots.dom());
                                    }
                                    Err(FatalError::MissingContextType { root_context_id })
                                },
                            },
                        },
                    }
                },
            },
            None => {
                proof {
                    assert(false);
                }
                Err(FatalError::InvalidRootContextId { root_context_id })
            },
        }
    }

    /// Routes a vm-start event to the root handler owning `context_id`.
    pub fn on_vm_start(&mut self, context_id: u32, vm_configuration_size: usize) -> (r: Result<
        bool,
        FatalError,
    >)
        requires
            old(self)@.wf(),
        ensures
            final(self)@.wf(),
            r is Ok <==> old(self)@.roots.contains_key(context_id),
            r is Ok ==> routed_root(old(self)@, final(self)@, context_id),
            r is Err ==> final(self)@ == old(self)@ && r == Err::<bool, FatalError>(
                FatalError::InvalidContextId { context_id },
            ),
    {
        match self.roots.remove(&context_id) {
            Some(slot) => {
                self.active_id = context_id;
                let outcome = match slot {
                    RootEntry::User(mut root) => {
                        let b = root.on_vm_start(vm_configuration_size);
                        (RootEntry::User(root), b)
                    },
                    RootEntry::Noop => (RootEntry::Noop, true),
                };
                let (slot_back, result) = outcome;
                self.roots.insert(context_id, slot_back);
                proof {
                    assert(self@.roots.dom() =~= old(self)@.roots.dom());
                }
                Ok(result)
            },
            None => {
                proof {
                    assert(self@.roots =~= old(self)@.roots);
                    assert(self@ =~= old(self)@);
                }
                Err(FatalError::InvalidContextId { context_id })
            },
        }
    }

    /// Routes a plugin-configuration event to the root handler owning
    /// `context_id`.
    pub fn on_configure(&mut self, context_id: u32, plugin_configuration_size: usize) -> (r: Result<
        bool,
        FatalError,
    >)
        requires
            old(self)@.wf(),
        ensures
            final(self)@.wf(),
            r is Ok <==> old(self)@.roots.contains_key(context_id),
            r is Ok ==> routed_root(old(self)@, final(self)@, context_id),
            r is Err ==> final(self)@ == old(self)@ && r == Err::<bool, FatalError>(
                FatalError::InvalidContextId { context_id },
            ),
    {
        match self.roots.remove(&context_id) {
            Some(slot) => {
                self.active_id = context_id;
                let outcome = match slot {
                    RootEntry::User(mut root) => {
                        let b = root.on_configure(plugin_configuration_size);
                        (RootEntry::User(root), b)
                    },
                    RootEntry::Noop => (RootEntry::Noop, true),
                };
                let (slot_back, result) = outcome;
                self.roots.insert(context_id, slot_back);
                proof {
                    assert(self@.roots.dom() =~= old(self)@.roots.dom());
                }
                Ok(result)
            },
            None => {
                proof {
                    assert(self@.roots =~= old(self)@.roots);
                    assert(self@ =~= old(self)@);
                }
                Err(FatalError::InvalidContextId { context_id })
            },
        }
    }

    /// Routes a timer-tick event to the root handler owning `context_id`.
    pub fn on_tick(&mut self, context_id: u32) -> (r: Result<(), FatalError>)
        requires
            old(self)@.wf(),
        ensures
            final(self)@.wf(),
            r is Ok <==> old(self)@.roots.contains_key(context_id),
            r is Ok ==> routed_root(old(self)@, final(self)@, context_id),
            r is Err ==> final(self)@ == old(self)@ && r == Err::<(), FatalError>(
                FatalError::InvalidContextId { context_id },
            ),
    {
        match self.roots.remove(&context_id) {
            Some(slot) => {
                self.active_id = context_id;
                let slot_back = match slot {
                    RootEntry::User(mut root) => {
                        root.on_tick();
                        RootEntry::User(root)
                    },
                    RootEntry::Noop => RootEntry::Noop,
                };
                self.roots.insert(context_id, slot_back);
                proof {
                    assert(self@.roots.dom() =~= old(self)@.roots.dom());
                }
                Ok(())
            },
            None => {
                proof {
                    assert(self@.roots =~= old(self)@.roots);
                    assert(self@ =~= old(self)@);
                }
                Err(FatalError::InvalidContextId { context_id })
            },
        }
    }

    /// Routes a queue-ready event to the root handler owning `context_id`.
    pub fn on_queue_ready(&mut self, context_id: u32, queue_id: u32) -> (r: Result<(), FatalError>)
        requires
            old(self)@.wf(),
        ensures
            final(self)@.wf(),
            r is Ok <==> old(self)@.roots.contains_key(context_id),
            r is Ok ==> routed_root(old(self)@, final(self)@, context_id),
            r is Err ==> final(self)@ == old(self)@ && r == Err::<(), FatalError>(
                FatalError::InvalidContextId { context_id },
            ),
    {
        match self.roots.remove(&context_id) {
            Some(slot) => {
                self.active_id = context_id;
                let slot_back = match slot {
                    RootEntry::User(mut root) => {
                        root.on_queue_ready(queue_id);
                        RootEntry::User(root)
                    },
                    RootEntry::Noop => RootEntry::Noop,
                };
                self.roots.insert(context_id, slot_back);
                proof {
                    assert(self@.roots.dom() =~= old(self)@.roots.dom());
                }
                Ok(())
            },
            None => {
                proof {
                    assert(self@.roots =~= old(self)@.roots);
                    assert(self@ =~= old(self)@);
                }
                Err(FatalError::InvalidContextId { context_id })
            },
        }
    }

    /// Routes a new-connection event to the stream handler owning `context_id`.
    pub fn on_new_connection(&mut self, context_id: u32) -> (r: Result<Action, FatalError>)
        requires
            old(self)@.wf(),
        ensures
            final(self)@.wf(),
            r is Ok <==> old(self)@.streams.contains_key(context_id),
            r is Ok ==> routed_stream(old(self)@, final(self)@, context_id),
            r is Err ==> final(self)@ == old(self)@ && r == Err::<Action, FatalError>(
                FatalError::InvalidContextId { context_id },
            ),
    {
        match self.streams.remove(&context_id) {
            Some(mut stream) => {
                self.active_id = context_id;
                let result = stream.on_new_connection();
                self.streams.insert(context_id, stream);
                proof {
                    assert(self@.streams.dom() =~= old(self)@.streams.dom());
                }
                Ok(result)
            },
            None => {
                proof {
                    assert(self@.streams =~= old(self)@.streams);
                    assert(self@ =~= old(self)@);
                }
                Err(FatalError::InvalidContextId { context_id })
            },
        }
    }

    /// Routes a downstream-data event to the stream handler owning `context_id`.
    pub fn on_downstream_data(&mut self, context_id: u32, data_size: usize, end_of_stream: bool) -> (r: Result<Action, FatalError>)
        requires
            old(self)@.wf(),
        ensures
            final(self)@.wf(),
            r is Ok <==> old(self)@.streams.contains_key(context_id),
            r is Ok ==> routed_stream(old(self)@, final(self)@, context_id),
            r is Err ==> final(self)@ == old(self)@ && r == Err::<Action, FatalError>(
                FatalError::InvalidContextId { context_id },
            ),
    {
        match self.streams.remove(&context_id) {
            Some(mut stream) => {
                self.active_id = context_id;
                let result = stream.on_downstream_data(data_size, end_of_stream);
                self.streams.insert(context_id, stream);
                proof {
                    assert(self@.streams.dom() =~= old(self)@.streams.dom());
                }
                Ok(result)
            },
            None => {
                proof {
                    assert(self@.streams =~= old(self)@.streams);
                    assert(self@ =~= old(self)@);
                }
                Err(FatalError::InvalidContextId { context_id })
            },
        }
    }

    /// Routes a downstream-close event to the stream handler owning `context_id`.
    pub fn on_downstream_close(&mut self, context_id: u32, peer_type: PeerType) -> (r: Result<(), FatalError>)
        requires
            old(self)@.wf(),
        ensures
            final(self)@.wf(),
            r is Ok <==> old(self)@.streams.contains_key(context_id),
            r is Ok ==> routed_stream(old(self)@, final(self)@, context_id),
            r is Err ==> final(self)@ == old(self)@ && r == Err::<(), FatalError>(
                FatalError::InvalidContextId { context_id },
            ),
    {
        match self.streams.remove(&context_id) {
            Some(mut stream) => {
                self.active_id = context_id;
                let result = stream.on_downstream_close(peer_type);
                self.streams.insert(context_id, stream);
                proof {
                    assert(self@.streams.dom() =~= old(self)@.streams.dom());
                }
                Ok(result)
            },
            None => {
                proof {
                    assert(self@.streams =~= old(self)@.streams);
                    assert(self@ =~= old(self)@);
                }
                Err(FatalError::InvalidContextId { context_id })
            },
        }
    }

    /// Routes an upstream-data event to the stream handler owning `context_id`.
    pub fn on_upstream_data(&mut self, context_id: u32, data_size: usize, end_of_stream: bool) -> (r: Result<Action, FatalError>)
        requires
            old(self)@.wf(),
        ensures
            final(self)@.wf(),
            r is Ok <==> old(self)@.streams.contains_key(context_id),
            r is Ok ==> routed_stream(old(self)@, final(self)@, context_id),
            r is Err ==> final(self)@ == old(self)@ && r == Err::<Action, FatalError>(
                FatalError::InvalidContextId { context_id },
            ),
    {
        match self.streams.remove(&context_id) {
            Some(mut stream) => {
                self.active_id = context_id;
                let result = stream.on_upstream_data(data_size, end_of_stream);
                self.streams.insert(context_id, stream);
                proof {
                    assert(self@.streams.dom() =~= old(self)@.streams.dom());
                }
                Ok(result)
            },
            None => {
                proof {
                    assert(self@.streams =~= old(self)@.streams);
                    assert(self@ =~= old(self)@);
                }
                Err(FatalError::InvalidContextId { context_id })
            },
        }
    }

    /// Routes an upstream-close event to the stream handler owning `context_id`.
    pub fn on_upstream_close(&mut self, context_id: u32, peer_type: PeerType) -> (r: Result<(), FatalError>)
        requires
            old(self)@.wf(),
        ensures
            final(self)@.wf(),
            r is Ok <==> old(self)@.streams.contains_key(context_id),
            r is Ok ==> routed_stream(old(self)@, final(self)@, context_id),
            r is Err ==> final(self)@ == old(self)@ && r == Err::<(), FatalError>(
                FatalError::InvalidContextId { context_id },
            ),
    {
        match self.streams.remove(&context_id) {
            Some(mut stream) => {
                self.active_id = context_id;
                let result = stream.on_upstream_close(peer_type);
                self.streams.insert(context_id, stream);
                proof {
                    assert(self@.streams.dom() =~= old(self)@.streams.dom());
                }
                Ok(result)
            },
            None => {
                proof {
                    assert(self@.streams =~= old(self)@.streams);
                    assert(self@ =~= old(self)@);
                }
                Err(FatalError::InvalidContextId { context_id })
            },
        }
    }

    /// Routes a request-headers event to the HTTP handler owning `context_id`.
    pub fn on_http_request_headers(&mut self, context_id: u32, num_headers: usize, end_of_stream: bool) -> (r: Result<Action, FatalError>)
        requires
            old(self)@.wf(),
        ensures
            final(self)@.wf(),
            r is Ok <==> old(self)@.https.contains_key(context_id),
            r is Ok ==> routed_http(old(self)@, final(self)@, context_id),
            r is Err ==> final(self)@ == old(self)@ && r == Err::<Action, FatalError>(
                FatalError::InvalidContextId { context_id },
            ),
    {
        match self.https.remove(&context_id) {
            Some(mut http) => {
                self.active_id = context_id;
                let result = http.on_http_request_headers(num_headers, end_of_stream);
                self.https.insert(context_id, http);
                proof {
                    assert(self@.https.dom() =~= old(self)@.https.dom());
                }
                Ok(result)
            },
            None => {
                proof {
                    assert(self@.https =~= old(self)@.https);
                    assert(self@ =~= old(self)@);
                }
                Err(FatalError::InvalidContextId { context_id })
            },
        }
    }

    /// Routes a request-body event to the HTTP handler owning `context_id`.
    pub fn on_http_request_body(&mut self, context_id: u32, body_size: usize, end_of_stream: bool) -> (r: Result<Action, FatalError>)
        requires
            old(self)@.wf(),
        ensures
            final(self)@.wf(),
            r is Ok <==> old(self)@.https.contains_key(context_id),
            r is Ok ==> routed_http(old(self)@, final(self)@, context_id),
            r is Err ==> final(self)@ == old(self)@ && r == Err::<Action, FatalError>(
                FatalError::InvalidContextId { context_id },
            ),
    {
        match self.https.remove(&context_id) {
            Some(mut http) => {
                self.active_id = context_id;
                let result = http.on_http_request_body(body_size, end_of_stream);
                self.https.insert(context_id, http);
                proof {
                    assert(self@.https.dom() =~= old(self)@.https.dom());
                }
                Ok(result)
            },
            None => {
                proof {
                    assert(self@.https =~= old(self)@.https);
                    assert(self@ =~= old(self)@);
                }
                Err(FatalError::InvalidContextId { context_id })
            },
        }
    }

    /// Routes a request-trailers event to the HTTP handler owning `context_id`.
    pub fn on_http_request_trailers(&mut self, context_id: u32, num_trailers: usize) -> (r: Result<Action, FatalError>)
        requires
            old(self)@.wf(),
        ensures
            final(self)@.wf(),
            r is Ok <==> old(self)@.https.contains_key(context_id),
            r is Ok ==> routed_http(old(self)@, final(self)@, context_id),
            r is Err ==> final(self)@ == old(self)@ && r == Err::<Action, FatalError>(
                FatalError::InvalidContextId { context_id },
            ),
    {
        match self.https.remove(&context_id) {
            Some(mut http) => {
                self.active_id = context_id;
                let result = http.on_http_request_trailers(num_trailers);
                self.https.insert(context_id, http);
                proof {
                    assert(self@.https.dom() =~= old(self)@.https.dom());
                }
                Ok(result)
            },
            None => {
                proof {
                    assert(self@.https =~= old(self)@.https);
                    assert(self@ =~= old(self)@);
                }
                Err(FatalError::InvalidContextId { context_id })
            },
        }
    }

    /// Routes a response-headers event to the HTTP handler owning `context_id`.
    pub fn on_http_response_headers(&mut self, context_id: u32, num_headers: usize, end_of_stream: bool) -> (r: Result<Action, FatalError>)
        requires
            old(self)@.wf(),
        ensures
            final(self)@.wf(),
            r is Ok <==> old(self)@.https.contains_key(context_id),
            r is Ok ==> routed_http(old(self)@, final(self)@, context_id),
            r is Err ==> final(self)@ == old(self)@ && r == Err::<Action, FatalError>(
                FatalError::InvalidContextId { context_id },
            ),
    {
        match self.https.remove(&context_id) {
            Some(mut http) => {
                self.active_id = context_id;
                let result = http.on_http_response_headers(num_headers, end_of_stream);
                self.https.insert(context_id, http);
                proof {
                    assert(self@.https.dom() =~= old(self)@.https.dom());
                }
                Ok(result)
            },
            None => {
                proof {
                    assert(self@.https =~= old(self)@.https);
                    assert(self@ =~= old(self)@);
                }
                Err(FatalError::InvalidContextId { context_id })
            },
        }
    }

    /// Routes a response-body event to the HTTP handler owning `context_id`.
    pub fn on_http_response_body(&mut self, context_id: u32, body_size: usize, end_of_stream: bool) -> (r: Result<Action, FatalError>)
        requires
            old(self)@.wf(),
        ensures
            final(self)@.wf(),
            r is Ok <==> old(self)@.https.contains_key(context_id),
            r is Ok ==> routed_http(old(self)@, final(self)@, context_id),
            r is Err ==> final(self)@ == old(self)@ && r == Err::<Action, FatalError>(
                FatalError::InvalidContextId { context_id },
            ),
    {
        match self.https.remove(&context_id) {
            Some(mut http) => {
                self.active_id = context_id;
                let result = http.on_http_response_body(body_size, end_of_stream);
                self.https.insert(context_id, http);
                proof {
                    assert(self@.https.dom() =~= old(self)@.https.dom());
                }
                Ok(result)
            },
            None => {
                proof {
                    assert(self@.https =~= old(self)@.https);
                    assert(self@ =~= old(self)@);
                }
                Err(FatalError::InvalidContextId { context_id })
            },
        }
    }

    /// Routes a response-trailers event to the HTTP handler owning `context_id`.
    pub fn on_http_response_trailers(&mut self, context_id: u32, num_trailers: usize) -> (r: Result<Action, FatalError>)
        requires
            old(self)@.wf(),
        ensures
            final(self)@.wf(),
            r is Ok <==> old(self)@.https.contains_key(context_id),
            r is Ok ==> routed_http(old(self)@, final(self)@, context_id),
            r is Err ==> final(self)@ == old(self)@ && r == Err::<Action, FatalError>(
                FatalError::InvalidContextId { context_id },
            ),
    {
        match self.https.remove(&context_id) {
            Some(mut http) => {
                self.active_id = context_id;
                let result = http.on_http_response_trailers(num_trailers);
                self.https.insert(context_id, http);
                proof {
                    assert(self@.https.dom() =~= old(self)@.https.dom());
                }
                Ok(result)
            },
            None => {
                proof {
                    assert(self@.https =~= old(self)@.https);
                    assert(self@ =~= old(self)@);
                }
                Err(FatalError::InvalidContextId { context_id })
            },
        }
    }

    /// Routes the done notification to whichever handler owns `context_id`, probing the
    /// HTTP table, then the stream table, then the root table.
    pub fn on_done(&mut self, context_id: u32) -> (r: Result<bool, FatalError>)
        requires
            old(self)@.wf(),
        ensures
            final(self)@.wf(),
            r is Ok <==> old(self)@.live().contains(context_id),
            r is Ok ==> routed(old(self)@, final(self)@, context_id),
            r is Err ==> final(self)@ == old(self)@ && r == Err::<bool, FatalError>(
                FatalError::InvalidContextId { context_id },
            ),
    {
        match self.https.remove(&context_id) {
            Some(mut http) => {
                self.active_id = context_id;
                let result = http.on_done();
                self.https.insert(context_id, http);
                proof {
                    assert(self@.https.dom() =~= old(self)@.https.dom());
                }
                return Ok(result);
            },
            None => {},
        }
        proof {
            assert(self@.https =~= old(self)@.https);
        }
        match self.streams.remove(&context_id) {
            Some(mut stream) => {
                self.active_id = context_id;
                let result = stream.on_done();
                self.streams.insert(context_id, stream);
                proof {
                    assert(self@.streams.dom() =~= old(self)@.streams.dom());
                }
                return Ok(result);
            },
            None => {},
        }
        proof {
            assert(self@.streams =~= old(self)@.streams);
        }
        match self.roots.remove(&context_id) {
            Some(slot) => {
                self.active_id = context_id;
                let outcome = match slot {
                    RootEntry::User(mut root) => {
                        let result = root.on_done();
                        (RootEntry::User(root), result)
                    },
                    RootEntry::Noop => (RootEntry::Noop, true),
                };
                let (slot_back, result) = outcome;
                self.roots.insert(context_id, slot_back);
                proof {
                    assert(self@.roots.dom() =~= old(self)@.roots.dom());
                }
                Ok(result)
            },
            None => {
                proof {
                    assert(self@.roots =~= old(self)@.roots);
                    assert(self@ =~= old(self)@);
                }
                Err(FatalError::InvalidContextId { context_id })
            },
        }
    }

    /// Routes the final log event to whichever handler owns `context_id`, probing the
    /// HTTP table, then the stream table, then the root table.
    pub fn on_log(&mut self, context_id: u32) -> (r: Result<(), FatalError>)
        requires
            old(self)@.wf(),
        ensures
            final(self)@.wf(),
            r is Ok <==> old(self)@.live().contains(context_id),
            r is Ok ==> routed(old(self)@, final(self)@, context_id),
            r is Err ==> final(self)@ == old(self)@ && r == Err::<(), FatalError>(
                FatalError::InvalidContextId { context_id },
            ),
    {
        match self.https.remove(&context_id) {
            Some(mut http) => {
                self.active_id = context_id;
                let result = http.on_log();
                self.https.insert(context_id, http);
                proof {
                    assert(self@.https.dom() =~= old(self)@.https.dom());
                }
                return Ok(result);
            },
            None => {},
        }
        proof {
            assert(self@.https =~= old(self)@.https);
        }
        match self.streams.remove(&context_id) {
            Some(mut stream) => {
                self.active_id = context_id;
                let result = stream.on_log();
                self.streams.insert(context_id, stream);
                proof {
                    assert(self@.streams.dom() =~= old(self)@.streams.dom());
                }
                return Ok(result);
            },
            None => {},
        }
        proof {
            assert(self@.streams =~= old(self)@.streams);
        }
        match self.roots.remove(&context_id) {
            Some(slot) => {
                self.active_id = context_id;
                let outcome = match slot {
                    RootEntry::User(mut root) => {
                        let result = root.on_log();
                        (RootEntry::User(root), result)
                    },
                    RootEntry::Noop => (RootEntry::Noop, ()),
                };
                let (slot_back, result) = outcome;
                self.roots.insert(context_id, slot_back);
                proof {
                    assert(self@.roots.dom() =~= old(self)@.roots.dom());
                }
                Ok(result)
            },
            None => {
                proof {
                    assert(self@.roots =~= old(self)@.roots);
                    assert(self@ =~= old(self)@);
                }
                Err(FatalError::InvalidContextId { context_id })
            },
        }
    }

    /// Deletes the context `context_id`, removing it from whichever table
    /// holds it.  Deleting an id that is live in no table is a fatal
    /// contract violation; outstanding callouts of the deleted context stay
    /// registered, and their responses are dropped when they arrive.
    pub fn on_delete(&mut self, context_id: u32) -> (r: Result<(), FatalError>)
        requires
            old(self)@.wf(),
        ensures
            final(self)@.wf(),
            r is Ok <==> old(self)@.live().contains(context_id),
            r is Ok ==> final(self)@ == deleted(old(self)@, context_id),
            r is Err ==> final(self)@ == old(self)@ && r == Err::<(), FatalError>(
                FatalError::InvalidContextId { context_id },
            ),
    {
        match self.https.remove(&context_id) {
            Some(_handler) => {
                proof {
                    assert(self@.roots =~= old(self)@.roots.remove(context_id));
                    assert(self@.streams =~= old(self)@.streams.remove(context_id));
                    assert(self@ =~= deleted(old(self)@, context_id));
                }
                return Ok(());
            },
            None => {},
        }
        match self.streams.remove(&context_id) {
            Some(_handler) => {
                proof {
                    assert(self@.roots =~= old(self)@.roots.remove(context_id));
                    assert(self@.https =~= old(self)@.https.remove(context_id));
                    assert(self@ =~= deleted(old(self)@, context_id));
                }
                return Ok(());
            },
            None => {},
        }
        match self.roots.remove(&context_id) {
            Some(_slot) => {
                proof {
                    assert(self@.streams =~= old(self)@.streams.remove(context_id));
                    assert(self@.https =~= old(self)@.https.remove(context_id));
                    assert(self@ =~= deleted(old(self)@, context_id));
                }
                Ok(())
            },
            None => {
                proof {
                    assert(self@.roots =~= old(self)@.roots);
                    assert(self@.streams =~= old(self)@.streams);
                    assert(self@.https =~= old(self)@.https);
                    assert(self@ =~= old(self)@);
                }
                Err(FatalError::InvalidContextId { context_id })
            },
        }
    }

    /// Records that the currently active context issued the outbound call
    /// the host answered with `token_id`.
    pub fn register_callout(&mut self, token_id: u32) -> (r: Result<(), FatalError>)
        requires
            old(self)@.wf(),
        ensures
            final(self)@.wf(),
            r is Ok <==> !old(self)@.callouts.contains_key(token_id),
            r is Ok ==> final(self)@ == (DispatcherModel {
                callouts: old(self)@.callouts.insert(token_id, old(self)@.active_context_id),
                ..old(self)@
            }),
            r is Err ==> final(self)@ == old(self)@ && r == Err::<(), FatalError>(
                FatalError::DuplicateToken { token_id },
            ),
    {
        match self.callouts.register(token_id, self.active_id) {
            Ok(unit) => {
                proof {
                    assert(self@ =~= (DispatcherModel {
                        callouts: old(self)@.callouts.insert(
                            token_id,
                            old(self)@.active_context_id,
                        ),
                        ..old(self)@
                    }));
                }
                Ok(unit)
            },
            Err(e) => {
                proof {
                    assert(self@ =~= old(self)@);
                }
                Err(e)
            },
        }
    }

    /// Consumes the correlation entry of `token_id` when its response
    /// event arrives.  Returns the owning context id when that context is
    /// still live; returns nothing when the context was deleted while the
    /// call was outstanding, in which case the response is to be dropped
    /// silently.  An unknown token is a fatal contract violation.
    pub fn resolve_callout(&mut self, token_id: u32) -> (r: Result<Option<u32>, FatalError>)
        requires
            old(self)@.wf(),
        ensures
            final(self)@.wf(),
            r is Ok <==> old(self)@.callouts.contains_key(token_id),
            r is Ok ==> final(self)@ == (DispatcherModel {
                callouts: old(self)@.callouts.remove(token_id),
                ..old(self)@
            }),
            r matches Ok(resolved) ==> match resolved {
                Some(context_id) => context_id == old(self)@.callouts[token_id] && old(
                    self,
                )@.live().contains(context_id),
                None => !old(self)@.live().contains(old(self)@.callouts[token_id]),
            },
            r is Err ==> final(self)@ == old(self)@ && r == Err::<Option<u32>, FatalError>(
                FatalError::UnknownToken { token_id },
            ),
    {
        match self.callouts.resolve_and_consume(token_id) {
            Ok(context_id) => {
                proof {
                    assert(self@ =~= (DispatcherModel {
                        callouts: old(self)@.callouts.remove(token_id),
                        ..old(self)@
                    }));
                }
                if self.contains_context(context_id) {
                    Ok(Some(context_id))
                } else {
                    Ok(None)
                }
            },
            Err(e) => {
                proof {
                    assert(self@ =~= old(self)@);
                }
                Err(e)
            },
        }
    }

    /// Forwards a callout response to whichever handler owns `context_id`,
    /// after the correlation entry was consumed with `resolve_callout` and
    /// the host was told that `context_id` is the effective context.
    /// Returns whether a handler was invoked; a context deleted while the
    /// call was outstanding yields no delivery and no error.
    pub fn deliver_http_call_response(
        &mut self,
        context_id: u32,
        token_id: u32,
        num_headers: usize,
        body_size: usize,
        num_trailers: usize,
    ) -> (delivered: bool)
        requires
            old(self)@.wf(),
        ensures
            final(self)@.wf(),
            delivered <==> old(self)@.live().contains(context_id),
            delivered ==> routed(old(self)@, final(self)@, context_id),
            !delivered ==> final(self)@ == old(self)@,
    {
        match self.https.remove(&context_id) {
            Some(mut http) => {
                self.active_id = context_id;
                http.on_http_call_response(token_id, num_headers, body_size, num_trailers);
                self.https.insert(context_id, http);
                proof {
                    assert(self@.https.dom() =~= old(self)@.https.dom());
                }
                return true;
            },
            None => {},
        }
        proof {
            assert(self@.https =~= old(self)@.https);
        }
        match self.streams.remove(&context_id) {
            Some(mut stream) => {
                self.active_id = context_id;
                stream.on_http_call_response(token_id, num_headers, body_size, num_trailers);
                self.streams.insert(context_id, stream);
                proof {
                    assert(self@.streams.dom() =~= old(self)@.streams.dom());
                }
                return true;
            },
            None => {},
        }
        proof {
            assert(self@.streams =~= old(self)@.streams);
        }
        match self.roots.remove(&context_id) {
            Some(slot) => {
                self.active_id = context_id;
                let slot_back = match slot {
                    RootEntry::User(mut root) => {
                        root.on_http_call_response(token_id, num_headers, body_size, num_trailers);
                        RootEntry::User(root)
                    },
                    RootEntry::Noop => RootEntry::Noop,
                };
                self.roots.insert(context_id, slot_back);
                proof {
                    assert(self@.roots.dom() =~= old(self)@.roots.dom());
                }
                true
            },
            None => {
                proof {
                    assert(self@.roots =~= old(self)@.roots);
                    assert(self@ =~= old(self)@);
                }
                false
            },
        }
    }
}

} // verus!
