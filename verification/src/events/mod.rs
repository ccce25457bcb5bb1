//! The event system. Events wait in a first-in, first-out queue (or are
//! delivered at once in immediate mode); listeners subscribe to a kind of
//! event by its name and are numbered in subscription order. The system
//! decides which listeners receive which event in which order; calling the
//! listeners' code is left to the caller.
use vstd::prelude::*;
use crate::collections::{owned, StrMap};

verus! {

/// An event: every event has a kind, named by `event_name`.
pub trait Event {
    /// The kind of the event.
    spec fn kind(&self) -> Seq<char>;

    /// The name of the event's kind.
    fn event_name(&self) -> (r: &'static str)
        ensures
            r@ == self.kind();
}

/// Something that reacts to events of type `T`.
pub trait EventHandler<T> {
    /// Whether the handler can take `event` now.
    spec fn accepts(&self, event: &T) -> bool;

    /// Reacts to `event`.
    fn handle(&mut self, event: &T)
        requires
            old(self).accepts(event);
}

/// A handler made of a function.
pub struct FunctionHandler<F> {
    handler: F,
}

impl<F> FunctionHandler<F> {
    /// The function.
    pub closed spec fn function(&self) -> F {
        self.handler
    }

    /// The handler that calls `handler`.
    pub fn new(handler: F) -> (r: FunctionHandler<F>)
        ensures
            r.function() == handler,
    {
        FunctionHandler { handler }
    }
}

impl<T, F: Fn(&T)> EventHandler<T> for FunctionHandler<F> {
    open spec fn accepts(&self, event: &T) -> bool {
        call_requires(self.function(), (event,))
    }

    /// Calls the function with `event`; the handler keeps its function.
    fn handle(&mut self, event: &T)
        ensures
            final(self).function() == old(self).function(),
            call_ensures(old(self).function(), (event,), ()),
    {
        (self.handler)(event);
    }
}

/// The window was resized.
#[derive(Debug, Clone, Copy, PartialEq, Eq, Structural)]
pub struct WindowResizedEvent {
    pub width: u32,
    pub height: u32,
}

impl Event for WindowResizedEvent {
    open spec fn kind(&self) -> Seq<char> {
        "WindowResized"@
    }

    fn event_name(&self) -> (r: &'static str) {
        "WindowResized"
    }
}

/// The window was closed.
#[derive(Debug, Clone, Copy, PartialEq, Eq, Structural)]
pub struct WindowClosedEvent;

impl Event for WindowClosedEvent {
    open spec fn kind(&self) -> Seq<char> {
        "WindowClosed"@
    }

    fn event_name(&self) -> (r: &'static str) {
        "WindowClosed"
    }
}

/// A key went down (`repeat` when the platform repeats a held key).
#[derive(Debug, Clone, Copy, PartialEq, Eq, Structural)]
pub struct KeyPressedEvent {
    pub key_code: u32,
    pub repeat: bool,
}

impl Event for KeyPressedEvent {
    open spec fn kind(&self) -> Seq<char> {
        "KeyPressed"@
    }

    fn event_name(&self) -> (r: &'static str) {
        "KeyPressed"
    }
}

/// A key went up.
#[derive(Debug, Clone, Copy, PartialEq, Eq, Structural)]
pub struct KeyReleasedEvent {
    pub key_code: u32,
}

impl Event for KeyReleasedEvent {
    open spec fn kind(&self) -> Seq<char> {
        "KeyReleased"@
    }

    fn event_name(&self) -> (r: &'static str) {
        "KeyReleased"
    }
}

/// A scene was loaded.
#[derive(Debug, Clone)]
pub struct SceneLoadedEvent {
    pub scene_name: String,
}

impl Event for SceneLoadedEvent {
    open spec fn kind(&self) -> Seq<char> {
        "SceneLoaded"@
    }

    fn event_name(&self) -> (r: &'static str) {
        "SceneLoaded"
    }
}

/// A scene was unloaded.
#[derive(Debug, Clone)]
pub struct SceneUnloadedEvent {
    pub scene_name: String,
}

impl Event for SceneUnloadedEvent {
    open spec fn kind(&self) -> Seq<char> {
        "SceneUnloaded"@
    }

    fn event_name(&self) -> (r: &'static str) {
        "SceneUnloaded"
    }
}

/// An asset was loaded.
#[derive(Debug, Clone)]
pub struct AssetLoadedEvent {
    pub asset_path: String,
    pub asset_type: String,
}

impl Event for AssetLoadedEvent {
    open spec fn kind(&self) -> Seq<char> {
        "AssetLoaded"@
    }

    fn event_name(&self) -> (r: &'static str) {
        "AssetLoaded"
    }
}

/// An asset failed to load.
#[derive(Debug, Clone)]
pub struct AssetLoadFailedEvent {
    pub asset_path: String,
    pub error: String,
}

impl Event for AssetLoadFailedEvent {
    open spec fn kind(&self) -> Seq<char> {
        "AssetLoadFailed"@
    }

    fn event_name(&self) -> (r: &'static str) {
        "AssetLoadFailed"
    }
}

/// The events the system carries: the engine's own, and other events by
/// kind and a number under which their owner keeps them.
#[derive(Debug, Clone)]
pub enum EngineEvent {
    WindowResized(WindowResizedEvent),
    WindowClosed(WindowClosedEvent),
    KeyPressed(KeyPressedEvent),
    KeyReleased(KeyReleasedEvent),
    SceneLoaded(SceneLoadedEvent),
    SceneUnloaded(SceneUnloadedEvent),
    AssetLoaded(AssetLoadedEvent),
    AssetLoadFailed(AssetLoadFailedEvent),
    Custom { kind: &'static str, id: u64 },
}

impl Event for EngineEvent {
    open spec fn kind(&self) -> Seq<char> {
        match self {
            EngineEvent::WindowResized(e) => e.kind(),
            EngineEvent::WindowClosed(e) => e.kind(),
            EngineEvent::KeyPressed(e) => e.kind(),
            EngineEvent::KeyReleased(e) => e.kind(),
            EngineEvent::SceneLoaded(e) => e.kind(),
            EngineEvent::SceneUnloaded(e) => e.kind(),
            EngineEvent::AssetLoaded(e) => e.kind(),
            EngineEvent::AssetLoadFailed(e) => e.kind(),
            EngineEvent::Custom { kind, .. } => kind@,
        }
    }

    fn event_name(&self) -> (r: &'static str) {
        match self {
            EngineEvent::WindowResized(e) => e.event_name(),
            EngineEvent::WindowClosed(e) => e.event_name(),
            EngineEvent::KeyPressed(e) => e.event_name(),
            EngineEvent::KeyReleased(e) => e.event_name(),
            EngineEvent::SceneLoaded(e) => e.event_name(),
            EngineEvent::SceneUnloaded(e) => e.event_name(),
            EngineEvent::AssetLoaded(e) => e.event_name(),
            EngineEvent::AssetLoadFailed(e) => e.event_name(),
            EngineEvent::Custom { kind, .. } => kind,
        }
    }
}

/// An event with the listeners that receive it, in subscription order.
pub struct Delivery {
    pub event: EngineEvent,
    pub listeners: Vec<u64>,
}

/// The listeners of `kind` in `m`, in subscription order (none if unknown).
pub open spec fn listeners_of(m: Map<Seq<char>, Vec<u64>>, kind: Seq<char>) -> Seq<u64> {
    if m.contains_key(kind) {
        m[kind]@
    } else {
        Seq::empty()
    }
}

/// The event queue, the listeners by event kind, and the delivery mode.
pub struct EventSystem {
    listeners: StrMap<Vec<u64>>,
    event_queue: Vec<EngineEvent>,
    immediate_mode: bool,
    next_listener: u64,
}

impl EventSystem {
    /// The events waiting, oldest first.
    pub closed spec fn queue(&self) -> Seq<EngineEvent> {
        self.event_queue@
    }

    /// The listeners by kind.
    pub closed spec fn subscriptions(&self) -> Map<Seq<char>, Vec<u64>> {
        self.listeners.view()
    }

    /// Whether events are delivered as they are published.
    pub closed spec fn is_immediate(&self) -> bool {
        self.immediate_mode
    }

    /// The number the next listener will get.
    pub closed spec fn spec_next_listener(&self) -> u64 {
        self.next_listener
    }

    /// The storage is consistent and every listener number is below the next one.
    pub closed spec fn wf(&self) -> bool {
        &&& self.listeners.wf()
        &&& forall|k: Seq<char>, i: int| self.listeners.view().contains_key(k)
            && 0 <= i < self.listeners.view()[k]@.len()
            ==> #[trigger] self.listeners.view()[k]@[i] < self.next_listener
        &&& forall|k: Seq<char>| #[trigger] self.listeners.view().contains_key(k)
            ==> self.listeners.view()[k]@.no_duplicates()
    }

    /// No listener appears twice among the listeners of a kind, and every
    /// listener's number is below the next one.
    pub proof fn lemma_listeners_unique(&self)
        requires
            self.wf(),
        ensures
            forall|k: Seq<char>| #[trigger] self.subscriptions().contains_key(k)
                ==> self.subscriptions()[k]@.no_duplicates(),
            forall|k: Seq<char>, i: int| self.subscriptions().contains_key(k)
                && 0 <= i < self.subscriptions()[k]@.len()
                ==> #[trigger] self.subscriptions()[k]@[i] < self.spec_next_listener(),
    {
    }

    /// No listeners, no events, queued delivery.
    pub fn new() -> (r: EventSystem)
        ensures
            r.wf(),
            r.queue() == Seq::<EngineEvent>::empty(),
            r.subscriptions() == Map::<Seq<char>, Vec<u64>>::empty(),
            !r.is_immediate(),
            r.spec_next_listener() == 0,
    {
        EventSystem {
            listeners: StrMap::new(),
            event_queue: Vec::new(),
            immediate_mode: false,
            next_listener: 0,
        }
    }

    /// Switches between immediate and queued delivery.
    pub fn set_immediate_mode(&mut self, immediate: bool)
        requires
            old(self).wf(),
        ensures
            final(self).wf(),
            final(self).is_immediate() == immediate,
            final(self).queue() == old(self).queue(),
            final(self).subscriptions() == old(self).subscriptions(),
            final(self).spec_next_listener() == old(self).spec_next_listener(),
    {
        self.immediate_mode = immediate;
    }

    /// Subscribes a new listener to events of `kind` and returns its number;
    /// it receives them after the listeners subscribed before it.
    pub fn subscribe(&mut self, kind: &str) -> (r: u64)
        requires
            old(self).wf(),
            old(self).spec_next_listener() < u64::MAX,
        ensures
            final(self).wf(),
            r == old(self).spec_next_listener(),
            !listeners_of(old(self).subscriptions(), kind@).contains(r),
            final(self).subscriptions()[kind@]@.no_duplicates(),
            final(self).spec_next_listener() == r + 1,
            final(self).subscriptions().dom() == old(self).subscriptions().dom().insert(kind@),
            final(self).subscriptions()[kind@]@ == listeners_of(old(self).subscriptions(), kind@).push(r),
            forall|k: Seq<char>| k != kind@ && #[trigger] old(self).subscriptions().contains_key(k)
                ==> final(self).subscriptions()[k] == old(self).subscriptions()[k],
            final(self).queue() == old(self).queue(),
            final(self).is_immediate() == old(self).is_immediate(),
    {
        let id = self.next_listener;
        let mut list = match self.listeners.remove(kind) {
            Some(v) => v,
            None => Vec::new(),
        };
        list.push(id);
        self.listeners.insert(owned(kind), list);
        self.next_listener = id + 1;
        proof {
            assert(self.listeners.view() =~= old(self).listeners.view().insert(kind@, list));
            let l0 = listeners_of(old(self).subscriptions(), kind@);
            assert(!l0.contains(id)) by {
                if l0.contains(id) {
                    let i = choose|i: int| 0 <= i < l0.len() && l0[i] == id;
                    assert(old(self).listeners.view()[kind@]@[i] < old(self).next_listener);
                }
            }
            assert(list@ == l0.push(id));
            assert(l0.no_duplicates()) by {
                if old(self).listeners.view().contains_key(kind@) {
                    assert(old(self).listeners.view()[kind@]@.no_duplicates());
                }
            }
            assert(list@.no_duplicates()) by {
                assert forall|a: int, b: int| 0 <= a < b < list@.len() implies list@[a] != list@[b] by {
                    if b == l0.len() {
                        assert(l0.contains(list@[a]) || a == b);
                        if list@[a] == id {
                            assert(l0[a] == id);
                        }
                    }
                }
            }
        }
        id
    }

    /// Publishes an event: in immediate mode it is handed back at once with
    /// its listeners; otherwise it joins the end of the queue.
    pub fn publish(&mut self, event: EngineEvent) -> (r: Option<Delivery>)
        requires
            old(self).wf(),
        ensures
            final(self).wf(),
            final(self).subscriptions() == old(self).subscriptions(),
            final(self).is_immediate() == old(self).is_immediate(),
            final(self).spec_next_listener() == old(self).spec_next_listener(),
            published(*old(self), *final(self), event, r),
    {
        if self.immediate_mode {
            let listeners = self.handle_event_immediate(&event);
            Some(Delivery { event, listeners })
        } else {
            self.event_queue.push(event);
            None
        }
    }

    /// The listeners that receive `event` now, in subscription order.
    pub fn handle_event_immediate(&self, event: &EngineEvent) -> (r: Vec<u64>)
        requires
            self.wf(),
        ensures
            r@ == listeners_of(self.subscriptions(), event.kind()),
    {
        let kind = event.event_name();
        match self.listeners.get(kind) {
            Some(list) => {
                let mut r: Vec<u64> = Vec::new();
                let mut i: usize = 0;
                while i < list.len()
                    invariant
                        i <= list@.len(),
                        r@ == list@.take(i as int),
                    decreases list@.len() - i,
                {
                    r.push(list[i]);
                    i = i + 1;
                    proof {
                        assert(r@ =~= list@.take(i as int));
                    }
                }
                proof {
                    assert(list@.take(list@.len() as int) =~= list@);
                }
                r
            },
            None => Vec::new(),
        }
    }

    /// Empties the queue and hands back its events, oldest first, each with
    /// the listeners that receive it.
    pub fn process_events(&mut self) -> (r: Vec<Delivery>)
        requires
            old(self).wf(),
        ensures
            final(self).wf(),
            final(self).queue() == Seq::<EngineEvent>::empty(),
            final(self).subscriptions() == old(self).subscriptions(),
            final(self).is_immediate() == old(self).is_immediate(),
            final(self).spec_next_listener() == old(self).spec_next_listener(),
            r@.len() == old(self).queue().len(),
            forall|i: int| 0 <= i < r@.len() ==> (#[trigger] r@[i]).event == old(self).queue()[i]
                && r@[i].listeners@ == listeners_of(old(self).subscriptions(), old(self).queue()[i].kind()),
    {
        let mut events: Vec<EngineEvent> = Vec::new();
        std::mem::swap(&mut events, &mut self.event_queue);
        let ghost q = events@;
        let mut r: Vec<Delivery> = Vec::new();
        let mut rest = events;
        while rest.len() > 0
            invariant
                self.wf(),
                self.listeners.view() == old(self).listeners.view(),
                r@.len() <= q.len(),
                rest@ == q.subrange(r@.len() as int, q.len() as int),
                forall|i: int| 0 <= i < r@.len() ==> (#[trigger] r@[i]).event == q[i]
                    && r@[i].listeners@ == listeners_of(self.subscriptions(), q[i].kind()),
            decreases rest@.len(),
        {
            let e = rest.remove(0);
            proof {
                assert(q[r@.len() as int] == e);
            }
            let listeners = self.handle_event_immediate(&e);
            r.push(Delivery { event: e, listeners });
            proof {
                assert(rest@ =~= q.subrange(r@.len() as int, q.len() as int));
            }
        }
        r
    }

    /// Drops every waiting event.
    pub fn clear_queue(&mut self)
        requires
            old(self).wf(),
        ensures
            final(self).wf(),
            final(self).queue() == Seq::<EngineEvent>::empty(),
            final(self).subscriptions() == old(self).subscriptions(),
            final(self).is_immediate() == old(self).is_immediate(),
            final(self).spec_next_listener() == old(self).spec_next_listener(),
    {
        self.event_queue.clear();
    }

    /// The number of waiting events.
    pub fn queue_size(&self) -> (r: usize)
        ensures
            r == self.queue().len(),
    {
        self.event_queue.len()
    }

    /// Drops every listener of `kind`.
    pub fn unsubscribe_all(&mut self, kind: &str)
        requires
            old(self).wf(),
        ensures
            final(self).wf(),
            final(self).subscriptions() == old(self).subscriptions().remove(kind@),
            final(self).queue() == old(self).queue(),
            final(self).is_immediate() == old(self).is_immediate(),
            final(self).spec_next_listener() == old(self).spec_next_listener(),
    {
        self.listeners.remove(kind);
    }

    /// Drops every listener.
    pub fn clear_listeners(&mut self)
        requires
            old(self).wf(),
        ensures
            final(self).wf(),
            final(self).subscriptions() == Map::<Seq<char>, Vec<u64>>::empty(),
            final(self).queue() == old(self).queue(),
            final(self).is_immediate() == old(self).is_immediate(),
            final(self).spec_next_listener() == old(self).spec_next_listener(),
    {
        self.listeners.clear();
    }

    /// Publishes that the window was resized to `width` by `height`.
    pub fn publish_window_resized(&mut self, width: u32, height: u32) -> (r: Option<Delivery>)
        requires
            old(self).wf(),
        ensures
            final(self).wf(),
            final(self).subscriptions() == old(self).subscriptions(),
            final(self).is_immediate() == old(self).is_immediate(),
            published(*old(self), *final(self),
                EngineEvent::WindowResized(WindowResizedEvent { width, height }), r),
    {
        self.publish(EngineEvent::WindowResized(WindowResizedEvent { width, height }))
    }

    /// Publishes that the window was closed.
    pub fn publish_window_closed(&mut self) -> (r: Option<Delivery>)
        requires
            old(self).wf(),
        ensures
            final(self).wf(),
            final(self).subscriptions() == old(self).subscriptions(),
            final(self).is_immediate() == old(self).is_immediate(),
            published(*old(self), *final(self), EngineEvent::WindowClosed(WindowClosedEvent), r),
    {
        self.publish(EngineEvent::WindowClosed(WindowClosedEvent))
    }

    /// Publishes that the key `key_code` went down.
    pub fn publish_key_pressed(&mut self, key_code: u32, repeat: bool) -> (r: Option<Delivery>)
        requires
            old(self).wf(),
        ensures
            final(self).wf(),
            final(self).subscriptions() == old(self).subscriptions(),
            final(self).is_immediate() == old(self).is_immediate(),
            published(*old(self), *final(self),
                EngineEvent::KeyPressed(KeyPressedEvent { key_code, repeat }), r),
    {
        self.publish(EngineEvent::KeyPressed(KeyPressedEvent { key_code, repeat }))
    }

    /// Adds events sent from elsewhere to the end of the queue, in order.
    pub fn receive(&mut self, events: Vec<EngineEvent>)
        requires
            old(self).wf(),
        ensures
            final(self).wf(),
            final(self).queue() == old(self).queue() + events@,
            final(self).subscriptions() == old(self).subscriptions(),
            final(self).is_immediate() == old(self).is_immediate(),
            final(self).spec_next_listener() == old(self).spec_next_listener(),
    {
        let mut events = events;
        self.event_queue.append(&mut events);
    }
}

/// `after` is `before` once `e` was published, with `r` handed back.
pub open spec fn published(before: EventSystem, after: EventSystem, e: EngineEvent, r: Option<Delivery>) -> bool {
    if before.is_immediate() {
        &&& after.queue() == before.queue()
        &&& (r matches Some(d) && d.event == e && d.listeners@ == listeners_of(before.subscriptions(), e.kind()))
    } else {
        after.queue() == before.queue().push(e) && r is None
    }
}

impl Default for EventSystem {
    fn default() -> (r: EventSystem)
        ensures
            r.wf(),
            r.queue() == Seq::<EngineEvent>::empty(),
            r.subscriptions() == Map::<Seq<char>, Vec<u64>>::empty(),
            !r.is_immediate(),
    {
        EventSystem::new()
    }
}

/// Events come out of the queue in the order they were published: after
/// publishing `a` and then `b` in queued mode, processing delivers `a` first
/// and `b` second, each to the listeners of its kind.
pub proof fn lemma_queue_is_fifo(
    s0: EventSystem,
    s1: EventSystem,
    s2: EventSystem,
    s3: EventSystem,
    a: EngineEvent,
    b: EngineEvent,
    ra: Option<Delivery>,
    rb: Option<Delivery>,
    out: Seq<Delivery>,
)
    requires
        !s0.is_immediate(),
        s0.queue().len() == 0,
        published(s0, s1, a, ra),
        s1.subscriptions() == s0.subscriptions(),
        s1.is_immediate() == s0.is_immediate(),
        published(s1, s2, b, rb),
        s2.subscriptions() == s1.subscriptions(),
        out.len() == s2.queue().len(),
        forall|i: int| 0 <= i < out.len() ==> (#[trigger] out[i]).event == s2.queue()[i]
            && out[i].listeners@ == listeners_of(s2.subscriptions(), s2.queue()[i].kind()),
    ensures
        out.len() == 2,
        out[0].event == a,
        out[1].event == b,
        out[0].listeners@ == listeners_of(s0.subscriptions(), a.kind()),
        out[1].listeners@ == listeners_of(s0.subscriptions(), b.kind()),
{
    assert(s2.queue() =~= seq![a, b]);
}

/// A listener just subscribed to a kind of event receives the next event of
/// that kind, after the listeners that were there before it.
pub proof fn lemma_subscriber_receives(
    before: Map<Seq<char>, Vec<u64>>,
    after: Map<Seq<char>, Vec<u64>>,
    kind: Seq<char>,
    listener: u64,
    e: EngineEvent,
)
    requires
        after.dom() == before.dom().insert(kind),
        after[kind]@ == listeners_of(before, kind).push(listener),
        e.kind() == kind,
    ensures
        listeners_of(after, e.kind()) == listeners_of(before, e.kind()).push(listener),
        listeners_of(after, e.kind()).last() == listener,
{
}

/// The place of an engine event's variant among the engine's own events
/// (the custom events come last).
pub open spec fn variant_place(e: EngineEvent) -> int {
    match e {
        EngineEvent::WindowResized(_) => 0,
        EngineEvent::WindowClosed(_) => 1,
        EngineEvent::KeyPressed(_) => 2,
        EngineEvent::KeyReleased(_) => 3,
        EngineEvent::SceneLoaded(_) => 4,
        EngineEvent::SceneUnloaded(_) => 5,
        EngineEvent::AssetLoaded(_) => 6,
        EngineEvent::AssetLoadFailed(_) => 7,
        EngineEvent::Custom { .. } => 8,
    }
}

/// The name under which listeners subscribe to each of the engine's own
/// events.
pub open spec fn subscription_name(place: int) -> Seq<char> {
    if place == 0 { "WindowResized"@ }
    else if place == 1 { "WindowClosed"@ }
    else if place == 2 { "KeyPressed"@ }
    else if place == 3 { "KeyReleased"@ }
    else if place == 4 { "SceneLoaded"@ }
    else if place == 5 { "SceneUnloaded"@ }
    else if place == 6 { "AssetLoaded"@ }
    else { "AssetLoadFailed"@ }
}

/// Each of the engine's own events reaches exactly the listeners subscribed
/// under its name: a window resize those of "WindowResized", a key press
/// those of "KeyPressed", a key release those of "KeyReleased", and so on.
pub proof fn lemma_builtin_event_reaches_its_subscribers(m: Map<Seq<char>, Vec<u64>>, e: EngineEvent)
    requires
        variant_place(e) < 8,
    ensures
        e.kind() == subscription_name(variant_place(e)),
        listeners_of(m, e.kind()) == listeners_of(m, subscription_name(variant_place(e))),
{
}

/// Different kinds of the engine's own events have different names, so no
/// listener subscribed to one kind is handed an event of another (a key
/// release never reaches the listeners of key presses).
pub proof fn lemma_builtin_event_kinds_distinct(a: EngineEvent, b: EngineEvent)
    requires
        variant_place(a) < 8,
        variant_place(b) < 8,
        variant_place(a) != variant_place(b),
    ensures
        a.kind() != b.kind(),
{
    reveal_strlit("WindowResized");
    reveal_strlit("WindowClosed");
    reveal_strlit("KeyPressed");
    reveal_strlit("KeyReleased");
    reveal_strlit("SceneLoaded");
    reveal_strlit("SceneUnloaded");
    reveal_strlit("AssetLoaded");
    reveal_strlit("AssetLoadFailed");
    let ka = a.kind();
    let kb = b.kind();
    assert(ka.len() != kb.len() || ka[0] != kb[0] || ka[5] != kb[5] || ka[6] != kb[6]);
}

} // verus!
