//! The dispatcher: the registry of connected devices, and the decision taken
//! for each message that arrives from the host or from a device session.
use vstd::prelude::*;
use crate::kind::{name_of, Kind, COL_COUNT, ROW_COUNT};

verus! {

/// A key-state change reported by a device session.
#[derive(Debug, Clone, Copy, PartialEq, Eq, Structural)]
pub enum DeviceStateUpdate {
    ButtonDown(u8),
    ButtonUp(u8),
    EncoderDown(u8),
    EncoderUp(u8),
    EncoderTwist(u8, i8),
}

/// A message for the dispatcher. `H` is the handle through which a connected
/// device's session is reached; `I` is an image command from the host, which
/// the dispatcher passes on without looking into it.
pub enum DeviceMessage<H, I> {
    PluginInitialized,
    Connected(String, Kind, H),
    Disconnected(String),
    ShutdownAll,
    Update(String, DeviceStateUpdate),
    SetImage(String, I),
    SetBrightness(String, u8),
}

/// What is to be done in answer to one message.
pub enum Action<I> {
    /// Scan for devices and start a session on each candidate.
    Scan,
    /// Tell the host that a device is connected.
    Register { id: String, name: String, rows: u8, columns: u8 },
    /// Tell the host that a device is gone.
    Deregister(String),
    /// Tell the host that a key went down.
    KeyDown(String, u8),
    /// Tell the host that a key went up.
    KeyUp(String, u8),
    /// Hand the image command to the session registered under the id.
    SendImage(String, I),
    /// Hand the brightness level to the session registered under the id.
    SendBrightness(String, u8),
    /// Ask each listed session to shut down; a failed delivery is ignored,
    /// since that session may already be leaving.
    Broadcast(Vec<String>),
    /// Report at error level a message for an id that is not registered.
    UnknownDevice(String),
    /// A device event that these button-only devices do not use.
    Ignore,
    /// The dispatcher has shut down and takes no more messages.
    Stopped,
}

/// Model of an [`Action`], with ids as character sequences and the targets
/// of a broadcast as a set.
pub enum ActionView<I> {
    Scan,
    Register { id: Seq<char>, name: Seq<char>, rows: u8, columns: u8 },
    Deregister(Seq<char>),
    KeyDown(Seq<char>, u8),
    KeyUp(Seq<char>, u8),
    SendImage(Seq<char>, I),
    SendBrightness(Seq<char>, u8),
    Broadcast(Set<Seq<char>>),
    UnknownDevice(Seq<char>),
    Ignore,
    Stopped,
}

/// The ids in a list, as character sequences.
pub open spec fn ids_of(v: Vec<String>) -> Seq<Seq<char>> {
    v@.map_values(|s: String| s@)
}

impl<I> View for Action<I> {
    type V = ActionView<I>;

    open spec fn view(&self) -> ActionView<I> {
        match self {
            Action::Scan => ActionView::Scan,
            Action::Register { id, name, rows, columns } => ActionView::Register {
                id: id@,
                name: name@,
                rows: *rows,
                columns: *columns,
            },
            Action::Deregister(id) => ActionView::Deregister(id@),
            Action::KeyDown(id, k) => ActionView::KeyDown(id@, *k),
            Action::KeyUp(id, k) => ActionView::KeyUp(id@, *k),
            Action::SendImage(id, img) => ActionView::SendImage(id@, *img),
            Action::SendBrightness(id, b) => ActionView::SendBrightness(id@, *b),
            Action::Broadcast(ids) => ActionView::Broadcast(ids_of(*ids).to_set()),
            Action::UnknownDevice(id) => ActionView::UnknownDevice(id@),
            Action::Ignore => ActionView::Ignore,
            Action::Stopped => ActionView::Stopped,
        }
    }
}

/// Model of the dispatcher: whether it still takes messages, and the handle
/// registered under each logical id.
pub struct DispatchState<H> {
    pub running: bool,
    pub registry: Map<Seq<char>, H>,
}

/// State after one message.
pub open spec fn next_state<H, I>(s: DispatchState<H>, msg: DeviceMessage<H, I>) -> DispatchState<H> {
    if !s.running {
        s
    } else {
        match msg {
            DeviceMessage::Connected(id, _, h) => DispatchState {
                running: true,
                registry: s.registry.insert(id@, h),
            },
            DeviceMessage::Disconnected(id) => DispatchState {
                running: true,
                registry: s.registry.remove(id@),
            },
            DeviceMessage::ShutdownAll => DispatchState { running: false, registry: s.registry },
            _ => s,
        }
    }
}

/// Answer to one message.
pub open spec fn response<H, I>(s: DispatchState<H>, msg: DeviceMessage<H, I>) -> ActionView<I> {
    if !s.running {
        ActionView::Stopped
    } else {
        match msg {
            DeviceMessage::PluginInitialized => ActionView::Scan,
            DeviceMessage::Connected(id, kind, _) => ActionView::Register {
                id: id@,
                name: name_of(kind),
                rows: ROW_COUNT as u8,
                columns: COL_COUNT as u8,
            },
            DeviceMessage::Disconnected(id) => if s.registry.contains_key(id@) {
                ActionView::Deregister(id@)
            } else {
                ActionView::UnknownDevice(id@)
            },
            DeviceMessage::ShutdownAll => ActionView::Broadcast(s.registry.dom()),
            DeviceMessage::Update(id, u) => if !s.registry.contains_key(id@) {
                ActionView::UnknownDevice(id@)
            } else {
                match u {
                    DeviceStateUpdate::ButtonDown(k) => ActionView::KeyDown(id@, k),
                    DeviceStateUpdate::ButtonUp(k) => ActionView::KeyUp(id@, k),
                    _ => ActionView::Ignore,
                }
            },
            DeviceMessage::SetImage(id, img) => if s.registry.contains_key(id@) {
                ActionView::SendImage(id@, img)
            } else {
                ActionView::UnknownDevice(id@)
            },
            DeviceMessage::SetBrightness(id, b) => if s.registry.contains_key(id@) {
                ActionView::SendBrightness(id@, b)
            } else {
                ActionView::UnknownDevice(id@)
            },
        }
    }
}

/// State after a sequence of messages, taken in order.
pub open spec fn run<H, I>(s: DispatchState<H>, msgs: Seq<DeviceMessage<H, I>>) -> DispatchState<H>
    decreases msgs.len(),
{
    if msgs.len() == 0 {
        s
    } else {
        next_state(run(s, msgs.drop_last()), msgs.last())
    }
}

/// Whether a message announces the device with the given id.
pub open spec fn connects<H, I>(m: DeviceMessage<H, I>, id: Seq<char>) -> bool {
    match m {
        DeviceMessage::Connected(c, _, _) => c@ == id,
        _ => false,
    }
}

/// Whether a message reports the device with the given id gone.
pub open spec fn disconnects<H, I>(m: DeviceMessage<H, I>, id: Seq<char>) -> bool {
    match m {
        DeviceMessage::Disconnected(c) => c@ == id,
        _ => false,
    }
}

/// Whether an id is live after the messages: some message connected it and no
/// later one disconnected it, or it was registered before them all and none
/// disconnected it.
pub open spec fn live_after<H, I>(
    before: Map<Seq<char>, H>,
    msgs: Seq<DeviceMessage<H, I>>,
    id: Seq<char>,
) -> bool {
    ||| exists|i: int|
        0 <= i < msgs.len() && #[trigger] connects(msgs[i], id) && forall|j: int|
            i < j < msgs.len() ==> !#[trigger] disconnects(msgs[j], id)
    ||| before.contains_key(id) && forall|j: int|
        0 <= j < msgs.len() ==> !#[trigger] disconnects(msgs[j], id)
}

/// Registry law: while no shutdown is asked for, the dispatcher keeps running,
/// and the registry holds exactly the ids whose last connection has not been
/// followed by a disconnection.
pub proof fn lemma_registry_tracks_connections<H, I>(
    s: DispatchState<H>,
    msgs: Seq<DeviceMessage<H, I>>,
)
    requires
        s.running,
        forall|i: int| 0 <= i < msgs.len() ==> !(#[trigger] msgs[i] is ShutdownAll),
    ensures
        run(s, msgs).running,
        forall|id: Seq<char>|
            #[trigger] run(s, msgs).registry.contains_key(id) <==> live_after(s.registry, msgs, id),
    decreases msgs.len(),
{
    if msgs.len() > 0 {
        let p = msgs.drop_last();
        let m = msgs.last();
        let n = msgs.len() - 1;
        assert forall|i: int| 0 <= i < p.len() implies !(#[trigger] p[i] is ShutdownAll) by {
            assert(p[i] == msgs[i]);
        }
        lemma_registry_tracks_connections(s, p);
        assert forall|id: Seq<char>|
            #[trigger] run(s, msgs).registry.contains_key(id) <==> live_after(s.registry, msgs, id) by {
            assert(m == msgs[n]);
            assert forall|j: int| 0 <= j < p.len() implies p[j] == msgs[j] by {}
            if connects(m, id) {
                assert(connects(msgs[n], id));
            } else if disconnects(m, id) {
                assert(disconnects(msgs[n], id));
                if live_after(s.registry, msgs, id) {
                    if exists|i: int|
                        0 <= i < msgs.len() && #[trigger] connects(msgs[i], id) && forall|j: int|
                            i < j < msgs.len() ==> !#[trigger] disconnects(msgs[j], id) {
                        let i = choose|i: int|
                            0 <= i < msgs.len() && #[trigger] connects(msgs[i], id) && forall|j: int|
                                i < j < msgs.len() ==> !#[trigger] disconnects(msgs[j], id);
                        if i < n {
                            assert(!disconnects(msgs[n], id));
                        }
                    }
                }
            } else {
                assert(run(s, msgs).registry.contains_key(id) == run(s, p).registry.contains_key(id));
                if live_after(s.registry, p, id) {
                    if exists|i: int|
                        0 <= i < p.len() && #[trigger] connects(p[i], id) && forall|j: int|
                            i < j < p.len() ==> !#[trigger] disconnects(p[j], id) {
                        let i = choose|i: int|
                            0 <= i < p.len() && #[trigger] connects(p[i], id) && forall|j: int|
                                i < j < p.len() ==> !#[trigger] disconnects(p[j], id);
                        assert(connects(msgs[i], id));
                        assert forall|j: int| i < j < msgs.len() implies !#[trigger] disconnects(
                            msgs[j],
                            id,
                        ) by {
                            if j < n {
                                assert(msgs[j] == p[j]);
                            }
                        }
                    } else {
                        assert forall|j: int| 0 <= j < msgs.len() implies !#[trigger] disconnects(
                            msgs[j],
                            id,
                        ) by {
                            if j < n {
                                assert(msgs[j] == p[j]);
                            }
                        }
                    }
                }
                if live_after(s.registry, msgs, id) {
                    if exists|i: int|
                        0 <= i < msgs.len() && #[trigger] connects(msgs[i], id) && forall|j: int|
                            i < j < msgs.len() ==> !#[trigger] disconnects(msgs[j], id) {
                        let i = choose|i: int|
                            0 <= i < msgs.len() && #[trigger] connects(msgs[i], id) && forall|j: int|
                                i < j < msgs.len() ==> !#[trigger] disconnects(msgs[j], id);
                        assert(i != n);
                        assert(connects(p[i], id));
                        assert forall|j: int| i < j < p.len() implies !#[trigger] disconnects(p[j], id) by {
                            assert(msgs[j] == p[j]);
                            assert(!disconnects(msgs[j], id));
                        }
                    } else {
                        assert forall|j: int| 0 <= j < p.len() implies !#[trigger] disconnects(p[j], id) by {
                            assert(msgs[j] == p[j]);
                            assert(!disconnects(msgs[j], id));
                        }
                    }
                }
            }
        }
    }
}

/// Routing law for key presses: a press from an unregistered id is answered
/// by one diagnostic and changes nothing; once the id is connected, the same
/// press becomes one key-down notification for that id and key.
pub proof fn lemma_press_follows_registration<H, I>(
    s: DispatchState<H>,
    id: String,
    kind: Kind,
    handle: H,
    key: u8,
)
    requires
        s.running,
    ensures
        !s.registry.contains_key(id@) ==> response(
            s,
            DeviceMessage::<H, I>::Update(id, DeviceStateUpdate::ButtonDown(key)),
        ) == ActionView::<I>::UnknownDevice(id@) && next_state(
            s,
            DeviceMessage::<H, I>::Update(id, DeviceStateUpdate::ButtonDown(key)),
        ) == s,
        response(
            next_state(s, DeviceMessage::<H, I>::Connected(id, kind, handle)),
            DeviceMessage::<H, I>::Update(id, DeviceStateUpdate::ButtonDown(key)),
        ) == ActionView::<I>::KeyDown(id@, key),
{
}

/// Shutdown law: a shutdown is broadcast to exactly the registered ids, and
/// afterwards every message is refused and changes nothing.
pub proof fn lemma_shutdown_reaches_all_then_stops<H, I>(
    s: DispatchState<H>,
    msgs: Seq<DeviceMessage<H, I>>,
)
    requires
        s.running,
    ensures
        response(s, DeviceMessage::<H, I>::ShutdownAll) == ActionView::<I>::Broadcast(s.registry.dom()),
        !next_state(s, DeviceMessage::<H, I>::ShutdownAll).running,
        next_state(s, DeviceMessage::<H, I>::ShutdownAll).registry == s.registry,
        run(next_state(s, DeviceMessage::<H, I>::ShutdownAll), msgs) == next_state(
            s,
            DeviceMessage::<H, I>::ShutdownAll,
        ),
        forall|m: DeviceMessage<H, I>|
            #[trigger] response(next_state(s, DeviceMessage::<H, I>::ShutdownAll), m)
                == ActionView::<I>::Stopped,
    decreases msgs.len(),
{
    if msgs.len() > 0 {
        lemma_shutdown_reaches_all_then_stops(s, msgs.drop_last());
    }
}

/// The router between the host and the connected devices.
pub struct Dispatcher<H> {
    devices: Vec<(String, H)>,
    running: bool,
    registry: Ghost<Map<Seq<char>, H>>,
}

impl<H> View for Dispatcher<H> {
    type V = DispatchState<H>;

    closed spec fn view(&self) -> DispatchState<H> {
        DispatchState { running: self.running, registry: self.registry@ }
    }
}

impl<H> Dispatcher<H> {
    closed spec fn key_at(&self, i: int) -> Seq<char> {
        self.devices@[i].0@
    }

    /// The entries hold each registered id once, with its handle.
    pub closed spec fn wf(&self) -> bool {
        &&& forall|i: int|
            0 <= i < self.devices.len() ==> self.registry@.contains_key(#[trigger] self.key_at(i))
                && self.registry@[self.key_at(i)] == self.devices@[i].1
        &&& forall|k: Seq<char>| #[trigger]
            self.registry@.contains_key(k) ==> exists|i: int|
                0 <= i < self.devices.len() && #[trigger] self.key_at(i) == k
        &&& forall|i: int, j: int|
            0 <= i < j < self.devices.len() ==> #[trigger] self.key_at(i) != #[trigger] self.key_at(
                j,
            )
    }

    proof fn lemma_wf_same_entries(&self, other: &Self)
        requires
            other.wf(),
            self.devices@ == other.devices@,
            self.registry@ == other.registry@,
        ensures
            self.wf(),
    {
        assert forall|j: int| 0 <= j < self.devices.len() implies #[trigger] self.key_at(j)
            == other.key_at(j) by {}
        assert forall|k: Seq<char>| #[trigger]
            self.registry@.contains_key(k) implies exists|j: int|
            0 <= j < self.devices.len() && #[trigger] self.key_at(j) == k by {
            let j = choose|j: int| 0 <= j < other.devices.len() && #[trigger] other.key_at(j) == k;
            assert(self.key_at(j) == k);
        }
        assert forall|j: int, l: int|
            0 <= j < l < self.devices.len() implies #[trigger] self.key_at(j) != #[trigger] self.key_at(
            l,
        ) by {
            assert(self.key_at(j) == other.key_at(j));
            assert(self.key_at(l) == other.key_at(l));
        }
    }

    /// A running dispatcher with no device registered.
    pub fn new() -> (r: Self)
        ensures
            r.wf(),
            r@.running,
            r@.registry == Map::<Seq<char>, H>::empty(),
    {
        Dispatcher { devices: Vec::new(), running: true, registry: Ghost(Map::empty()) }
    }

    /// Whether the dispatcher still takes messages.
    pub fn is_running(&self) -> (r: bool)
        ensures
            r == self@.running,
    {
        self.running
    }

    fn find(&self, id: &String) -> (r: Option<usize>)
        ensures
            match r {
                Some(i) => i < self.devices.len() && self.key_at(i as int) == id@,
                None => forall|i: int| 0 <= i < self.devices.len() ==> self.key_at(i) != id@,
            },
    {
        let n = self.devices.len();
        for i in 0..n
            invariant
                n == self.devices.len(),
                forall|j: int| 0 <= j < i ==> self.key_at(j) != id@,
        {
            if self.devices[i].0 == *id {
                return Some(i);
            }
        }
        None
    }

    fn insert(&mut self, id: String, h: H)
        requires
            old(self).wf(),
        ensures
            final(self).wf(),
            final(self).running == old(self).running,
            final(self).registry@ == old(self).registry@.insert(id@, h),
    {
        let ghost key = id@;
        let ghost handle = h;
        let ghost before = self.devices@;
        match self.find(&id) {
            Some(i) => {
                self.devices.set(i, (id, h));
                self.registry = Ghost(self.registry@.insert(key, handle));
                proof {
                    assert forall|j: int| 0 <= j < self.devices.len() implies #[trigger] self.key_at(j)
                        == old(self).key_at(j) by {}
                    assert forall|k: Seq<char>| #[trigger]
                        self.registry@.contains_key(k) implies exists|j: int|
                        0 <= j < self.devices.len() && #[trigger] self.key_at(j) == k by {
                        if k != key {
                            assert(old(self).registry@.contains_key(k));
                            let j = choose|j: int|
                                0 <= j < old(self).devices.len() && #[trigger] old(self).key_at(j) == k;
                            assert(self.key_at(j) == k);
                        } else {
                            assert(self.key_at(i as int) == k);
                        }
                    }
                    assert forall|j: int| 0 <= j < self.devices.len() implies self.registry@.contains_key(
                        #[trigger] self.key_at(j),
                    ) && self.registry@[self.key_at(j)] == self.devices@[j].1 by {
                        assert(self.key_at(j) == old(self).key_at(j));
                        if j != i {
                            assert(old(self).key_at(j) != old(self).key_at(i as int));
                        }
                    }
                    assert forall|j: int, l: int|
                        0 <= j < l < self.devices.len() implies #[trigger] self.key_at(j)
                        != #[trigger] self.key_at(l) by {
                        assert(self.key_at(j) == old(self).key_at(j));
                        assert(self.key_at(l) == old(self).key_at(l));
                    }
                }
            },
            None => {
                self.devices.push((id, h));
                self.registry = Ghost(self.registry@.insert(key, handle));
                proof {
                    let n = before.len() as int;
                    assert forall|j: int| 0 <= j < n implies #[trigger] self.key_at(j)
                        == old(self).key_at(j) && self.devices@[j] == before[j] by {}
                    assert(self.key_at(n) == key);
                    assert forall|k: Seq<char>| #[trigger]
                        self.registry@.contains_key(k) implies exists|j: int|
                        0 <= j < self.devices.len() && #[trigger] self.key_at(j) == k by {
                        if k != key {
                            assert(old(self).registry@.contains_key(k));
                            let j = choose|j: int|
                                0 <= j < old(self).devices.len() && #[trigger] old(self).key_at(j) == k;
                            assert(self.key_at(j) == k);
                        }
                    }
                    assert forall|j: int| 0 <= j < self.devices.len() implies self.registry@.contains_key(
                        #[trigger] self.key_at(j),
                    ) && self.registry@[self.key_at(j)] == self.devices@[j].1 by {
                        if j < n {
                            assert(self.key_at(j) == old(self).key_at(j));
                            assert(old(self).key_at(j) != key);
                        }
                    }
                    assert forall|j: int, l: int|
                        0 <= j < l < self.devices.len() implies #[trigger] self.key_at(j)
                        != #[trigger] self.key_at(l) by {
                        assert(self.key_at(j) == old(self).key_at(j));
                        if l < n {
                            assert(self.key_at(l) == old(self).key_at(l));
                        }
                    }
                }
            },
        }
    }

    fn remove(&mut self, id: &String)
        requires
            old(self).wf(),
        ensures
            final(self).wf(),
            final(self).running == old(self).running,
            final(self).registry@ == old(self).registry@.remove(id@),
    {
        let ghost before = self.devices@;
        match self.find(id) {
            Some(i) => {
                let _gone = self.devices.remove(i);
                self.registry = Ghost(self.registry@.remove(id@));
                proof {
                    assert forall|j: int| 0 <= j < self.devices.len() implies #[trigger] self.devices@[j]
                        == before[if j < i { j } else { j + 1 }] by {}
                    assert forall|j: int| 0 <= j < self.devices.len() implies #[trigger] self.key_at(j)
                        == old(self).key_at(if j < i { j } else { j + 1 }) by {
                        assert(self.devices@[j] == before[if j < i { j } else { j + 1 }]);
                    }
                    assert forall|j: int| 0 <= j < self.devices.len() implies self.registry@.contains_key(
                        #[trigger] self.key_at(j),
                    ) && self.registry@[self.key_at(j)] == self.devices@[j].1 by {
                        let a = if j < i { j } else { j + 1 };
                        assert(self.devices@[j] == before[a]);
                        assert(self.key_at(j) == old(self).key_at(a));
                        assert(old(self).key_at(a) != old(self).key_at(i as int));
                    }
                    assert forall|k: Seq<char>| #[trigger]
                        self.registry@.contains_key(k) implies exists|j: int|
                        0 <= j < self.devices.len() && #[trigger] self.key_at(j) == k by {
                        assert(old(self).registry@.contains_key(k));
                        let j = choose|j: int|
                            0 <= j < old(self).devices.len() && #[trigger] old(self).key_at(j) == k;
                        if j < i {
                            assert(self.key_at(j) == k);
                        } else {
                            assert(j != i);
                            assert(self.key_at(j - 1) == k);
                        }
                    }
                    assert forall|j: int, l: int|
                        0 <= j < l < self.devices.len() implies #[trigger] self.key_at(j)
                        != #[trigger] self.key_at(l) by {
                        let a = if j < i { j } else { j + 1 };
                        let b = if l < i { l } else { l + 1 };
                        assert(self.key_at(j) == old(self).key_at(a));
                        assert(self.key_at(l) == old(self).key_at(b));
                    }
                }
            },
            None => {
                self.registry = Ghost(self.registry@.remove(id@));
                proof {
                    assert forall|k: Seq<char>| #[trigger]
                        self.registry@.contains_key(k) implies exists|j: int|
                        0 <= j < self.devices.len() && #[trigger] self.key_at(j) == k by {
                        assert(old(self).registry@.contains_key(k));
                        let j = choose|j: int|
                            0 <= j < old(self).devices.len() && #[trigger] old(self).key_at(j) == k;
                        assert(self.key_at(j) == k);
                    }
                    assert forall|j: int| 0 <= j < self.devices.len() implies self.registry@.contains_key(
                        #[trigger] self.key_at(j),
                    ) && self.registry@[self.key_at(j)] == self.devices@[j].1 by {
                        assert(self.key_at(j) == old(self).key_at(j));
                    }
                    assert forall|j: int, l: int|
                        0 <= j < l < self.devices.len() implies #[trigger] self.key_at(j)
                        != #[trigger] self.key_at(l) by {
                        assert(self.key_at(j) == old(self).key_at(j));
                        assert(self.key_at(l) == old(self).key_at(l));
                    }
                }
            },
        }
    }

    /// The registered ids, each once.
    fn ids(&self) -> (r: Vec<String>)
        requires
            self.wf(),
        ensures
            ids_of(r).to_set() == self@.registry.dom(),
            ids_of(r).no_duplicates(),
    {
        let mut out: Vec<String> = Vec::new();
        let n = self.devices.len();
        for i in 0..n
            invariant
                n == self.devices.len(),
                out.len() == i,
                forall|j: int| 0 <= j < i ==> #[trigger] out@[j]@ == self.key_at(j),
        {
            out.push(self.devices[i].0.clone());
        }
        proof {
            let s = ids_of(out);
            assert forall|j: int| 0 <= j < s.len() implies #[trigger] s[j] == self.key_at(j) by {}
            assert forall|k: Seq<char>| s.to_set().contains(k) <==> self.registry@.contains_key(k) by {
                if s.to_set().contains(k) {
                    let j = choose|j: int| 0 <= j < s.len() && s[j] == k;
                    assert(self.key_at(j) == k);
                }
                if self.registry@.contains_key(k) {
                    let j = choose|j: int| 0 <= j < self.devices.len() && #[trigger] self.key_at(j) == k;
                    assert(s[j] == k);
                }
            }
            assert(s.to_set() =~= self.registry@.dom());
            assert forall|j: int, l: int| 0 <= j < s.len() && 0 <= l < s.len() && j != l implies s[j]
                != s[l] by {
                if j < l {
                    assert(self.key_at(j) != self.key_at(l));
                } else {
                    assert(self.key_at(l) != self.key_at(j));
                }
            }
        }
        out
    }

    /// Takes one message: updates the registry and says what is to be done.
    pub fn handle_message<I>(&mut self, msg: DeviceMessage<H, I>) -> (r: Action<I>)
        requires
            old(self).wf(),
        ensures
            final(self).wf(),
            final(self)@ == next_state(old(self)@, msg),
            r@ == response(old(self)@, msg),
            r matches Action::Broadcast(ids) ==> ids_of(ids).no_duplicates(),
    {
        if !self.running {
            return Action::Stopped;
        }
        match msg {
            DeviceMessage::PluginInitialized => Action::Scan,
            DeviceMessage::Connected(id, kind, h) => {
                let name = kind.human_name();
                let reported = id.clone();
                self.insert(id, h);
                Action::Register {
                    id: reported,
                    name,
                    rows: ROW_COUNT as u8,
                    columns: COL_COUNT as u8,
                }
            },
            DeviceMessage::Disconnected(id) => {
                let known = self.find(&id).is_some();
                self.remove(&id);
                if known {
                    Action::Deregister(id)
                } else {
                    Action::UnknownDevice(id)
                }
            },
            DeviceMessage::ShutdownAll => {
                let ids = self.ids();
                let ghost before = *self;
                self.running = false;
                proof {
                    self.lemma_wf_same_entries(&before);
                }
                Action::Broadcast(ids)
            },
            DeviceMessage::Update(id, update) => {
                if self.find(&id).is_none() {
                    Action::UnknownDevice(id)
                } else {
                    match update {
                        DeviceStateUpdate::ButtonDown(key) => Action::KeyDown(id, key),
                        DeviceStateUpdate::ButtonUp(key) => Action::KeyUp(id, key),
                        _ => Action::Ignore,
                    }
                }
            },
            DeviceMessage::SetImage(id, image) => {
                if self.find(&id).is_some() {
                    Action::SendImage(id, image)
                } else {
                    Action::UnknownDevice(id)
                }
            },
            DeviceMessage::SetBrightness(id, level) => {
                if self.find(&id).is_some() {
                    Action::SendBrightness(id, level)
                } else {
                    Action::UnknownDevice(id)
                }
            },
        }
    }

    /// The handle registered under an id.
    pub fn device(&self, id: &String) -> (r: Option<&H>)
        requires
            self.wf(),
        ensures
            match r {
                Some(h) => self@.registry.contains_key(id@) && *h == self@.registry[id@],
                None => !self@.registry.contains_key(id@),
            },
    {
        match self.find(id) {
            Some(i) => {
                proof {
                    assert(self.registry@.contains_key(self.key_at(i as int)));
                }
                Some(&self.devices[i].1)
            },
            None => None,
        }
    }
}

} // verus!
