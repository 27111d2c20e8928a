//! The event router: remembers the latest event of every project and fans
//! build events out to a changing set of listeners, replaying the remembered
//! events to each listener that joins.

use std::sync::Arc;
use vstd::prelude::*;
use crate::build_loop::{event_project, Event, NixFile};
use crate::pathreduction::contains_path;
use crossbeam_channel::Sender;

verus! {

/// `crossbeam_channel::Sender`, the sending half of a listener's channel,
/// carried through as an opaque handle.
#[verifier::external_type_specification]
#[verifier::external_body]
#[verifier::reject_recursive_types(T)]
pub struct ExSender<T>(Sender<T>);

/// What has been handed to a channel through the sending handle `tx`, in
/// the order it was handed over.
pub uninterp spec fn received(tx: Sender<Arc<Event>>) -> Seq<Arc<Event>>;

/// Relies on `crossbeam_channel::Sender::try_send`: it never blocks. It puts
/// the event into the channel at once, or, where the channel is full or
/// disconnected, returns it in an error and puts nothing in. Which of the two
/// happens depends on the listener, so the result itself is not stated.
#[verifier::external_body]
fn send_event(tx: &mut Sender<Arc<Event>>, ev: Arc<Event>) -> (delivered: bool)
    ensures
        delivered ==> received(*final(tx)) == received(*old(tx)).push(ev),
        !delivered ==> received(*final(tx)) == received(*old(tx)),
{
    tx.try_send(ev).is_ok()
}

/// Messages that the router takes in.
pub enum LoopHandlerEvent {
    /// An event of a build loop.
    BuildEvent(Event),
    /// A listener that wants the recorded events and then the live ones.
    NewListener(Sender<Arc<Event>>),
}

/// The project path an event is about; `None` for `SectionEnd`.
pub open spec fn project_key(e: Event) -> Option<Seq<char>> {
    match event_project(e) {
        Some(n) => Some(n.path@),
        None => None,
    }
}

/// `e` is about the same project as `ev`.
pub open spec fn same_project(e: Event, ev: Event) -> bool {
    project_key(e) == project_key(ev)
}

/// Whether `st` records an event for the project of `ev`.
pub open spec fn has_project(st: Seq<Arc<Event>>, ev: Arc<Event>) -> bool {
    exists|i: int| 0 <= i < st.len() && same_project(*#[trigger] st[i], *ev)
}

/// The recorded events after `ev` came in: it replaces the event of its
/// project, or is added where its project had none.
pub open spec fn record(st: Seq<Arc<Event>>, ev: Arc<Event>) -> Seq<Arc<Event>> {
    if has_project(st, ev) {
        st.map_values(|e: Arc<Event>| if same_project(*e, *ev) { ev } else { e })
    } else {
        st.push(ev)
    }
}

/// What a listener is sent when it joins: every recorded event, then the
/// end of the recorded section.
pub open spec fn replay(st: Seq<Arc<Event>>) -> Seq<Arc<Event>> {
    st.push(Arc::new(Event::SectionEnd))
}

/// A listener's stream holds exactly one `SectionEnd`.
pub open spec fn one_section_end(t: Seq<Arc<Event>>) -> bool {
    exists|k: int|
        0 <= k < t.len() && *t[k] is SectionEnd && forall|j: int|
            0 <= j < t.len() && j != k ==> !(*#[trigger] t[j] is SectionEnd)
}

/// Appending an event other than `SectionEnd` keeps a stream's single
/// `SectionEnd`.
proof fn lemma_push_keeps_one(t: Seq<Arc<Event>>, ev: Arc<Event>)
    requires
        one_section_end(t),
        !(*ev is SectionEnd),
    ensures
        one_section_end(t.push(ev)),
{
    let k = choose|k: int|
        0 <= k < t.len() && *t[k] is SectionEnd && forall|j: int|
            0 <= j < t.len() && j != k ==> !(*#[trigger] t[j] is SectionEnd);
    let u = t.push(ev);
    assert(u[k] == t[k]);
    assert forall|j: int| 0 <= j < u.len() && j != k implies !(*#[trigger] u[j] is SectionEnd) by {
        if j < t.len() {
            assert(u[j] == t[j]);
        }
    }
}

/// The router's state: the recorded events, and for each listener what it
/// has been sent.
pub struct RouterState {
    pub states: Seq<Arc<Event>>,
    pub streams: Seq<Seq<Arc<Event>>>,
}

/// The invariant of the router.
pub open spec fn router_inv(r: RouterState) -> bool {
    &&& forall|i: int| 0 <= i < r.states.len() ==> !(*#[trigger] r.states[i] is SectionEnd)
    &&& forall|i: int, j: int|
        0 <= i < j < r.states.len() ==> !same_project(*#[trigger] r.states[i], *#[trigger] r.states[j])
    &&& forall|l: int| 0 <= l < r.streams.len() ==> one_section_end(#[trigger] r.streams[l])
}

/// `f` picks, in order, some of the indices below `n`.
pub open spec fn picks(f: Seq<int>, n: int) -> bool {
    &&& forall|j: int| 0 <= j < f.len() ==> 0 <= #[trigger] f[j] < n
    &&& forall|j: int, k: int| 0 <= j < k < f.len() ==> #[trigger] f[j] < #[trigger] f[k]
}

/// `new` is the router after broadcasting `ev` from `old`: the recorded events
/// take `ev` in, and the listeners that stay, in their order, have been sent
/// `ev`; those whose channel failed are gone.
pub open spec fn broadcast_step(old: RouterState, ev: Arc<Event>, new: RouterState) -> bool {
    &&& new.states == record(old.states, ev)
    &&& exists|f: Seq<int>|
        picks(f, old.streams.len() as int) && f.len() == new.streams.len() && forall|j: int|
            0 <= j < f.len() ==> #[trigger] new.streams[j] == old.streams[f[j]].push(ev)
}

/// `new` is the router after a listener asked to join `old`: where the replay
/// reached it, it joined with the replay as its stream; else nothing changed.
pub open spec fn join_step(old: RouterState, new: RouterState, joined: bool) -> bool {
    if joined {
        new == RouterState { streams: old.streams.push(replay(old.states)), ..old }
    } else {
        new == old
    }
}

/// The projects registered so far, so that a project gets one build loop
/// however often it is registered.
pub struct Registrations {
    projects: Vec<String>,
}

impl View for Registrations {
    type V = Seq<Seq<char>>;

    closed spec fn view(&self) -> Seq<Seq<char>> {
        self.projects.deep_view()
    }
}

impl Registrations {
    /// No project registered yet.
    pub fn new() -> (r: Registrations)
        ensures
            r@ == Seq::<Seq<char>>::empty(),
    {
        let r = Registrations { projects: Vec::new() };
        assert(r@ =~= Seq::<Seq<char>>::empty());
        r
    }

    /// Registers `nix_file`. Returns whether it is new, that is whether a
    /// build loop must be started for it; a repeated registration changes
    /// nothing.
    pub fn add(&mut self, nix_file: &NixFile) -> (new: bool)
        ensures
            new == !old(self)@.contains(nix_file.path@),
            final(self)@ == (if new {
                old(self)@.push(nix_file.path@)
            } else {
                old(self)@
            }),
    {
        if contains_path(&self.projects, &nix_file.path) {
            return false;
        }
        self.projects.push(nix_file.path.clone());
        assert(self@ =~= old(self)@.push(nix_file.path@));
        true
    }
}

/// `new` are the channels of `old` that `ev` was delivered to, in their
/// order, each having received `ev` on top of what it had.
pub open spec fn kept_and_sent(
    old: Seq<Sender<Arc<Event>>>,
    ev: Arc<Event>,
    new: Seq<Sender<Arc<Event>>>,
) -> bool {
    exists|f: Seq<int>|
        picks(f, old.len() as int) && f.len() == new.len() && forall|j: int|
            0 <= j < f.len() ==> #[trigger] received(new[j]) == received(old[f[j]]).push(ev)
}

/// The router of build events.
pub struct Router {
    project_states: Vec<Arc<Event>>,
    listeners: Vec<Sender<Arc<Event>>>,
    /// For each listener, how much its channel had received before it
    /// joined.
    joined_at: Ghost<Seq<nat>>,
}

impl View for Router {
    type V = RouterState;

    closed spec fn view(&self) -> RouterState {
        RouterState {
            states: self.project_states@,
            streams: Seq::new(
                self.listeners@.len(),
                |l: int| received(self.listeners@[l]).skip(self.joined_at@[l] as int),
            ),
        }
    }
}

impl Router {
    /// The listeners' channels, in the order they joined.
    pub closed spec fn channels(&self) -> Seq<Sender<Arc<Event>>> {
        self.listeners@
    }

    /// For each listener, how much its channel had received before it joined.
    pub closed spec fn offsets(&self) -> Seq<nat> {
        self.joined_at@
    }

    /// The stream of each listener is what its channel has received since it
    /// asked to join.
    pub open spec fn streams_match(&self) -> bool {
        &&& self@.streams.len() == self.channels().len()
        &&& self.offsets().len() == self.channels().len()
        &&& forall|l: int|
            0 <= l < self.channels().len() ==> #[trigger] self.offsets()[l] <= received(
                self.channels()[l],
            ).len()
        &&& forall|l: int|
            0 <= l < self.channels().len() ==> #[trigger] self@.streams[l] == received(
                self.channels()[l],
            ).skip(self.offsets()[l] as int)
    }

    /// The router is consistent.
    pub open spec fn wf(&self) -> bool {
        &&& router_inv(self@)
        &&& self.streams_match()
    }

    /// A router with no recorded events and no listeners.
    pub fn new() -> (r: Router)
        ensures
            r.wf(),
            r@.states == Seq::<Arc<Event>>::empty(),
            r@.streams == Seq::<Seq<Arc<Event>>>::empty(),
            r.channels() == Seq::<Sender<Arc<Event>>>::empty(),
    {
        let r = Router {
            project_states: Vec::new(),
            listeners: Vec::new(),
            joined_at: Ghost(Seq::empty()),
        };
        assert(r@.streams =~= Seq::<Seq<Arc<Event>>>::empty());
        r
    }

    /// The recorded events, one per project.
    pub fn project_states(&self) -> (r: &Vec<Arc<Event>>)
        ensures
            r@ == self@.states,
    {
        &self.project_states
    }

    /// The number of listeners.
    pub fn listener_count(&self) -> (r: usize)
        requires
            self.wf(),
        ensures
            r == self@.streams.len(),
    {
        self.listeners.len()
    }

    /// Records `ev` as the latest event of its project.
    fn record_event(&mut self, ev: Arc<Event>)
        requires
            old(self).wf(),
            !(*ev is SectionEnd),
        ensures
            final(self).wf(),
            final(self)@ == (RouterState { states: record(old(self)@.states, ev), ..old(self)@ }),
            final(self).channels() == old(self).channels(),
            final(self).offsets() == old(self).offsets(),
    {
        let ghost st = self.project_states@;
        proof {
            lemma_record(st, ev);
        }
        let mut i: usize = 0;
        while i < self.project_states.len()
            invariant
                i <= st.len(),
                self.project_states@ == st,
                st == old(self)@.states,
                self.listeners@ == old(self).listeners@,
                self.joined_at == old(self).joined_at,
                old(self).wf(),
                forall|k: int| 0 <= k < i ==> !same_project(*#[trigger] st[k], *ev),
            decreases st.len() - i,
        {
            if same_project_exec(&self.project_states[i], &ev) {
                self.project_states.set(i, ev);
                proof {
                    assert(has_project(st, ev));
                    assert forall|k: int| 0 <= k < st.len() && k != i implies !same_project(
                        *#[trigger] st[k],
                        *ev,
                    ) by {
                        if k > i {
                            assert(!same_project(*st[i as int], *st[k]));
                        }
                    }
                    assert(self.project_states@ =~= record(st, ev));
                    assert(self@.streams =~= old(self)@.streams);
                    assert(self.channels() == old(self).channels());
                    assert(self.offsets() == old(self).offsets());
                }
                return;
            }
            i = i + 1;
        }
        self.project_states.push(ev);
        proof {
            assert(!has_project(st, ev));
            assert(self.project_states@ =~= record(st, ev));
            assert(self@.streams =~= old(self)@.streams);
            assert(self.channels() == old(self).channels());
            assert(self.offsets() == old(self).offsets());
        }
    }

    /// Tries to send `ev` to every listener; a listener whose channel does
    /// not take it (full or disconnected) is dropped, the others keep their
    /// order.
    fn broadcast(&mut self, ev: Arc<Event>)
        requires
            old(self).wf(),
            !(*ev is SectionEnd),
        ensures
            final(self).wf(),
            final(self)@.states == old(self)@.states,
            kept_and_sent(old(self).channels(), ev, final(self).channels()),
            exists|f: Seq<int>|
                picks(f, old(self)@.streams.len() as int) && f.len() == final(self)@.streams.len()
                    && forall|j: int|
                    0 <= j < f.len() ==> #[trigger] final(self)@.streams[j] == old(self)@.streams[f[j]].push(ev),
    {
        let mut pending: Vec<Sender<Arc<Event>>> = Vec::new();
        std::mem::swap(&mut pending, &mut self.listeners);
        let ghost old_l = pending@;
        let ghost old_off = self.joined_at@;
        let ghost old_streams = old(self)@.streams;
        let ghost mut f: Seq<int> = Seq::empty();
        let ghost mut idx: int = 0;
        self.joined_at = Ghost(Seq::empty());
        while pending.len() > 0
            invariant
                old(self).wf(),
                !(*ev is SectionEnd),
                old_l == old(self).channels(),
                old_off == old(self).offsets(),
                old_streams == old(self)@.streams,
                self.project_states@ == old(self)@.states,
                0 <= idx <= old_l.len(),
                old_l.len() == idx + pending@.len(),
                forall|p: int| 0 <= p < pending@.len() ==> #[trigger] pending@[p] == old_l[idx + p],
                picks(f, idx),
                f.len() == self.listeners@.len(),
                self.joined_at@.len() == self.listeners@.len(),
                forall|j: int|
                    0 <= j < f.len() ==> #[trigger] received(self.listeners@[j]) == received(
                        old_l[f[j]],
                    ).push(ev) && self.joined_at@[j] == old_off[f[j]],
            decreases pending@.len(),
        {
            let mut l = pending.remove(0);
            assert(l == old_l[idx]);
            if send_event(&mut l, ev.clone()) {
                self.listeners.push(l);
                proof {
                    self.joined_at@ = self.joined_at@.push(old_off[idx]);
                    f = f.push(idx);
                }
            }
            proof {
                idx = idx + 1;
                assert forall|p: int| 0 <= p < pending@.len() implies #[trigger] pending@[p]
                    == old_l[idx + p] by {}
            }
        }
        proof {
            let ns = self@.streams;
            assert forall|j: int| 0 <= j < f.len() implies #[trigger] ns[j] == old_streams[f[j]].push(
                ev,
            ) by {
                let r0 = received(old_l[f[j]]);
                assert(old(self).offsets()[f[j]] <= r0.len());
                assert(old_streams[f[j]] == r0.skip(old_off[f[j]] as int));
                assert(ns[j] =~= r0.push(ev).skip(old_off[f[j]] as int));
                assert(r0.push(ev).skip(old_off[f[j]] as int) =~= r0.skip(old_off[f[j]] as int).push(ev));
            }
            assert(kept_and_sent(old_l, ev, self.listeners@));
            assert(self@.streams.len() == f.len());
            assert forall|j: int| 0 <= j < self.channels().len() implies #[trigger] self.offsets()[j]
                <= received(self.channels()[j]).len() by {
                assert(old(self).offsets()[f[j]] <= received(old_l[f[j]]).len());
            }
            assert forall|l: int| 0 <= l < ns.len() implies one_section_end(#[trigger] ns[l]) by {
                assert(one_section_end(old_streams[f[l]]));
                lemma_push_keeps_one(old_streams[f[l]], ev);
            }
        }
    }

    /// Sends the recorded events to `tx`, then the end of the recorded
    /// section, stopping at the first send that fails. Returns whether every
    /// send went through.
    pub fn replay_to(&self, tx: &mut Sender<Arc<Event>>) -> (ok: bool)
        ensures
            exists|k: int|
                0 <= k <= replay(self@.states).len() && received(*final(tx)) == received(*old(tx))
                    + #[trigger] replay(self@.states).take(k) && (ok <==> k == replay(
                    self@.states,
                ).len()),
    {
        let ghost r = replay(self@.states);
        let ghost r0 = received(*tx);
        let mut i: usize = 0;
        while i < self.project_states.len()
            invariant
                r == replay(self@.states),
                r0 == received(*old(tx)),
                i <= self.project_states@.len(),
                received(*tx) == r0 + r.take(i as int),
            decreases self.project_states@.len() - i,
        {
            if !send_event(tx, self.project_states[i].clone()) {
                return false;
            }
            assert(r.take(i + 1) =~= r.take(i as int).push(r[i as int]));
            assert(r[i as int] == self.project_states@[i as int]);
            i = i + 1;
        }
        let end = Arc::new(Event::SectionEnd);
        if !send_event(tx, end) {
            return false;
        }
        assert(r.take(r.len() as int) =~= r.take(i as int).push(r[i as int]));
        assert(r.take(r.len() as int) == r);
        true
    }

    /// Replays the recorded events to `tx`, then the end of the recorded
    /// section; only where every send succeeds does `tx` join the listeners.
    /// Returns whether it joined.
    pub fn add_listener(&mut self, tx: Sender<Arc<Event>>) -> (joined: bool)
        requires
            old(self).wf(),
        ensures
            final(self).wf(),
            join_step(old(self)@, final(self)@, joined),
            joined ==> final(self).channels().len() == old(self).channels().len() + 1
                && final(self).channels().drop_last() == old(self).channels()
                && received(final(self).channels().last()) == received(tx) + replay(old(self)@.states),
            !joined ==> final(self).channels() == old(self).channels(),
    {
        let mut chan = tx;
        let ghost r = replay(self@.states);
        let ghost r0 = received(chan);
        if !self.replay_to(&mut chan) {
            return false;
        }
        proof {
            let k = choose|k: int|
                0 <= k <= r.len() && received(chan) == r0 + #[trigger] r.take(k) && k == r.len();
            assert(r.take(k) =~= r);
            assert(router_inv(old(self)@));
        }
        self.listeners.push(chan);
        proof {
            self.joined_at@ = self.joined_at@.push(r0.len());
            let n = old(self).channels().len() as int;
            assert(received(chan).skip(r0.len() as int) =~= r);
            assert(self@.streams =~= old(self)@.streams.push(r));
            assert(self.channels().drop_last() =~= old(self).channels());
            let st = old(self)@.states;
            assert forall|j: int| 0 <= j < r.len() && j != st.len() implies !(*#[trigger] r[j] is SectionEnd) by {
                assert(r[j] == st[j]);
            }
            assert(r[st.len() as int] == Arc::new(Event::SectionEnd));
            assert(*r[st.len() as int] is SectionEnd);
            assert(one_section_end(r));
            assert forall|l: int| 0 <= l < self@.streams.len() implies one_section_end(#[trigger] self@.streams[l]) by {
                if l < n {
                    assert(self@.streams[l] == old(self)@.streams[l]);
                }
            }
            assert forall|l: int| 0 <= l < self.channels().len() implies #[trigger] self.offsets()[l]
                <= received(self.channels()[l]).len() by {
                if l < n {
                    assert(self.offsets()[l] == old(self).offsets()[l]);
                    assert(self.channels()[l] == old(self).channels()[l]);
                }
            }
            assert forall|l: int| 0 <= l < self.channels().len() implies #[trigger] self@.streams[l]
                == received(self.channels()[l]).skip(self.offsets()[l] as int) by {
                if l < n {
                    assert(self.offsets()[l] == old(self).offsets()[l]);
                    assert(self.channels()[l] == old(self).channels()[l]);
                }
            }
        }
        true
    }

    /// Takes in one message: a build event is recorded and broadcast
    /// (`SectionEnd` is dropped); a new listener is replayed to and joins.
    pub fn handle(&mut self, msg: LoopHandlerEvent)
        requires
            old(self).wf(),
        ensures
            final(self).wf(),
            match msg {
                LoopHandlerEvent::BuildEvent(ev) => if ev is SectionEnd {
                    final(self)@ == old(self)@ && final(self).channels() == old(self).channels()
                } else {
                    &&& broadcast_step(old(self)@, Arc::new(ev), final(self)@)
                    &&& kept_and_sent(old(self).channels(), Arc::new(ev), final(self).channels())
                },
                LoopHandlerEvent::NewListener(tx) => {
                    ||| {
                        &&& join_step(old(self)@, final(self)@, true)
                        &&& final(self).channels().drop_last() == old(self).channels()
                        &&& received(final(self).channels().last()) == received(tx) + replay(
                            old(self)@.states,
                        )
                    }
                    ||| {
                        &&& join_step(old(self)@, final(self)@, false)
                        &&& final(self).channels() == old(self).channels()
                    }
                },
            },
    {
        match msg {
            LoopHandlerEvent::BuildEvent(ev) => {
                if let Event::SectionEnd = ev {
                    return;
                }
                let a = Arc::new(ev);
                self.record_event(a.clone());
                self.broadcast(a);
            },
            LoopHandlerEvent::NewListener(tx) => {
                self.add_listener(tx);
            },
        }
    }
}

/// The project file of an event; `None` for `SectionEnd`.
fn event_nix_file(e: &Event) -> (r: Option<&NixFile>)
    ensures
        match r {
            Some(n) => event_project(*e) == Some(*n),
            None => event_project(*e) is None,
        },
{
    match e {
        Event::SectionEnd => None,
        Event::Started { nix_file, .. } => Some(nix_file),
        Event::Completed { nix_file, .. } => Some(nix_file),
        Event::Failure { nix_file, .. } => Some(nix_file),
    }
}

/// Whether two events are about the same project.
fn same_project_exec(a: &Event, b: &Event) -> (r: bool)
    ensures
        r == same_project(*a, *b),
{
    match (event_nix_file(a), event_nix_file(b)) {
        (Some(x), Some(y)) => x.path == y.path,
        (None, None) => true,
        _ => false,
    }
}

} // verus!

verus! {

/// Recording an event keeps the recorded events free of `SectionEnd` and at
/// one per project, and leaves exactly one recorded event, `ev` itself, for
/// the project of `ev`.
proof fn lemma_record(st: Seq<Arc<Event>>, ev: Arc<Event>)
    requires
        forall|i: int| 0 <= i < st.len() ==> !(*#[trigger] st[i] is SectionEnd),
        forall|i: int, j: int| 0 <= i < j < st.len() ==> !same_project(*#[trigger] st[i], *#[trigger] st[j]),
        !(*ev is SectionEnd),
    ensures
        forall|i: int| 0 <= i < record(st, ev).len() ==> !(*#[trigger] record(st, ev)[i] is SectionEnd),
        forall|i: int, j: int|
            0 <= i < j < record(st, ev).len() ==> !same_project(*#[trigger] record(st, ev)[i], *#[trigger] record(st, ev)[j]),
        exists|k: int|
            0 <= k < record(st, ev).len() && record(st, ev)[k] == ev && forall|j: int|
                0 <= j < record(st, ev).len() && j != k ==> !same_project(*#[trigger] record(st, ev)[j], *ev),
{
    let ns = record(st, ev);
    if has_project(st, ev) {
        let k = choose|k: int| 0 <= k < st.len() && same_project(*#[trigger] st[k], *ev);
        assert forall|j: int| 0 <= j < ns.len() && j != k implies !same_project(*#[trigger] ns[j], *ev) by {
            if j < k {
                assert(!same_project(*st[j], *st[k]));
            } else {
                assert(!same_project(*st[k], *st[j]));
            }
        }
        assert(ns[k] == ev);
    } else {
        let k = st.len() as int;
        assert forall|j: int| 0 <= j < ns.len() && j != k implies !same_project(*#[trigger] ns[j], *ev) by {
            assert(ns[j] == st[j]);
        }
        assert(ns[k] == ev);
        assert forall|p: int, q: int| 0 <= p < q < ns.len() implies !same_project(*#[trigger] ns[p], *#[trigger] ns[q]) by {
            assert(ns[p] == st[p]);
            if q < st.len() {
                assert(ns[q] == st[q]);
            }
        }
        assert forall|p: int| 0 <= p < ns.len() implies !(*#[trigger] ns[p] is SectionEnd) by {
            if p < st.len() {
                assert(ns[p] == st[p]);
            }
        }
    }
}

/// Broadcasting an event other than `SectionEnd` keeps the router's
/// invariant.
proof fn lemma_broadcast_inv(r0: RouterState, ev: Arc<Event>, r1: RouterState)
    requires
        router_inv(r0),
        !(*ev is SectionEnd),
        broadcast_step(r0, ev, r1),
    ensures
        router_inv(r1),
{
    lemma_record(r0.states, ev);
    let f = choose|f: Seq<int>|
        picks(f, r0.streams.len() as int) && f.len() == r1.streams.len() && forall|j: int|
            0 <= j < f.len() ==> #[trigger] r1.streams[j] == r0.streams[f[j]].push(ev);
    assert forall|l: int| 0 <= l < r1.streams.len() implies one_section_end(#[trigger] r1.streams[l]) by {
        assert(one_section_end(r0.streams[f[l]]));
        lemma_push_keeps_one(r0.streams[f[l]], ev);
    }
}

/// A listener that joins receives every recorded event, one per known
/// project, then exactly one `SectionEnd`; after that, broadcasts only append
/// live events to the streams of the listeners that stay, so every stream
/// holds exactly one `SectionEnd`.
pub proof fn joined_stream_has_one_section_end(
    r0: RouterState,
    r1: RouterState,
    ev: Arc<Event>,
    r2: RouterState,
)
    requires
        router_inv(r0),
        join_step(r0, r1, true),
        !(*ev is SectionEnd),
        broadcast_step(r1, ev, r2),
    ensures
        r1.streams.last() == r0.states.push(Arc::new(Event::SectionEnd)),
        forall|i: int| 0 <= i < r0.states.len() ==> !(*#[trigger] r0.states[i] is SectionEnd),
        forall|i: int, j: int|
            0 <= i < j < r0.states.len() ==> !same_project(*#[trigger] r0.states[i], *#[trigger] r0.states[j]),
        router_inv(r1),
        router_inv(r2),
        forall|l: int| 0 <= l < r2.streams.len() ==> one_section_end(#[trigger] r2.streams[l]),
{
    let r = replay(r0.states);
    let n = r0.states.len() as int;
    assert forall|j: int| 0 <= j < r.len() && j != n implies !(*#[trigger] r[j] is SectionEnd) by {
        assert(r[j] == r0.states[j]);
    }
    assert(r[n] == Arc::new(Event::SectionEnd));
    assert(*r[n] is SectionEnd);
    assert forall|l: int| 0 <= l < r1.streams.len() implies one_section_end(#[trigger] r1.streams[l]) by {
        if l < r0.streams.len() {
            assert(r1.streams[l] == r0.streams[l]);
        }
    }
    lemma_broadcast_inv(r1, ev, r2);
}

/// A listener whose replay failed leaves no trace: the recorded events and
/// the streams of all other listeners are as they were.
pub proof fn failed_join_leaves_others_alone(r0: RouterState, r1: RouterState)
    requires
        join_step(r0, r1, false),
    ensures
        r1.states == r0.states,
        r1.streams == r0.streams,
{
}

/// A listener connected before an event and one connected after it both see
/// it once: each earlier listener that stays receives it as its latest
/// event, and the later one finds it in its replay as the one recorded event
/// of its project. A following event then comes after it in every stream.
pub proof fn listeners_before_and_after_agree(
    r0: RouterState,
    ev: Arc<Event>,
    r1: RouterState,
    r2: RouterState,
    ev2: Arc<Event>,
    r3: RouterState,
)
    requires
        router_inv(r0),
        !(*ev is SectionEnd),
        !(*ev2 is SectionEnd),
        broadcast_step(r0, ev, r1),
        join_step(r1, r2, true),
        broadcast_step(r2, ev2, r3),
    ensures
        forall|l: int| 0 <= l < r1.streams.len() ==> (#[trigger] r1.streams[l]).last() == ev,
        exists|k: int|
            0 <= k < r2.streams.last().len() && r2.streams.last()[k] == ev && forall|j: int|
                0 <= j < r2.streams.last().len() && j != k ==> !same_project(
                    *#[trigger] r2.streams.last()[j],
                    *ev,
                ),
        forall|l: int|
            0 <= l < r3.streams.len() ==> exists|m: int|
                0 <= m < r2.streams.len() && #[trigger] r3.streams[l] == r2.streams[m].push(ev2),
{
    let f = choose|f: Seq<int>|
        picks(f, r0.streams.len() as int) && f.len() == r1.streams.len() && forall|j: int|
            0 <= j < f.len() ==> #[trigger] r1.streams[j] == r0.streams[f[j]].push(ev);
    assert forall|l: int| 0 <= l < r1.streams.len() implies (#[trigger] r1.streams[l]).last() == ev by {
        assert(r1.streams[l] == r0.streams[f[l]].push(ev));
    }
    lemma_record(r0.states, ev);
    let st = r1.states;
    let k = choose|k: int|
        0 <= k < st.len() && st[k] == ev && forall|j: int|
            0 <= j < st.len() && j != k ==> !same_project(*#[trigger] st[j], *ev);
    let t = r2.streams.last();
    assert(t == st.push(Arc::new(Event::SectionEnd)));
    assert(t[k] == ev);
    assert forall|j: int| 0 <= j < t.len() && j != k implies !same_project(*#[trigger] t[j], *ev) by {
        if j < st.len() {
            assert(t[j] == st[j]);
        } else {
            assert(t[j] == Arc::new(Event::SectionEnd));
        }
    }
    let g = choose|g: Seq<int>|
        picks(g, r2.streams.len() as int) && g.len() == r3.streams.len() && forall|j: int|
            0 <= j < g.len() ==> #[trigger] r3.streams[j] == r2.streams[g[j]].push(ev2);
    assert forall|l: int| 0 <= l < r3.streams.len() implies exists|m: int|
        0 <= m < r2.streams.len() && #[trigger] r3.streams[l] == r2.streams[m].push(ev2) by {
        assert(r3.streams[l] == r2.streams[g[l]].push(ev2));
        assert(0 <= g[l] < r2.streams.len());
    }
}

} // verus!
