//! The session registry and the pairing protocol.
//!
//! A session is keyed by an opaque string id. The first connection to arrive
//! for an id creates the session's signal channel pair and leaves the peer's
//! ends in a waiting status; the second connection of the opposite role takes
//! those ends and establishes the session. Arrival in an impossible status is
//! a protocol violation, reported and left unrepaired.
//!
//! This module is the sequential model of that registry: entries live in one
//! structure, channel pairs in a side table indexed by handle, and every
//! transition has a specification twin over the registry's mathematical view,
//! so that the rendezvous and teardown laws can be stated and proved.

use vstd::prelude::*;

use crate::channel::{
    recv_v, send_v, opt_signal, ChannelView, QueueView, SigChannel, SigQueue, CHANNEL_CAPACITY,
};
use crate::messages::{MessageEnRoute, MsgError, ProtocolViolation, Signal};

verus! {

/// The two fixed roles of a session.
#[derive(Debug, Clone, Copy, PartialEq, Eq, Structural)]
pub enum Role {
    Conductor,
    Attendee,
}

/// The opposite role.
pub open spec fn peer(r: Role) -> Role {
    match r {
        Role::Conductor => Role::Attendee,
        Role::Attendee => Role::Conductor,
    }
}

/// Where a session stands between the arrival of its first connection and its
/// rendezvous. A waiting status carries the handle of the session's channel
/// pair, which the awaited role will take over.
#[derive(Debug, Clone, Copy, PartialEq, Eq, Structural)]
pub enum ConnectionStatus {
    WaitingForConductor(usize),
    WaitingForAttendee(usize),
    Established,
}

/// One session registry entry.
#[derive(Debug, Clone, Copy, PartialEq, Eq, Structural)]
pub struct Conduction {
    pub status: ConnectionStatus,
}

/// The waiting status that awaits `r`.
pub open spec fn waiting_for(r: Role, chan: usize) -> ConnectionStatus {
    match r {
        Role::Conductor => ConnectionStatus::WaitingForConductor(chan),
        Role::Attendee => ConnectionStatus::WaitingForAttendee(chan),
    }
}

/// Mathematical view of one live connection's stake in a session: the session
/// id, the channel pair handle, and the connection's role.
pub struct ParticipantV {
    pub zerra_id: Seq<char>,
    pub chan: int,
    pub role: Role,
}

/// One live connection's stake in a session, handed out by the pairing
/// protocol and owned by that connection's pump until it exits.
pub struct Participant {
    zerra_id: String,
    chan: usize,
    role: Role,
}

impl View for Participant {
    type V = ParticipantV;

    closed spec fn view(&self) -> ParticipantV {
        ParticipantV { zerra_id: self.zerra_id@, chan: self.chan as int, role: self.role }
    }
}

impl Participant {
    /// The session this connection participates in.
    pub fn zerra_id(&self) -> (r: &String)
        ensures
            r@ == self@.zerra_id,
    {
        &self.zerra_id
    }

    /// This connection's role.
    pub fn role(&self) -> (r: Role)
        ensures
            r == self@.role,
    {
        self.role
    }
}

/// Mathematical view of the whole registry: the sessions by id, and the
/// channel pairs by handle.
#[verifier::ext_equal]
pub struct RegistryView {
    pub sessions: Map<Seq<char>, ConnectionStatus>,
    pub channels: Seq<ChannelView>,
}

/// A channel handle stored in a status is a valid index into the channel
/// table.
pub open spec fn status_ok(st: ConnectionStatus, n: int) -> bool {
    match st {
        ConnectionStatus::WaitingForConductor(i) => i < n,
        ConnectionStatus::WaitingForAttendee(i) => i < n,
        ConnectionStatus::Established => true,
    }
}

/// Well-formedness of a registry view: waiting statuses point into the
/// channel table.
pub open spec fn view_wf(v: RegistryView) -> bool {
    forall|id: Seq<char>|
        v.sessions.contains_key(id) ==> status_ok(#[trigger] v.sessions[id], v.channels.len() as int)
}

/// A fresh channel pair: both queues empty, both receivers live.
pub open spec fn fresh_channel_v() -> ChannelView {
    ChannelView {
        to_conductor: QueueView { items: Seq::<Signal>::empty(), receiver_live: true },
        to_attendee: QueueView { items: Seq::<Signal>::empty(), receiver_live: true },
    }
}

/// The queue `r` sends on.
pub open spec fn out_queue(c: ChannelView, r: Role) -> QueueView {
    match r {
        Role::Conductor => c.to_attendee,
        Role::Attendee => c.to_conductor,
    }
}

/// The queue `r` receives on.
pub open spec fn in_queue(c: ChannelView, r: Role) -> QueueView {
    out_queue(c, peer(r))
}

/// Replace the queue `r` sends on.
pub open spec fn with_out_queue(c: ChannelView, r: Role, q: QueueView) -> ChannelView {
    match r {
        Role::Conductor => ChannelView { to_attendee: q, ..c },
        Role::Attendee => ChannelView { to_conductor: q, ..c },
    }
}

/// Replace the queue `r` receives on.
pub open spec fn with_in_queue(c: ChannelView, r: Role, q: QueueView) -> ChannelView {
    with_out_queue(c, peer(r), q)
}

/// Whether a status is the waiting state that an arrival by `role`
/// completes.
pub open spec fn awaits(st: ConnectionStatus, role: Role) -> bool {
    st == waiting_for(role, channel_of(st)) && st != ConnectionStatus::Established
}

/// What one pairing attempt by `role` does to the registry.
///
/// - No entry: create a fresh channel pair, leave the peer's waiting status
///   in the registry, and hand this role its own ends.
/// - The peer's waiting status: take the stored ends and establish the
///   session.
/// - Anything else: a protocol violation; the registry is left untouched.
pub open spec fn init_v(v: RegistryView, id: Seq<char>, role: Role) -> (
    RegistryView,
    Result<ParticipantV, ProtocolViolation>,
) {
    if !v.sessions.contains_key(id) {
        let c = v.channels.len() as int;
        (
            RegistryView {
                sessions: v.sessions.insert(id, waiting_for(peer(role), c as usize)),
                channels: v.channels.push(fresh_channel_v()),
            },
            Ok(ParticipantV { zerra_id: id, chan: c, role }),
        )
    } else if awaits(v.sessions[id], role) {
        (
            RegistryView {
                sessions: v.sessions.insert(id, ConnectionStatus::Established),
                ..v
            },
            Ok(ParticipantV { zerra_id: id, chan: channel_of(v.sessions[id]) as int, role }),
        )
    } else {
        (v, Err(ProtocolViolation))
    }
}

/// The channel handle a waiting status carries.
pub open spec fn channel_of(st: ConnectionStatus) -> usize {
    match st {
        ConnectionStatus::WaitingForConductor(i) => i,
        ConnectionStatus::WaitingForAttendee(i) => i,
        ConnectionStatus::Established => 0,
    }
}

/// What a completed signal send by `p` does to the registry: the send lands
/// on the queue towards `p`'s peer.
pub open spec fn send_signal_v(v: RegistryView, p: ParticipantV, s: Signal) -> (
    RegistryView,
    Result<(), MsgError>,
) {
    let c = v.channels[p.chan];
    let (q2, r) = send_v(out_queue(c, p.role), s);
    (
        RegistryView { channels: v.channels.update(p.chan, with_out_queue(c, p.role, q2)), ..v },
        r,
    )
}

/// What a receive by `p` does to the registry: the oldest signal on the queue
/// from `p`'s peer is taken, if any.
pub open spec fn recv_signal_v(v: RegistryView, p: ParticipantV) -> (
    RegistryView,
    Option<Signal>,
) {
    let c = v.channels[p.chan];
    let (q2, r) = recv_v(in_queue(c, p.role));
    (
        RegistryView { channels: v.channels.update(p.chan, with_in_queue(c, p.role, q2)), ..v },
        r,
    )
}

/// What `p`'s teardown does to the registry, in one explicit total order:
/// a best-effort `Kill` to the peer (dropped if the peer's receive end is
/// gone or the queue is full), then the release of `p`'s own receive end,
/// then the unconditional removal of the session entry.
pub open spec fn teardown_v(v: RegistryView, p: ParticipantV) -> RegistryView {
    let c = v.channels[p.chan];
    let oq = out_queue(c, p.role);
    let c1 = if oq.receiver_live && oq.items.len() < CHANNEL_CAPACITY {
        with_out_queue(c, p.role, QueueView { items: oq.items.push(Signal::Kill), ..oq })
    } else {
        c
    };
    let iq = in_queue(c1, p.role);
    let c2 = with_in_queue(c1, p.role, QueueView { receiver_live: false, ..iq });
    RegistryView {
        sessions: v.sessions.remove(p.zerra_id),
        channels: v.channels.update(p.chan, c2),
    }
}

/// What removing an entry does to the registry.
pub open spec fn remove_v(v: RegistryView, id: Seq<char>) -> RegistryView {
    RegistryView { sessions: v.sessions.remove(id), ..v }
}

/// View of a pairing result.
pub open spec fn res_view(r: Result<Participant, ProtocolViolation>) -> Result<
    ParticipantV,
    ProtocolViolation,
> {
    match r {
        Ok(p) => Ok(p@),
        Err(e) => Err(e),
    }
}

/// The sessions of an association list, later entries overriding earlier
/// ones; with distinct keys the order is irrelevant.
pub open spec fn assoc_map(s: Seq<(String, Conduction)>) -> Map<Seq<char>, ConnectionStatus>
    decreases s.len(),
{
    if s.len() == 0 {
        Map::empty()
    } else {
        assoc_map(s.drop_last()).insert(s.last().0@, s.last().1.status)
    }
}

/// The association list holds no key twice.
pub open spec fn distinct_keys(s: Seq<(String, Conduction)>) -> bool {
    forall|i: int, j: int| 0 <= i < j < s.len() ==> (#[trigger] s[i]).0@ != (#[trigger] s[j]).0@
}

proof fn lemma_distinct_drop_last(s: Seq<(String, Conduction)>)
    requires
        distinct_keys(s),
        s.len() > 0,
    ensures
        distinct_keys(s.drop_last()),
{
    assert forall|i: int, j: int| 0 <= i < j < s.drop_last().len() implies (#[trigger] s.drop_last()[i]).0@
        != (#[trigger] s.drop_last()[j]).0@ by {
        assert(s.drop_last()[i] == s[i]);
        assert(s.drop_last()[j] == s[j]);
    }
}

/// With distinct keys, the association map contains a key exactly when some
/// entry carries it, and then maps it to that entry's status.
pub proof fn lemma_assoc_map(s: Seq<(String, Conduction)>, k: Seq<char>)
    requires
        distinct_keys(s),
    ensures
        assoc_map(s).contains_key(k) <==> (exists|i: int|
            0 <= i < s.len() && (#[trigger] s[i]).0@ == k),
        forall|i: int|
            0 <= i < s.len() && (#[trigger] s[i]).0@ == k ==> assoc_map(s).contains_key(k)
                && assoc_map(s)[k] == s[i].1.status,
    decreases s.len(),
{
    if s.len() > 0 {
        lemma_distinct_drop_last(s);
        lemma_assoc_map(s.drop_last(), k);
        let last = s.last();
        if last.0@ == k {
            assert(s[s.len() - 1].0@ == k);
        } else {
            assert forall|i: int| 0 <= i < s.len() && (#[trigger] s[i]).0@ == k implies assoc_map(
                s,
            ).contains_key(k) && assoc_map(s)[k] == s[i].1.status by {
                assert(i < s.len() - 1);
                assert(s.drop_last()[i] == s[i]);
            }
            if exists|i: int| 0 <= i < s.len() && (#[trigger] s[i]).0@ == k {
                let i = choose|i: int| 0 <= i < s.len() && (#[trigger] s[i]).0@ == k;
                assert(s.drop_last()[i] == s[i]);
            }
        }
    }
}

/// Appending an entry inserts its session.
pub proof fn lemma_assoc_push(s: Seq<(String, Conduction)>, p: (String, Conduction))
    ensures
        assoc_map(s.push(p)) == assoc_map(s).insert(p.0@, p.1.status),
{
    assert(s.push(p).drop_last() =~= s);
    assert(s.push(p).last() == p);
}

/// Removing an entry removes its session; the other entries are unaffected.
pub proof fn lemma_assoc_remove(s: Seq<(String, Conduction)>, i: int)
    requires
        distinct_keys(s),
        0 <= i < s.len(),
    ensures
        assoc_map(s.remove(i)) =~= assoc_map(s).remove(s[i].0@),
        distinct_keys(s.remove(i)),
    decreases s.len(),
{
    let k = s[i].0@;
    assert forall|x: int, y: int| 0 <= x < y < s.remove(i).len() implies (#[trigger] s.remove(
        i,
    )[x]).0@ != (#[trigger] s.remove(i)[y]).0@ by {
        let x0 = if x < i { x } else { x + 1 };
        let y0 = if y < i { y } else { y + 1 };
        assert(s.remove(i)[x] == s[x0]);
        assert(s.remove(i)[y] == s[y0]);
    }
    if i == s.len() - 1 {
        assert(s.remove(i) =~= s.drop_last());
        lemma_distinct_drop_last(s);
        lemma_assoc_map(s.drop_last(), k);
        assert(forall|j: int| 0 <= j < s.drop_last().len() ==> (#[trigger] s.drop_last()[j]).0@
            != k);
        assert(!assoc_map(s.drop_last()).contains_key(k));
        assert(assoc_map(s.remove(i)) =~= assoc_map(s).remove(k));
    } else {
        lemma_distinct_drop_last(s);
        assert(s.remove(i).drop_last() =~= s.drop_last().remove(i));
        assert(s.remove(i).last() == s.last());
        lemma_assoc_remove(s.drop_last(), i);
        assert(assoc_map(s.remove(i)) == assoc_map(s.drop_last().remove(i)).insert(
            s.last().0@,
            s.last().1.status,
        ));
        assert(s.last().0@ != k);
        assert(assoc_map(s.drop_last()).remove(k).insert(s.last().0@, s.last().1.status)
            =~= assoc_map(s.drop_last()).insert(s.last().0@, s.last().1.status).remove(k));
        assert(assoc_map(s.remove(i)) =~= assoc_map(s).remove(k));
    }
}

/// The session registry: a mapping from session id to session status, with
/// the channel pairs the waiting statuses refer to. Entry transitions are
/// atomic per key; the model is sequential, so atomicity is by construction.
pub struct ConductionRegistry {
    entries: Vec<(String, Conduction)>,
    channels: Vec<SigChannel>,
}

impl View for ConductionRegistry {
    type V = RegistryView;

    closed spec fn view(&self) -> RegistryView {
        RegistryView {
            sessions: assoc_map(self.entries@),
            channels: self.channels@.map_values(|c: SigChannel| c@),
        }
    }
}

impl ConductionRegistry {
    /// The registry's internal invariant.
    pub closed spec fn wf(&self) -> bool {
        distinct_keys(self.entries@) && view_wf(self@)
    }

    /// The invariant implies well-formedness of the view.
    pub proof fn lemma_wf_view(&self)
        requires
            self.wf(),
        ensures
            view_wf(self@),
    {
    }

    /// An empty registry.
    pub fn new() -> (r: ConductionRegistry)
        ensures
            r.wf(),
            r@.sessions == Map::<Seq<char>, ConnectionStatus>::empty(),
            r@.channels == Seq::<ChannelView>::empty(),
    {
        let r = ConductionRegistry { entries: Vec::new(), channels: Vec::new() };
        proof {
            assert(r@.channels =~= Seq::<ChannelView>::empty());
        }
        r
    }

    /// The index of the entry for `id`, if any.
    fn find(&self, id: &String) -> (r: Option<usize>)
        ensures
            match r {
                Some(i) => i < self.entries@.len() && self.entries@[i as int].0@ == id@,
                None => forall|i: int|
                    0 <= i < self.entries@.len() ==> (#[trigger] self.entries@[i]).0@ != id@,
            },
    {
        let n = self.entries.len();
        let mut i: usize = 0;
        while i < n
            invariant
                i <= n,
                n == self.entries@.len(),
                forall|j: int| 0 <= j < i ==> (#[trigger] self.entries@[j]).0@ != id@,
            decreases n - i,
        {
            if self.entries[i].0 == *id {
                return Some(i);
            }
            i += 1;
        }
        None
    }

    /// The status of the session `id`, if one exists.
    pub fn status_of(&self, id: &String) -> (r: Option<ConnectionStatus>)
        requires
            self.wf(),
        ensures
            match r {
                Some(st) => self@.sessions.contains_key(id@) && self@.sessions[id@] == st,
                None => !self@.sessions.contains_key(id@),
            },
    {
        proof {
            lemma_assoc_map(self.entries@, id@);
        }
        match self.find(id) {
            Some(i) => Some(self.entries[i].1.status),
            None => None,
        }
    }

    /// One pairing attempt by `role`, per `init_v`.
    fn init_role(&mut self, id: &String, role: Role) -> (r: Result<Participant, ProtocolViolation>)
        requires
            old(self).wf(),
        ensures
            final(self).wf(),
            final(self)@ == init_v(old(self)@, id@, role).0,
            res_view(r) == init_v(old(self)@, id@, role).1,
    {
        proof {
            lemma_assoc_map(self.entries@, id@);
        }
        match self.find(id) {
            Some(i) => {
                let st = self.entries[i].1.status;
                let taken: Option<usize> = match (st, role) {
                    (ConnectionStatus::WaitingForConductor(c), Role::Conductor) => Some(c),
                    (ConnectionStatus::WaitingForAttendee(c), Role::Attendee) => Some(c),
                    _ => None,
                };
                match taken {
                    Some(c) => {
                        let ghost s0 = self.entries@;
                        let ghost v0 = old(self)@;
                        let pair = self.entries.remove(i);
                        self.entries.push(
                            (pair.0, Conduction { status: ConnectionStatus::Established }),
                        );
                        proof {
                            lemma_assoc_remove(s0, i as int);
                            lemma_assoc_push(s0.remove(i as int), self.entries@.last());
                            assert forall|x: int, y: int|
                                0 <= x < y < self.entries@.len() implies (#[trigger] self.entries@[x]).0@
                                != (#[trigger] self.entries@[y]).0@ by {
                                if y == self.entries@.len() - 1 {
                                    let x0 = if x < i as int { x } else { x + 1 };
                                    assert(s0.remove(i as int)[x] == s0[x0]);
                                }
                            }
                            assert(self@.sessions =~= v0.sessions.insert(id@, ConnectionStatus::Established));
                            assert(self@.channels =~= v0.channels);
                            assert(v0.sessions[id@] == st);
                            assert(st == waiting_for(role, c) && channel_of(st) == c);
                            assert(self@ =~= init_v(v0, id@, role).0);
                            assert forall|other: Seq<char>| self@.sessions.contains_key(other)
                                implies status_ok(#[trigger] self@.sessions[other], self@.channels.len() as int) by {
                                if other != id@ {
                                    assert(self@.sessions[other] == v0.sessions[other]);
                                }
                            }
                        }
                        Ok(Participant { zerra_id: id.clone(), chan: c, role })
                    },
                    None => {
                        proof {
                            assert(old(self)@.sessions[id@] == st);
                            assert(init_v(old(self)@, id@, role).1 == Err::<
                                ParticipantV,
                                ProtocolViolation,
                            >(ProtocolViolation));
                        }
                        Err(ProtocolViolation)
                    },
                }
            },
            None => {
                let ghost s0 = self.entries@;
                let ghost v0 = old(self)@;
                let c = self.channels.len();
                self.channels.push(SigChannel::new());
                let st = match role {
                    Role::Conductor => ConnectionStatus::WaitingForAttendee(c),
                    Role::Attendee => ConnectionStatus::WaitingForConductor(c),
                };
                self.entries.push((id.clone(), Conduction { status: st }));
                proof {
                    lemma_assoc_push(s0, self.entries@.last());
                    assert(!v0.sessions.contains_key(id@));
                    assert(st == waiting_for(peer(role), c));
                    assert(self@.sessions =~= v0.sessions.insert(id@, st));
                    assert(self@.channels =~= v0.channels.push(fresh_channel_v()));
                    assert(self@ =~= init_v(v0, id@, role).0);
                    assert forall|x: int, y: int|
                        0 <= x < y < self.entries@.len() implies (#[trigger] self.entries@[x]).0@
                        != (#[trigger] self.entries@[y]).0@ by {
                        if y == self.entries@.len() - 1 {
                            assert(self.entries@[x] == s0[x]);
                        }
                    }
                    assert forall|other: Seq<char>| self@.sessions.contains_key(other)
                        implies status_ok(#[trigger] self@.sessions[other], self@.channels.len() as int) by {
                        if other != id@ {
                            assert(self@.sessions[other] == v0.sessions[other]);
                            assert(status_ok(v0.sessions[other], v0.channels.len() as int));
                        }
                    }
                }
                Ok(Participant { zerra_id: id.clone(), chan: c, role })
            },
        }
    }

    /// Send one signal from `p` to its peer; models the completion of an
    /// awaited channel send.
    pub fn send_signal(&mut self, p: &Participant, m: MessageEnRoute) -> (r: Result<(), MsgError>)
        requires
            old(self).wf(),
            0 <= p@.chan < old(self)@.channels.len(),
            out_queue(old(self)@.channels[p@.chan], p@.role).items.len() < CHANNEL_CAPACITY,
        ensures
            final(self).wf(),
            final(self)@ == send_signal_v(old(self)@, p@, m@).0,
            r == send_signal_v(old(self)@, p@, m@).1,
    {
        let idx = p.chan;
        let ghost v0 = old(self)@;
        let ghost cs0 = self.channels@;
        let mut ch = self.channels.remove(idx);
        let r = match p.role {
            Role::Conductor => ch.to_attendee.send(m),
            Role::Attendee => ch.to_conductor.send(m),
        };
        self.channels.insert(idx, ch);
        proof {
            assert(self.channels@ =~= cs0.update(idx as int, self.channels@[idx as int]));
            assert(self@.channels =~= v0.channels.update(
                idx as int,
                with_out_queue(v0.channels[idx as int], p@.role, send_v(out_queue(v0.channels[idx as int], p@.role), m@).0),
            ));
            assert(self@ =~= send_signal_v(v0, p@, m@).0);
            assert(self@.sessions == v0.sessions);
        }
        r
    }

    /// Receive the oldest signal sent to `p`, if any.
    pub fn recv_signal(&mut self, p: &Participant) -> (r: Option<MessageEnRoute>)
        requires
            old(self).wf(),
            0 <= p@.chan < old(self)@.channels.len(),
        ensures
            final(self).wf(),
            final(self)@ == recv_signal_v(old(self)@, p@).0,
            opt_signal(r) == recv_signal_v(old(self)@, p@).1,
    {
        let idx = p.chan;
        let ghost v0 = old(self)@;
        let ghost cs0 = self.channels@;
        let mut ch = self.channels.remove(idx);
        let r = match p.role {
            Role::Conductor => ch.to_conductor.recv(),
            Role::Attendee => ch.to_attendee.recv(),
        };
        self.channels.insert(idx, ch);
        proof {
            assert(self.channels@ =~= cs0.update(idx as int, self.channels@[idx as int]));
            assert(self@.channels =~= v0.channels.update(
                idx as int,
                with_in_queue(v0.channels[idx as int], p@.role, recv_v(in_queue(v0.channels[idx as int], p@.role)).0),
            ));
            assert(self@ =~= recv_signal_v(v0, p@).0);
        }
        r
    }

    /// Tear a participant's connection down: best-effort `Kill` to the peer,
    /// release of this side's receive end, and unconditional removal of the
    /// session entry, in that order.
    pub fn teardown(&mut self, p: &Participant)
        requires
            old(self).wf(),
            0 <= p@.chan < old(self)@.channels.len(),
        ensures
            final(self).wf(),
            final(self)@ == teardown_v(old(self)@, p@),
    {
        let idx = p.chan;
        let ghost v0 = old(self)@;
        let ghost cs0 = self.channels@;
        let mut ch = self.channels.remove(idx);
        match p.role {
            Role::Conductor => {
                if ch.to_attendee.is_receiver_live() && ch.to_attendee.len() < CHANNEL_CAPACITY {
                    let _ = ch.to_attendee.send(MessageEnRoute::Kill);
                }
                ch.to_conductor.close();
            },
            Role::Attendee => {
                if ch.to_conductor.is_receiver_live() && ch.to_conductor.len() < CHANNEL_CAPACITY {
                    let _ = ch.to_conductor.send(MessageEnRoute::Kill);
                }
                ch.to_attendee.close();
            },
        }
        self.channels.insert(idx, ch);
        proof {
            assert(self.channels@ =~= cs0.update(idx as int, self.channels@[idx as int]));
            assert(self@.channels =~= teardown_v(v0, p@).channels);
            assert(self@.sessions == v0.sessions);
            assert forall|other: Seq<char>| self@.sessions.contains_key(other)
                implies status_ok(#[trigger] self@.sessions[other], self@.channels.len() as int) by {
                assert(self@.sessions[other] == v0.sessions[other]);
            }
            assert(self.wf());
        }
        let id = p.zerra_id.clone();
        self.remove(&id);
        proof {
            assert(self@ =~= teardown_v(v0, p@));
        }
    }

    /// Remove the entry for `id` unconditionally; used by teardown.
    pub fn remove(&mut self, id: &String)
        requires
            old(self).wf(),
        ensures
            final(self).wf(),
            final(self)@ == remove_v(old(self)@, id@),
    {
        proof {
            lemma_assoc_map(self.entries@, id@);
        }
        match self.find(id) {
            Some(i) => {
                let ghost s0 = self.entries@;
                self.entries.remove(i);
                proof {
                    lemma_assoc_remove(s0, i as int);
                    assert(self@ =~= remove_v(old(self)@, id@));
                }
            },
            None => {
                proof {
                    assert(!old(self)@.sessions.contains_key(id@));
                    assert(old(self)@.sessions.remove(id@) =~= old(self)@.sessions);
                    assert(self@ =~= remove_v(old(self)@, id@));
                }
            },
        }
    }
}

/// What one inbound conductor message does: nothing if the storage
/// collaborator failed to persist the carried blob, otherwise the carried
/// patch, if any, is relayed to the attendee.
pub open spec fn conductor_on_message_v(
    v: RegistryView,
    p: ParticipantV,
    m: crate::messages::FromConductorV,
    store_ok: bool,
) -> (RegistryView, Result<(), MsgError>) {
    if !store_ok {
        (v, Err(MsgError::Db))
    } else {
        match m.patch {
            Some(patch) => send_signal_v(v, p, Signal::Patch(patch)),
            None => (v, Ok(())),
        }
    }
}

/// What one inbound attendee message does: the proposed patch is relayed to
/// the conductor.
pub open spec fn attendee_on_message_v(
    v: RegistryView,
    p: ParticipantV,
    m: crate::messages::FromAttendeeV,
) -> (RegistryView, Result<(), MsgError>) {
    send_signal_v(v, p, Signal::Patch(m.patch))
}

/// The conductor role: the half of a session that owns persistence of
/// updates.
pub struct Conductor;

/// The attendee role: the half of a session that only proposes patches.
pub struct Attendee;

impl Conductor {
    /// A conductor's pairing attempt for the session `zerra_id`.
    pub fn init(reg: &mut ConductionRegistry, zerra_id: &String) -> (r: Result<
        Participant,
        ProtocolViolation,
    >)
        requires
            old(reg).wf(),
        ensures
            final(reg).wf(),
            final(reg)@ == init_v(old(reg)@, zerra_id@, Role::Conductor).0,
            res_view(r) == init_v(old(reg)@, zerra_id@, Role::Conductor).1,
    {
        reg.init_role(zerra_id, Role::Conductor)
    }

    /// The effect of one inbound conductor message. The caller has already
    /// asked the storage collaborator to persist `msg.blob` and passes its
    /// verdict as `store_ok`; a failed persist abandons the message before
    /// any relaying.
    pub fn on_message(
        reg: &mut ConductionRegistry,
        p: &Participant,
        msg: crate::messages::MessageFromConductor,
        store_ok: bool,
    ) -> (r: Result<(), MsgError>)
        requires
            old(reg).wf(),
            p@.role == Role::Conductor,
            0 <= p@.chan < old(reg)@.channels.len(),
            out_queue(old(reg)@.channels[p@.chan], p@.role).items.len() < CHANNEL_CAPACITY,
        ensures
            final(reg).wf(),
            final(reg)@ == conductor_on_message_v(old(reg)@, p@, msg@, store_ok).0,
            r == conductor_on_message_v(old(reg)@, p@, msg@, store_ok).1,
    {
        if !store_ok {
            return Err(MsgError::Db);
        }
        match msg.patch {
            Some(patch) => reg.send_signal(p, MessageEnRoute::Patch(patch)),
            None => Ok(()),
        }
    }
}

impl Attendee {
    /// An attendee's pairing attempt for the session `zerra_id`.
    pub fn init(reg: &mut ConductionRegistry, zerra_id: &String) -> (r: Result<
        Participant,
        ProtocolViolation,
    >)
        requires
            old(reg).wf(),
        ensures
            final(reg).wf(),
            final(reg)@ == init_v(old(reg)@, zerra_id@, Role::Attendee).0,
            res_view(r) == init_v(old(reg)@, zerra_id@, Role::Attendee).1,
    {
        reg.init_role(zerra_id, Role::Attendee)
    }

    /// The effect of one inbound attendee message: the proposed patch goes to
    /// the conductor, who persists it on arrival; attendee data never touches
    /// storage directly.
    pub fn on_message(
        reg: &mut ConductionRegistry,
        p: &Participant,
        msg: crate::messages::MessageFromAttendee,
    ) -> (r: Result<(), MsgError>)
        requires
            old(reg).wf(),
            p@.role == Role::Attendee,
            0 <= p@.chan < old(reg)@.channels.len(),
            out_queue(old(reg)@.channels[p@.chan], p@.role).items.len() < CHANNEL_CAPACITY,
        ensures
            final(reg).wf(),
            final(reg)@ == attendee_on_message_v(old(reg)@, p@, msg@).0,
            r == attendee_on_message_v(old(reg)@, p@, msg@).1,
    {
        reg.send_signal(p, MessageEnRoute::Patch(msg.patch))
    }
}

impl Participant {
    /// A pairing attempt by `role`, the common constructor behind both
    /// roles' entry points.
    pub fn new(reg: &mut ConductionRegistry, zerra_id: &String, role: Role) -> (r: Result<
        Participant,
        ProtocolViolation,
    >)
        requires
            old(reg).wf(),
        ensures
            final(reg).wf(),
            final(reg)@ == init_v(old(reg)@, zerra_id@, role).0,
            res_view(r) == init_v(old(reg)@, zerra_id@, role).1,
    {
        match role {
            Role::Conductor => Conductor::init(reg, zerra_id),
            Role::Attendee => Attendee::init(reg, zerra_id),
        }
    }
}

} // verus!
