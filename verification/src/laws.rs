//! The laws of the session core, stated over the specification twins of the
//! registry and channel transitions and proved once and for all.

use vstd::prelude::*;

use crate::channel::{recv_v, send_v, QueueView, CHANNEL_CAPACITY};
use crate::conduction::{
    channel_of, in_queue, init_v, out_queue, peer, remove_v, send_signal_v, recv_signal_v,
    teardown_v, view_wf, waiting_for, ConnectionStatus, ParticipantV, RegistryView, Role,
};
use crate::messages::{MsgError, ProtocolViolation, Signal};

verus! {

/// One pairing attempt per role on the same id, in either arrival order,
/// yields exactly one established session; both attempts succeed, both
/// participants share the session's channel pair, and once each has sent its
/// presence signal, each receives the other's.
pub proof fn lemma_rendezvous_either_order(v: RegistryView, id: Seq<char>, first: Role)
    requires
        view_wf(v),
        !v.sessions.contains_key(id),
        v.channels.len() <= usize::MAX,
    ensures
        ({
            let c = v.channels.len() as int;
            let p1 = ParticipantV { zerra_id: id, chan: c, role: first };
            let p2 = ParticipantV { zerra_id: id, chan: c, role: peer(first) };
            let (v1, r1) = init_v(v, id, first);
            let (v2, r2) = init_v(v1, id, peer(first));
            &&& r1 == Ok::<ParticipantV, ProtocolViolation>(p1)
            &&& r2 == Ok::<ParticipantV, ProtocolViolation>(p2)
            &&& v1.sessions =~= v.sessions.insert(id, waiting_for(peer(first), c as usize))
            &&& v2.sessions =~= v.sessions.insert(id, ConnectionStatus::Established)
            &&& ({
                let (v3, s1) = send_signal_v(v2, p1, Signal::Presence);
                let (v4, s2) = send_signal_v(v3, p2, Signal::Presence);
                &&& s1 == Ok::<(), MsgError>(())
                &&& s2 == Ok::<(), MsgError>(())
                &&& recv_signal_v(v4, p1).1 == Some(Signal::Presence)
                &&& recv_signal_v(v4, p2).1 == Some(Signal::Presence)
            })
        }),
{
    let c = v.channels.len() as int;
    let p1 = ParticipantV { zerra_id: id, chan: c, role: first };
    let p2 = ParticipantV { zerra_id: id, chan: c, role: peer(first) };
    let (v1, r1) = init_v(v, id, first);
    let (v2, r2) = init_v(v1, id, peer(first));
    assert(c as usize as int == c);
    assert(v1.sessions.contains_key(id));
    assert(v1.sessions[id] == waiting_for(peer(first), c as usize));
    assert(channel_of(v1.sessions[id]) == c as usize);
    assert(peer(peer(first)) == first);
    assert(r2 == Ok::<ParticipantV, ProtocolViolation>(p2));
    assert(v2.sessions =~= v.sessions.insert(id, ConnectionStatus::Established));
    let ch = v1.channels[c];
    assert(ch == crate::conduction::fresh_channel_v());
    let (v3, s1) = send_signal_v(v2, p1, Signal::Presence);
    let (v4, s2) = send_signal_v(v3, p2, Signal::Presence);
    assert(v2.channels[c] == ch);
    assert(out_queue(ch, first).receiver_live);
    assert(s1 == Ok::<(), MsgError>(()));
    assert(v3.channels[c] == with_both(ch, first));
    assert(out_queue(v3.channels[c], peer(first)).receiver_live);
    assert(s2 == Ok::<(), MsgError>(()));
    assert(in_queue(v4.channels[c], first).items =~= seq![Signal::Presence]);
    assert(in_queue(v4.channels[c], peer(first)).items =~= seq![Signal::Presence]);
}

/// Helper: a fresh channel after `first` has sent one presence signal.
spec fn with_both(ch: crate::channel::ChannelView, first: Role) -> crate::channel::ChannelView {
    crate::conduction::with_out_queue(
        ch,
        first,
        QueueView { items: out_queue(ch, first).items.push(Signal::Presence), ..out_queue(ch, first) },
    )
}

/// After a session's registry entry is removed, a fresh pairing attempt per
/// role rendezvouses again from a clean slate: no residual entry blocks
/// re-pairing.
pub proof fn lemma_fresh_rendezvous_after_removal(v: RegistryView, id: Seq<char>, first: Role)
    requires
        view_wf(v),
        v.channels.len() <= usize::MAX,
    ensures
        !remove_v(v, id).sessions.contains_key(id),
        ({
            let vr = remove_v(v, id);
            let c = vr.channels.len() as int;
            let p1 = ParticipantV { zerra_id: id, chan: c, role: first };
            let p2 = ParticipantV { zerra_id: id, chan: c, role: peer(first) };
            let (v1, r1) = init_v(vr, id, first);
            let (v2, r2) = init_v(v1, id, peer(first));
            &&& r1 == Ok::<ParticipantV, ProtocolViolation>(p1)
            &&& r2 == Ok::<ParticipantV, ProtocolViolation>(p2)
            &&& v2.sessions =~= vr.sessions.insert(id, ConnectionStatus::Established)
        }),
{
    let vr = remove_v(v, id);
    assert(view_wf(vr)) by {
        assert forall|other: Seq<char>| vr.sessions.contains_key(other)
            implies crate::conduction::status_ok(
            #[trigger] vr.sessions[other],
            vr.channels.len() as int,
        ) by {
            assert(vr.sessions[other] == v.sessions[other]);
        }
    }
    lemma_rendezvous_either_order(vr, id, first);
}

/// Patches sent by one role are observed by the peer in the same relative
/// order: sends append at the tail in call order.
pub proof fn lemma_sends_append_in_order(q: QueueView, a: Signal, b: Signal)
    requires
        q.receiver_live,
        q.items.len() + 2 <= CHANNEL_CAPACITY,
    ensures
        ({
            let (q1, r1) = send_v(q, a);
            let (q2, r2) = send_v(q1, b);
            &&& r1 == Ok::<(), MsgError>(())
            &&& r2 == Ok::<(), MsgError>(())
            &&& q2.items =~= q.items.push(a).push(b)
        }),
{
}

/// A whole sequence of completed sends, first element first.
pub open spec fn send_all_v(q: QueueView, msgs: Seq<Signal>) -> QueueView
    decreases msgs.len(),
{
    if msgs.len() == 0 {
        q
    } else {
        send_all_v(send_v(q, msgs.first()).0, msgs.drop_first())
    }
}

/// Any sequence of sends towards a live receiver lands whole and in call
/// order at the tail of the queue; with the FIFO law below, the peer then
/// observes exactly that sequence once the earlier signals are drained.
pub proof fn lemma_send_all_appends(q: QueueView, msgs: Seq<Signal>)
    requires
        q.receiver_live,
    ensures
        send_all_v(q, msgs).items =~= q.items + msgs,
        send_all_v(q, msgs).receiver_live,
    decreases msgs.len(),
{
    if msgs.len() > 0 {
        let q1 = send_v(q, msgs.first()).0;
        lemma_send_all_appends(q1, msgs.drop_first());
        assert(q1.items + msgs.drop_first() =~= q.items + msgs);
    } else {
        assert(q.items + msgs =~= q.items);
    }
}

/// Draining a queue `n` times yields exactly its first `n` signals, oldest
/// first: per-direction delivery is FIFO.
pub open spec fn drain_n(q: QueueView, n: nat) -> (QueueView, Seq<Signal>)
    decreases n,
{
    if n == 0 {
        (q, Seq::<Signal>::empty())
    } else {
        let (q1, s) = recv_v(q);
        let (q2, rest) = drain_n(q1, (n - 1) as nat);
        match s {
            Some(sig) => (q2, seq![sig] + rest),
            None => (q2, rest),
        }
    }
}

/// The FIFO law: what `n` receives deliver is the first `n` signals, in the
/// order they were sent.
pub proof fn lemma_fifo(q: QueueView, n: nat)
    requires
        n <= q.items.len(),
    ensures
        drain_n(q, n).1 =~= q.items.take(n as int),
        drain_n(q, n).0.items =~= q.items.skip(n as int),
        drain_n(q, n).0.receiver_live == q.receiver_live,
    decreases n,
{
    if n > 0 {
        let (q1, s) = recv_v(q);
        assert(q1.items =~= q.items.drop_first());
        lemma_fifo(q1, (n - 1) as nat);
        assert(q1.items.take(n as int - 1) =~= q.items.take(n as int).drop_first());
        assert(drain_n(q, n).1 =~= q.items.take(n as int));
        assert(q1.items.skip(n as int - 1) =~= q.items.skip(n as int));
    }
}

/// A patch proposed by the attendee reaches the conductor verbatim: handling
/// the attendee's message appends exactly that patch to the conductor's
/// inbound signals.
pub proof fn lemma_attendee_patch_relayed(
    v: RegistryView,
    p: ParticipantV,
    m: crate::messages::FromAttendeeV,
)
    requires
        p.role == Role::Attendee,
        0 <= p.chan < v.channels.len(),
        out_queue(v.channels[p.chan], p.role).receiver_live,
    ensures
        ({
            let (v1, r) = crate::conduction::attendee_on_message_v(v, p, m);
            let conductor = ParticipantV { zerra_id: p.zerra_id, chan: p.chan, role: Role::Conductor };
            &&& r == Ok::<(), MsgError>(())
            &&& in_queue(v1.channels[p.chan], conductor.role).items =~= in_queue(
                v.channels[p.chan],
                Role::Conductor,
            ).items.push(Signal::Patch(m.patch))
        }),
{
}

/// A derived patch carried by a persisted conductor message reaches the
/// attendee verbatim; without a derived patch, or when persisting failed,
/// nothing is relayed.
pub proof fn lemma_conductor_patch_relayed(
    v: RegistryView,
    p: ParticipantV,
    m: crate::messages::FromConductorV,
    store_ok: bool,
)
    requires
        p.role == Role::Conductor,
        0 <= p.chan < v.channels.len(),
        out_queue(v.channels[p.chan], p.role).receiver_live,
    ensures
        ({
            let (v1, r) = crate::conduction::conductor_on_message_v(v, p, m, store_ok);
            let attendee_in = in_queue(v1.channels[p.chan], Role::Attendee).items;
            let before = in_queue(v.channels[p.chan], Role::Attendee).items;
            match (store_ok, m.patch) {
                (true, Some(patch)) => r == Ok::<(), MsgError>(()) && attendee_in =~= before.push(
                    Signal::Patch(patch),
                ),
                (true, None) => r == Ok::<(), MsgError>(()) && v1 == v,
                (false, _) => r == Err::<(), MsgError>(MsgError::Db) && v1 == v,
            }
        }),
{
}

/// If one side tears down first, its peer subsequently observes a `Kill`
/// signal — it is the last signal on the peer's inbound queue — and once the
/// peer has torn down too, the registry entry no longer exists.
pub proof fn lemma_teardown_notifies_peer(v: RegistryView, p: ParticipantV)
    requires
        0 <= p.chan < v.channels.len(),
        out_queue(v.channels[p.chan], p.role).receiver_live,
        out_queue(v.channels[p.chan], p.role).items.len() < CHANNEL_CAPACITY,
    ensures
        ({
            let v1 = teardown_v(v, p);
            let pv = ParticipantV { zerra_id: p.zerra_id, chan: p.chan, role: peer(p.role) };
            &&& !v1.sessions.contains_key(p.zerra_id)
            &&& in_queue(v1.channels[p.chan], pv.role).items =~= out_queue(
                v.channels[p.chan],
                p.role,
            ).items.push(Signal::Kill)
            &&& in_queue(v1.channels[p.chan], pv.role).items.last() == Signal::Kill
            &&& crate::pump::wire_of(Signal::Kill) == crate::pump::WireFrameV::Close
            &&& !teardown_v(v1, pv).sessions.contains_key(p.zerra_id)
        }),
{
    let v1 = teardown_v(v, p);
    let pv = ParticipantV { zerra_id: p.zerra_id, chan: p.chan, role: peer(p.role) };
    assert(peer(peer(p.role)) == p.role);
    assert(in_queue(v1.channels[p.chan], pv.role) == out_queue(v1.channels[p.chan], p.role));
}

/// A connection producing no inbound traffic for longer than the heartbeat
/// window is force-closed — the missed heartbeat is as fatal as a transport
/// error — and its teardown releases the registry entry and this side's
/// channel end.
pub proof fn lemma_heartbeat_forces_cleanup(v: RegistryView, p: ParticipantV)
    requires
        0 <= p.chan < v.channels.len(),
    ensures
        crate::pump::conductor_directive_v(crate::pump::WireEventV::HeartbeatMissed)
            == crate::pump::DirectiveV::<crate::messages::FromConductorV>::Stop,
        crate::pump::attendee_directive_v(crate::pump::WireEventV::HeartbeatMissed)
            == crate::pump::DirectiveV::<crate::messages::FromAttendeeV>::Stop,
        !teardown_v(v, p).sessions.contains_key(p.zerra_id),
        !in_queue(teardown_v(v, p).channels[p.chan], p.role).receiver_live,
{
    assert(peer(peer(p.role)) == p.role);
}

/// A binary frame that does not decode as this role's inbound message type
/// is skipped, never fatal, and a subsequent valid frame is still
/// dispatched.
pub proof fn lemma_decode_failure_recoverable(bad: Seq<u8>, m: crate::messages::FromConductorV)
    requires
        crate::codec::dec_from_conductor(bad) is None,
        crate::codec::fits_wire(m.blob),
        match m.patch {
            Some(p) => crate::codec::fits_wire(p),
            None => true,
        },
    ensures
        crate::pump::conductor_directive_v(crate::pump::WireEventV::Binary(bad))
            == crate::pump::DirectiveV::<crate::messages::FromConductorV>::Ignore,
        crate::pump::conductor_directive_v(
            crate::pump::WireEventV::Binary(crate::codec::enc_from_conductor(m)),
        ) == crate::pump::DirectiveV::Dispatch(m),
{
    crate::codec::lemma_conductor_round_trip(m);
}

/// The same recovery for the attendee's inbound message type.
pub proof fn lemma_decode_failure_recoverable_attendee(
    bad: Seq<u8>,
    m: crate::messages::FromAttendeeV,
)
    requires
        crate::codec::dec_from_attendee(bad) is None,
        crate::codec::fits_wire(m.patch),
    ensures
        crate::pump::attendee_directive_v(crate::pump::WireEventV::Binary(bad))
            == crate::pump::DirectiveV::<crate::messages::FromAttendeeV>::Ignore,
        crate::pump::attendee_directive_v(
            crate::pump::WireEventV::Binary(crate::codec::enc_from_attendee(m)),
        ) == crate::pump::DirectiveV::Dispatch(m),
{
    crate::codec::lemma_attendee_round_trip(m);
}

} // verus!
