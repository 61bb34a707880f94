//! Tracks: the instruction set, the track capability and the cursors that
//! play a track.

use crate::utils::NonZeroU16;
use vstd::prelude::*;

pub mod cursor;
pub mod instructions;
pub mod loops;
pub mod multicursor;

pub use cursor::StepError;
pub use cursor::StepOutput;
pub use cursor::TrackCursor;
pub use instructions::BpmInfo;
pub use instructions::ClockTime;
pub use instructions::OutputPort;
pub use instructions::TrackEvent;
pub use instructions::WaitTime;
pub use multicursor::PortIdent;
pub use multicursor::VecMultiCursor;

verus! {

/// The instruction at place `k` of a track, if the track is that long.
pub open spec fn event_at(events: Seq<TrackEvent>, k: int) -> Option<TrackEvent> {
    if 0 <= k < events.len() {
        Some(events[k])
    } else {
        None
    }
}

/// The count of the jump at place `k` of a track, if a jump with a count
/// stands there.
pub open spec fn counted_jump_at(events: Seq<TrackEvent>, k: int) -> Option<NonZeroU16> {
    match event_at(events, k) {
        Some(TrackEvent::Jump { count: Some(c), .. }) => Some(c),
        _ => None,
    }
}

/// The place and the count of each jump with a count among the first `n`
/// instructions of a track, in the track's order.
pub open spec fn counted_jumps_upto(events: Seq<TrackEvent>, n: nat) -> Seq<(usize, u16)>
    decreases n,
{
    if n == 0 {
        Seq::empty()
    } else {
        let rest = counted_jumps_upto(events, (n - 1) as nat);
        match counted_jump_at(events, n - 1) {
            Some(c) => rest.push(((n - 1) as usize, c.value() as u16)),
            None => rest,
        }
    }
}

/// The place and the count of each jump with a count in a track, in the
/// track's order.
pub open spec fn counted_jumps(events: Seq<TrackEvent>) -> Seq<(usize, u16)> {
    counted_jumps_upto(events, events.len())
}

/// Whether one of the first `n` instructions of a track sends a message out
/// of `port`.
pub open spec fn sends_to_upto(events: Seq<TrackEvent>, n: int, port: OutputPort) -> bool {
    exists|i: int|
        0 <= i < n && i < events.len() && (#[trigger] events[i] matches TrackEvent::SendMessage {
            port: p,
            ..
        } && p == port)
}

/// Whether `ports` lists, each once and upward by index, the ports that the
/// first `n` instructions of a track send messages out of.
pub open spec fn is_port_list_upto(events: Seq<TrackEvent>, n: int, ports: Seq<OutputPort>) -> bool {
    &&& forall|i: int, j: int| 0 <= i < j < ports.len() ==> ports[i].idx < ports[j].idx
    &&& forall|p: OutputPort| ports.contains(p) <==> sends_to_upto(events, n, p)
}

/// Whether a track keeps the rules that a cursor relies on: it ends with the
/// end instruction, and every jump points at one of its instructions.
pub open spec fn valid_track(events: Seq<TrackEvent>) -> bool {
    &&& events.len() >= 1
    &&& events.last() is End
    &&& forall|i: int|
        0 <= i < events.len() ==> (#[trigger] events[i] matches TrackEvent::Jump { target, .. }
            ==> target < events.len())
}

/// A fixed list of instructions that takes no input: a performance that can
/// be played.
pub trait EventTrack {
    /// The track's instructions.
    spec fn events(&self) -> Seq<TrackEvent>;

    /// The instruction at the given place, if the track is that long.
    fn get(&self, instruction_idx: usize) -> (r: Option<TrackEvent>)
        ensures
            r == event_at(self.events(), instruction_idx as int),
    ;

    /// The number of instructions in the track.
    fn len(&self) -> (r: usize)
        ensures
            r == self.events().len(),
    ;

    /// The place and the count of each jump that has a count, in the track's
    /// order. A cursor sets up its jump counters from this list.
    fn finite_jumps(&self) -> (r: Vec<(usize, u16)>)
        ensures
            r@ == counted_jumps(self.events()),
    {
        let n = self.len();
        let mut out: Vec<(usize, u16)> = Vec::new();
        let mut idx: usize = 0;
        while idx < n
            invariant
                idx <= n,
                n == self.events().len(),
                out@ == counted_jumps_upto(self.events(), idx as nat),
            decreases n - idx,
        {
            match self.get(idx) {
                Some(TrackEvent::Jump { count: Some(cnt), .. }) => {
                    out.push((idx, cnt.get()));
                },
                _ => {},
            }
            idx = idx + 1;
        }
        out
    }

    /// The ports that the track sends messages out of, each once, upward by
    /// index.
    fn output_ports(&self) -> (r: Vec<OutputPort>)
        ensures
            is_port_list_upto(self.events(), self.events().len() as int, r@),
    {
        let n = self.len();
        let mut all_ports: Vec<OutputPort> = Vec::new();
        let mut idx: usize = 0;
        while idx < n
            invariant
                idx <= n,
                n == self.events().len(),
                is_port_list_upto(self.events(), idx as int, all_ports@),
            decreases n - idx,
        {
            let ghost before = all_ports@;
            match self.get(idx) {
                Some(TrackEvent::SendMessage { port, .. }) => {
                    insert_port(&mut all_ports, port);
                    proof {
                        let events = self.events();
                        assert forall|p: OutputPort|
                            all_ports@.contains(p) <==> sends_to_upto(
                                events,
                                idx as int + 1,
                                p,
                            ) by {
                            if sends_to_upto(events, idx as int + 1, p) {
                                let i = choose|i: int|
                                    0 <= i < idx as int + 1 && i < events.len() && (
                                    #[trigger] events[i] matches TrackEvent::SendMessage {
                                        port: q,
                                        ..
                                    } && q == p);
                                if i < idx {
                                    assert(sends_to_upto(events, idx as int, p));
                                }
                            }
                            if before.contains(p) {
                                assert(sends_to_upto(events, idx as int, p));
                                let i = choose|i: int|
                                    0 <= i < idx as int && i < events.len() && (
                                    #[trigger] events[i] matches TrackEvent::SendMessage {
                                        port: q,
                                        ..
                                    } && q == p);
                                assert(0 <= i < idx as int + 1);
                            }
                            if p == port {
                                assert(events[idx as int] is SendMessage);
                            }
                        }
                    }
                },
                _ => {
                    proof {
                        let events = self.events();
                        assert forall|p: OutputPort|
                            sends_to_upto(events, idx as int + 1, p) <==> sends_to_upto(
                                events,
                                idx as int,
                                p,
                            ) by {
                            if sends_to_upto(events, idx as int + 1, p) {
                                let i = choose|i: int|
                                    0 <= i < idx as int + 1 && i < events.len() && (
                                    #[trigger] events[i] matches TrackEvent::SendMessage {
                                        port: q,
                                        ..
                                    } && q == p);
                                assert(i < idx);
                            }
                            if sends_to_upto(events, idx as int, p) {
                                let i = choose|i: int|
                                    0 <= i < idx as int && i < events.len() && (
                                    #[trigger] events[i] matches TrackEvent::SendMessage {
                                        port: q,
                                        ..
                                    } && q == p);
                                assert(0 <= i < idx as int + 1);
                            }
                        }
                    }
                },
            }
            idx = idx + 1;
        }
        all_ports
    }
}

/// Puts `port` into a list of ports that is ordered upward by index and
/// holds none twice, unless the list holds it already.
pub fn insert_port(ports: &mut Vec<OutputPort>, port: OutputPort)
    requires
        forall|i: int, j: int| 0 <= i < j < old(ports)@.len() ==> old(ports)@[i].idx < old(
            ports,
        )@[j].idx,
    ensures
        forall|i: int, j: int|
            0 <= i < j < final(ports)@.len() ==> final(ports)@[i].idx < final(ports)@[j].idx,
        forall|p: OutputPort| #[trigger]
            final(ports)@.contains(p) <==> (p == port || old(ports)@.contains(p)),
{
    let mut pos: usize = 0;
    while pos < ports.len() && ports[pos].idx < port.idx
        invariant
            pos <= ports@.len(),
            ports@ == old(ports)@,
            forall|i: int| 0 <= i < pos ==> ports@[i].idx < port.idx,
        decreases ports@.len() - pos,
    {
        pos = pos + 1;
    }
    if pos < ports.len() && ports[pos].idx == port.idx {
        proof {
            assert(ports@[pos as int] == port);
            assert(ports@.contains(port));
        }
    } else {
        let ghost before = ports@;
        ports.insert(pos, port);
        proof {
            assert(ports@ == before.insert(pos as int, port));
            assert forall|p: OutputPort| #[trigger]
                ports@.contains(p) <==> (p == port || before.contains(p)) by {
                if ports@.contains(p) {
                    let i = choose|i: int| 0 <= i < ports@.len() && ports@[i] == p;
                    if i < pos {
                        assert(before[i] == p);
                    } else if i > pos {
                        assert(before[i - 1] == p);
                    }
                }
                if before.contains(p) {
                    let i = choose|i: int| 0 <= i < before.len() && before[i] == p;
                    if i < pos {
                        assert(ports@[i] == p);
                    } else {
                        assert(ports@[i + 1] == p);
                    }
                }
                if p == port {
                    assert(ports@[pos as int] == p);
                }
            }
        }
    }
}

impl EventTrack for Vec<TrackEvent> {
    open spec fn events(&self) -> Seq<TrackEvent> {
        self@
    }

    fn get(&self, instruction_idx: usize) -> (r: Option<TrackEvent>) {
        if instruction_idx < self.len() {
            Some(self[instruction_idx])
        } else {
            None
        }
    }

    fn len(&self) -> (r: usize) {
        Vec::len(self)
    }
}

} // verus!
