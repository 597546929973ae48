use vstd::prelude::*;

verus! {

/// How many instructions the delivery queue holds before a producer waits.
pub const QUEUE_CAPACITY: usize = 100;

/// An instruction carried from the capture side to the delivery side.
#[derive(Debug, PartialEq, Eq)]
pub enum Packet {
    /// One batch, already joined into one message, for the destination of
    /// the given index.
    Send(String, usize),
    /// The last instruction: one text per destination, in index order (an
    /// empty text means nothing to send there), after which delivery stops.
    SendAndQuit(Vec<String>),
}

/// What a `Packet` holds, as mathematical values.
pub enum PacketView {
    Send(Seq<char>, usize),
    SendAndQuit(Seq<Seq<char>>),
}

impl View for Packet {
    type V = PacketView;

    open spec fn view(&self) -> PacketView {
        match self {
            Packet::Send(s, c) => PacketView::Send(s@, *c),
            Packet::SendAndQuit(v) => PacketView::SendAndQuit(v@.map_values(|s: String| s@)),
        }
    }
}

pub open spec fn packets_view(v: Seq<Packet>) -> Seq<PacketView> {
    v.map_values(|p: Packet| p@)
}

pub proof fn lemma_packets_view_push(v: Seq<Packet>, p: Packet)
    ensures
        packets_view(v.push(p)) == packets_view(v).push(p@),
{
    assert(packets_view(v.push(p)) =~= packets_view(v).push(p@));
}

} // verus!
