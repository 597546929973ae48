use vstd::prelude::*;
use crate::packet::{Packet, PacketView};
use crate::text::view_lines;

verus! {

/// Where the delivery loop stands.
#[derive(Clone, Copy, Debug, PartialEq, Eq, Structural)]
pub enum LoopState {
    /// Waiting for the backend's first readiness signal.
    Idle,
    /// Polling the delivery queue.
    Polling,
    /// The last instruction came; its dispatches and the disconnect are under way.
    Draining,
    /// The connection is closed; the loop is over.
    Stopped,
}

/// What one non-blocking poll of the delivery queue found.
#[derive(Debug, PartialEq, Eq)]
pub enum Polled {
    Empty,
    Received(Packet),
    /// Every producer is gone and nothing is left in the queue.
    Closed,
}

pub enum PolledView {
    Empty,
    Received(PacketView),
    Closed,
}

impl View for Polled {
    type V = PolledView;

    open spec fn view(&self) -> PolledView {
        match self {
            Polled::Empty => PolledView::Empty,
            Polled::Received(p) => PolledView::Received(p@),
            Polled::Closed => PolledView::Closed,
        }
    }
}

/// Work for the host to carry out on the remote backend, in order.
#[derive(Debug, PartialEq, Eq)]
pub enum Action {
    /// Send the text to the send target of this id.
    Dispatch(u64, String),
    /// Close the connection to the backend.
    Terminate,
}

pub enum ActionView {
    Dispatch(u64, Seq<char>),
    Terminate,
}

impl View for Action {
    type V = ActionView;

    open spec fn view(&self) -> ActionView {
        match self {
            Action::Dispatch(t, s) => ActionView::Dispatch(*t, s@),
            Action::Terminate => ActionView::Terminate,
        }
    }
}

pub open spec fn actions_view(v: Seq<Action>) -> Seq<ActionView> {
    v.map_values(|a: Action| a@)
}

/// An instruction named a destination that is not configured.
#[derive(Debug, PartialEq, Eq, Structural)]
pub enum DeliveryError {
    UnknownDestination(usize),
}

/// For the shutdown texts `ms`, one dispatch per text that is not empty, to
/// the send target of its destination, in index order.
pub open spec fn quit_dispatches(targets: Seq<(u64, Option<u64>)>, ms: Seq<Seq<char>>) -> Seq<ActionView>
    decreases ms.len(),
{
    if ms.len() == 0 {
        Seq::empty()
    } else {
        let prev = quit_dispatches(targets, ms.drop_last());
        if ms.last().len() > 0 {
            prev.push(ActionView::Dispatch(targets[ms.len() - 1].0, ms.last()))
        } else {
            prev
        }
    }
}

/// `i` is the first index of a shutdown text that is not empty and has no
/// destination among `n`.
pub open spec fn first_misrouted(n: nat, ms: Seq<Seq<char>>, i: int) -> bool {
    &&& n <= i < ms.len()
    &&& ms[i].len() > 0
    &&& forall|j: int| n <= j < i ==> ms[j].len() == 0
}

/// Some shutdown text that is not empty has no destination among `n`.
pub open spec fn misrouted(n: nat, ms: Seq<Seq<char>>) -> bool {
    exists|i: int| n <= i < ms.len() && ms[i].len() > 0
}

/// The delivery side's state machine: the host polls the queue, hands each
/// outcome to `poll`, and carries out the actions it returns.
pub struct DeliveryLoop {
    state: LoopState,
    targets: Vec<(u64, Option<u64>)>,
}

impl DeliveryLoop {
    pub closed spec fn state_spec(&self) -> LoopState {
        self.state
    }

    /// Per destination: its send target and its optional backlog source.
    pub closed spec fn targets(&self) -> Seq<(u64, Option<u64>)> {
        self.targets@
    }

    pub fn new(targets: Vec<(u64, Option<u64>)>) -> (r: DeliveryLoop)
        ensures
            r.state_spec() == LoopState::Idle,
            r.targets() == targets@,
    {
        DeliveryLoop { state: LoopState::Idle, targets }
    }

    pub fn state(&self) -> (r: LoopState)
        ensures
            r == self.state_spec(),
    {
        self.state
    }

    pub fn targets_vec(&self) -> (r: &Vec<(u64, Option<u64>)>)
        ensures
            r@ == self.targets(),
    {
        &self.targets
    }

    /// The backend signals readiness. Only the first signal, in `Idle`, starts
    /// polling (after the host has run recovery); it returns whether this was it.
    pub fn ready(&mut self) -> (first: bool)
        ensures
            first == (old(self).state_spec() == LoopState::Idle),
            final(self).state_spec() == (if first {
                LoopState::Polling
            } else {
                old(self).state_spec()
            }),
            final(self).targets() == old(self).targets(),
    {
        match self.state {
            LoopState::Idle => {
                self.state = LoopState::Polling;
                true
            },
            _ => false,
        }
    }

    /// The host has closed the connection: `Draining` becomes `Stopped`;
    /// returns whether it did.
    pub fn finish(&mut self) -> (stopped: bool)
        ensures
            stopped == (old(self).state_spec() == LoopState::Draining),
            final(self).state_spec() == (if stopped {
                LoopState::Stopped
            } else {
                old(self).state_spec()
            }),
            final(self).targets() == old(self).targets(),
    {
        match self.state {
            LoopState::Draining => {
                self.state = LoopState::Stopped;
                true
            },
            _ => false,
        }
    }

    fn quit_actions(&self, ms: &Vec<String>) -> (r: Result<Vec<Action>, DeliveryError>)
        ensures
            r is Err <==> misrouted(self.targets().len(), view_lines(ms@)),
            r matches Err(DeliveryError::UnknownDestination(i)) ==> first_misrouted(
                self.targets().len(),
                view_lines(ms@),
                i as int,
            ),
            r matches Ok(a) ==> actions_view(a@) == quit_dispatches(self.targets(), view_lines(ms@)).push(
                ActionView::Terminate,
            ),
    {
        let ghost all = view_lines(ms@);
        let n = self.targets.len();
        let mut out: Vec<Action> = Vec::new();
        let mut i: usize = 0;
        assert(all.take(0) =~= Seq::<Seq<char>>::empty());
        while i < ms.len()
            invariant
                i <= ms@.len(),
                n == self.targets@.len(),
                all == view_lines(ms@),
                actions_view(out@) == quit_dispatches(self.targets@, all.take(i as int)),
                forall|j: int| n <= j < i ==> all[j].len() == 0,
            decreases ms@.len() - i,
        {
            let ghost pre = all.take(i + 1);
            assert(pre.drop_last() =~= all.take(i as int));
            assert(pre.last() == ms@[i as int]@);
            if !ms[i].as_str().is_empty() {
                if i >= n {
                    return Err(DeliveryError::UnknownDestination(i));
                }
                let a = Action::Dispatch(self.targets[i].0, ms[i].clone());
                assert(actions_view(out@.push(a)) =~= actions_view(out@).push(a@));
                out.push(a);
            }
            i = i + 1;
        }
        assert(all.take(ms@.len() as int) =~= all);
        let t = Action::Terminate;
        assert(actions_view(out@.push(t)) =~= actions_view(out@).push(t@));
        out.push(t);
        Ok(out)
    }

    /// Hands the outcome of one poll of the queue to the loop and returns what
    /// the host must do. Outside `Polling` nothing happens. An empty queue
    /// asks for nothing; a `Send` for one dispatch; the shutdown instruction
    /// for the dispatch of each text that is not empty, in index order, then
    /// the disconnect; a closed queue for the disconnect alone. An instruction
    /// naming a destination that is not configured is an error, and changes
    /// nothing.
    pub fn poll(&mut self, polled: Polled) -> (r: Result<Vec<Action>, DeliveryError>)
        ensures
            final(self).targets() == old(self).targets(),
            old(self).state_spec() != LoopState::Polling ==> {
                &&& final(self).state_spec() == old(self).state_spec()
                &&& r matches Ok(a) && a@.len() == 0
            },
            old(self).state_spec() == LoopState::Polling ==> match polled@ {
                PolledView::Empty => {
                    &&& final(self).state_spec() == LoopState::Polling
                    &&& r matches Ok(a) && a@.len() == 0
                },
                PolledView::Closed => {
                    &&& final(self).state_spec() == LoopState::Draining
                    &&& r matches Ok(a) && actions_view(a@) == seq![ActionView::Terminate]
                },
                PolledView::Received(PacketView::Send(content, i)) => {
                    &&& final(self).state_spec() == LoopState::Polling
                    &&& if i < old(self).targets().len() {
                        r matches Ok(a) && actions_view(a@) == seq![
                            ActionView::Dispatch(old(self).targets()[i as int].0, content),
                        ]
                    } else {
                        r matches Err(e) && e == DeliveryError::UnknownDestination(i)
                    }
                },
                PolledView::Received(PacketView::SendAndQuit(ms)) => {
                    if misrouted(old(self).targets().len(), ms) {
                        &&& final(self).state_spec() == LoopState::Polling
                        &&& r matches Err(DeliveryError::UnknownDestination(i)) && first_misrouted(
                            old(self).targets().len(),
                            ms,
                            i as int,
                        )
                    } else {
                        &&& final(self).state_spec() == LoopState::Draining
                        &&& r matches Ok(a) && actions_view(a@) == quit_dispatches(old(self).targets(), ms).push(
                            ActionView::Terminate,
                        )
                    }
                },
            },
    {
        match self.state {
            LoopState::Polling => {},
            _ => {
                return Ok(Vec::new());
            },
        }
        match polled {
            Polled::Empty => Ok(Vec::new()),
            Polled::Closed => {
                self.state = LoopState::Draining;
                let mut out: Vec<Action> = Vec::new();
                out.push(Action::Terminate);
                assert(actions_view(out@) =~= seq![ActionView::Terminate]);
                Ok(out)
            },
            Polled::Received(Packet::Send(content, i)) => {
                if i < self.targets.len() {
                    let mut out: Vec<Action> = Vec::new();
                    out.push(Action::Dispatch(self.targets[i].0, content));
                    assert(actions_view(out@) =~= seq![out@[0]@]);
                    Ok(out)
                } else {
                    Err(DeliveryError::UnknownDestination(i))
                }
            },
            Polled::Received(Packet::SendAndQuit(ms)) => {
                let r = self.quit_actions(&ms);
                if r.is_ok() {
                    self.state = LoopState::Draining;
                }
                r
            },
        }
    }
}

} // verus!
