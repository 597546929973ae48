use vstd::prelude::*;
use vstd::pervasive::VecAdditionalExecFns;
use vstd::string::StringExecFns;
use crate::batch::{full_groups, leftover, BATCH_SIZE};
use crate::packet::{lemma_packets_view_push, packets_view, Packet, PacketView};
use crate::text::{contains_line, join_nl, join_range, lemma_view_lines_push, split_lines, split_nl, view_lines};

verus! {

/// The lines of `lines` that are taken in, in order, given the lines taken in
/// before (`ledger`): each line that is not empty and was seen neither before
/// nor earlier in `lines`.
pub open spec fn accepted(ledger: Seq<Seq<char>>, lines: Seq<Seq<char>>) -> Seq<Seq<char>>
    decreases lines.len(),
{
    if lines.len() == 0 {
        Seq::empty()
    } else {
        let prev = accepted(ledger, lines.drop_last());
        let l = lines.last();
        if l.len() == 0 || (ledger + prev).contains(l) {
            prev
        } else {
            prev.push(l)
        }
    }
}

/// Every line taken in is not empty, is one of the input lines, was not in
/// the ledger before, and is taken in once: so no line can reach two batches.
pub proof fn lemma_accepted_fresh(ledger: Seq<Seq<char>>, lines: Seq<Seq<char>>)
    ensures
        forall|i: int|
            0 <= i < accepted(ledger, lines).len() ==> {
                &&& (#[trigger] accepted(ledger, lines)[i]).len() > 0
                &&& !ledger.contains(accepted(ledger, lines)[i])
                &&& lines.contains(accepted(ledger, lines)[i])
            },
        forall|i: int, j: int|
            0 <= i < j < accepted(ledger, lines).len() ==> accepted(ledger, lines)[i] != accepted(
                ledger,
                lines,
            )[j],
    decreases lines.len(),
{
    if lines.len() > 0 {
        let init = lines.drop_last();
        lemma_accepted_fresh(ledger, init);
        let prev = accepted(ledger, init);
        let l = lines.last();
        assert forall|i: int| 0 <= i < prev.len() implies lines.contains(#[trigger] prev[i]) by {
            let k = choose|k: int| 0 <= k < init.len() && init[k] == prev[i];
            assert(lines[k] == prev[i]);
        }
        if !(l.len() == 0 || (ledger + prev).contains(l)) {
            let acc = prev.push(l);
            assert(acc == accepted(ledger, lines));
            assert(lines[lines.len() - 1] == l);
            assert forall|i: int| 0 <= i < prev.len() implies #[trigger] prev[i] != l by {
                assert((ledger + prev)[ledger.len() + i] == prev[i]);
            }
            assert(!ledger.contains(l)) by {
                if ledger.contains(l) {
                    let k = choose|k: int| 0 <= k < ledger.len() && ledger[k] == l;
                    assert((ledger + prev)[k] == l);
                }
            }
            assert forall|i: int| 0 <= i < acc.len() implies {
                &&& (#[trigger] acc[i]).len() > 0
                &&& !ledger.contains(acc[i])
                &&& lines.contains(acc[i])
            } by {
                if i < prev.len() {
                    assert(acc[i] == prev[i]);
                }
            }
            assert forall|i: int, j: int| 0 <= i < j < acc.len() implies acc[i] != acc[j] by {
                if j < prev.len() {
                    assert(acc[i] == prev[i] && acc[j] == prev[j]);
                } else {
                    assert(acc[i] == prev[i]);
                }
            }
        }
    }
}

/// Every non-empty input line ends up in the ledger after it is taken in.
proof fn lemma_accepted_covers(ledger: Seq<Seq<char>>, lines: Seq<Seq<char>>)
    ensures
        forall|i: int|
            0 <= i < lines.len() && (#[trigger] lines[i]).len() > 0 ==> (ledger + accepted(
                ledger,
                lines,
            )).contains(lines[i]),
    decreases lines.len(),
{
    if lines.len() > 0 {
        let init = lines.drop_last();
        lemma_accepted_covers(ledger, init);
        let prev = accepted(ledger, init);
        let acc = accepted(ledger, lines);
        assert forall|i: int| 0 <= i < lines.len() && (#[trigger] lines[i]).len() > 0 implies (ledger
            + acc).contains(lines[i]) by {
            if i < init.len() {
                assert(init[i] == lines[i]);
                let k = choose|k: int| 0 <= k < (ledger + prev).len() && (ledger + prev)[k] == lines[i];
                assert((ledger + acc)[k] == lines[i]);
            } else if (ledger + prev).contains(lines[i]) {
                let k = choose|k: int| 0 <= k < (ledger + prev).len() && (ledger + prev)[k] == lines[i];
                assert((ledger + acc)[k] == lines[i]);
            } else {
                assert((ledger + acc)[(ledger.len() + prev.len()) as int] == lines[i]);
            }
        }
    }
}

/// Lines whose non-empty members are all in the ledger take in nothing.
proof fn lemma_accepted_none(ledger: Seq<Seq<char>>, lines: Seq<Seq<char>>)
    requires
        forall|i: int| 0 <= i < lines.len() && (#[trigger] lines[i]).len() > 0 ==> ledger.contains(lines[i]),
    ensures
        accepted(ledger, lines) == Seq::<Seq<char>>::empty(),
    decreases lines.len(),
{
    if lines.len() > 0 {
        let init = lines.drop_last();
        assert forall|i: int| 0 <= i < init.len() && (#[trigger] init[i]).len() > 0 implies ledger.contains(init[i]) by {
            assert(init[i] == lines[i]);
        }
        lemma_accepted_none(ledger, init);
        assert(ledger + Seq::<Seq<char>>::empty() =~= ledger);
        assert(lines[lines.len() - 1] == lines.last());
    }
}

/// Taking the same lines in a second time takes in nothing: the ledger and
/// every pending set stay as the first time left them.
pub proof fn lemma_ingest_idempotent(ledger: Seq<Seq<char>>, lines: Seq<Seq<char>>)
    ensures
        accepted(ledger + accepted(ledger, lines), lines) == Seq::<Seq<char>>::empty(),
{
    lemma_accepted_covers(ledger, lines);
    lemma_accepted_none(ledger + accepted(ledger, lines), lines);
}

/// The `Send` instructions for the complete batches of `p`, bound for the
/// destination `c`.
pub open spec fn sends(p: Seq<Seq<char>>, c: usize) -> Seq<PacketView> {
    full_groups(p).map_values(|g: Seq<Seq<char>>| PacketView::Send(join_nl(g), c))
}

/// The `Send` instructions for the complete batches of every destination, in
/// index order.
pub open spec fn sends_all(pending: Seq<Seq<Seq<char>>>) -> Seq<PacketView>
    decreases pending.len(),
{
    if pending.len() == 0 {
        Seq::empty()
    } else {
        sends_all(pending.drop_last()) + sends(pending.last(), (pending.len() - 1) as usize)
    }
}

/// The shutdown instruction: the whole pending set of each destination
/// joined, in index order.
pub open spec fn flush_packet(pending: Seq<Seq<Seq<char>>>) -> PacketView {
    PacketView::SendAndQuit(pending.map_values(|p: Seq<Seq<char>>| join_nl(p)))
}

/// Takes the complete batches off the front of `p`, each as one `Send` for
/// the destination `channel`, and leaves the rest in `p`.
fn take_batches(p: &mut Vec<String>, channel: usize) -> (r: Vec<Packet>)
    ensures
        view_lines(final(p)@) == leftover(view_lines(old(p)@)),
        packets_view(r@) == sends(view_lines(old(p)@), channel),
{
    let ghost all = view_lines(p@);
    let n = p.len();
    let mut out: Vec<Packet> = Vec::new();
    let mut i: usize = 0;
    assert(all.skip(0) =~= all);
    assert(packets_view(out@) + sends(all, channel) =~= sends(all, channel));
    while n - i >= BATCH_SIZE
        invariant
            i <= n == p@.len(),
            all == view_lines(p@),
            packets_view(out@) + sends(all.skip(i as int), channel) == sends(all, channel),
            leftover(all.skip(i as int)) == leftover(all),
        decreases n - i,
    {
        let ghost rest = all.skip(i as int);
        let g = join_range(p, i, i + BATCH_SIZE);
        let packet = Packet::Send(g, channel);
        proof {
            assert(p@.subrange(i as int, i + BATCH_SIZE).map_values(|s: String| s@)
                =~= rest.take(BATCH_SIZE as int));
            assert(rest.skip(BATCH_SIZE as int) =~= all.skip(i + BATCH_SIZE));
            assert(sends(rest, channel) =~= seq![packet@] + sends(all.skip(i + BATCH_SIZE), channel));
            lemma_packets_view_push(out@, packet);
            assert(packets_view(out@.push(packet)) + sends(all.skip(i + BATCH_SIZE), channel)
                =~= packets_view(out@) + sends(rest, channel));
        }
        out.push(packet);
        i = i + BATCH_SIZE;
    }
    let rest = p.split_off(i);
    *p = rest;
    proof {
        let r = all.skip(i as int);
        assert(view_lines(p@) =~= r);
        assert(full_groups(r) =~= Seq::<Seq<Seq<char>>>::empty());
        assert(sends(r, channel) =~= Seq::<PacketView>::empty());
        assert(packets_view(out@) =~= packets_view(out@) + sends(r, channel));
    }
    out
}

/// The capture side: the lines waiting for each destination and the ledger of
/// every line ever taken in.
pub struct App {
    window_name: String,
    paste_lines: Vec<Vec<String>>,
    total_paste_lines: Vec<String>,
    channels: Vec<String>,
}

impl App {
    pub closed spec fn title(&self) -> Seq<char> {
        self.window_name@
    }

    /// The destinations' names, in index order.
    pub closed spec fn channel_names(&self) -> Seq<Seq<char>> {
        view_lines(self.channels@)
    }

    /// The lines waiting for each destination, not yet sent in a batch.
    pub closed spec fn pending(&self) -> Seq<Seq<Seq<char>>> {
        self.paste_lines@.map_values(|v: Vec<String>| view_lines(v@))
    }

    /// Every line taken in so far, for any destination, in order.
    pub closed spec fn ledger(&self) -> Seq<Seq<char>> {
        view_lines(self.total_paste_lines@)
    }

    /// One pending set per destination.
    pub open spec fn wf(&self) -> bool {
        self.pending().len() == self.channel_names().len()
    }

    /// A capture side for the named destinations, with nothing taken in.
    pub fn new(bot_name: String, channels: Vec<String>) -> (r: App)
        ensures
            r.wf(),
            r.title() == bot_name@ + " control"@,
            r.channel_names() == view_lines(channels@),
            r.pending() == Seq::new(channels@.len(), |i: int| Seq::<Seq<char>>::empty()),
            r.ledger() == Seq::<Seq<char>>::empty(),
    {
        let window_name = bot_name.concat(" control");
        let mut paste_lines: Vec<Vec<String>> = Vec::new();
        let mut i: usize = 0;
        while i < channels.len()
            invariant
                i <= channels@.len(),
                paste_lines@.len() == i,
                forall|j: int| 0 <= j < i ==> paste_lines@[j]@.len() == 0,
            decreases channels@.len() - i,
        {
            paste_lines.push(Vec::new());
            i = i + 1;
        }
        let r = App { window_name, paste_lines, total_paste_lines: Vec::new(), channels };
        assert forall|j: int| 0 <= j < r.paste_lines@.len() implies view_lines(
            r.paste_lines@[j]@,
        ) =~= Seq::<Seq<char>>::empty() by {}
        assert(r.pending() =~= Seq::new(r.channels@.len(), |i: int| Seq::<Seq<char>>::empty()));
        assert(r.ledger() =~= Seq::<Seq<char>>::empty());
        r
    }

    /// Takes in `lines` for the destination `channel`: each line that is not
    /// empty and not yet in the ledger joins the ledger and that destination's
    /// pending set. Then every complete batch at the front of that pending set
    /// leaves it, as one `Send` each, in order.
    pub fn ingest(&mut self, channel: usize, lines: &Vec<String>) -> (r: Vec<Packet>)
        requires
            old(self).wf(),
            channel < old(self).channel_names().len(),
        ensures
            final(self).wf(),
            final(self).title() == old(self).title(),
            final(self).channel_names() == old(self).channel_names(),
            final(self).ledger() == old(self).ledger() + accepted(old(self).ledger(), view_lines(lines@)),
            final(self).pending() == old(self).pending().update(
                channel as int,
                leftover(old(self).pending()[channel as int] + accepted(old(self).ledger(), view_lines(lines@))),
            ),
            packets_view(r@) == sends(
                old(self).pending()[channel as int] + accepted(old(self).ledger(), view_lines(lines@)),
                channel,
            ),
    {
        let ghost ledger0 = self.ledger();
        let ghost pending0 = self.pending();
        let ghost input = view_lines(lines@);
        let mut p: Vec<String> = Vec::new();
        self.paste_lines.set_and_swap(channel, &mut p);
        let ghost mid = self.paste_lines@;
        let mut i: usize = 0;
        assert(input.take(0) =~= Seq::<Seq<char>>::empty());
        assert(self.ledger() =~= ledger0 + accepted(ledger0, input.take(0)));
        assert(view_lines(p@) =~= pending0[channel as int] + accepted(ledger0, input.take(0)));
        while i < lines.len()
            invariant
                i <= lines@.len(),
                input == view_lines(lines@),
                self.paste_lines@ == mid,
                self.window_name@ == old(self).window_name@,
                self.channels@ == old(self).channels@,
                self.ledger() == ledger0 + accepted(ledger0, input.take(i as int)),
                view_lines(p@) == pending0[channel as int] + accepted(ledger0, input.take(i as int)),
            decreases lines@.len() - i,
        {
            let ghost pre = input.take(i + 1);
            assert(pre.drop_last() =~= input.take(i as int));
            assert(pre.last() == lines@[i as int]@);
            let line = &lines[i];
            if !line.as_str().is_empty() && !contains_line(&self.total_paste_lines, line) {
                let a = line.clone();
                let b = line.clone();
                proof {
                    lemma_view_lines_push(p@, a);
                    lemma_view_lines_push(self.total_paste_lines@, b);
                }
                p.push(a);
                self.total_paste_lines.push(b);
            }
            i = i + 1;
        }
        assert(input.take(lines@.len() as int) =~= input);
        let r = take_batches(&mut p, channel);
        self.paste_lines.set_and_swap(channel, &mut p);
        assert(self.pending() =~= pending0.update(
            channel as int,
            leftover(pending0[channel as int] + accepted(ledger0, input)),
        ));
        r
    }

    /// Takes in the lines of a pasted text (its pieces between newlines) for
    /// the destination `channel`, as `ingest` does.
    pub fn paste(&mut self, channel: usize, text: &str) -> (r: Vec<Packet>)
        requires
            old(self).wf(),
            channel < old(self).channel_names().len(),
        ensures
            final(self).wf(),
            final(self).title() == old(self).title(),
            final(self).channel_names() == old(self).channel_names(),
            final(self).ledger() == old(self).ledger() + accepted(old(self).ledger(), split_nl(text@)),
            final(self).pending() == old(self).pending().update(
                channel as int,
                leftover(old(self).pending()[channel as int] + accepted(old(self).ledger(), split_nl(text@))),
            ),
            packets_view(r@) == sends(
                old(self).pending()[channel as int] + accepted(old(self).ledger(), split_nl(text@)),
                channel,
            ),
    {
        let lines = split_lines(text);
        self.ingest(channel, &lines)
    }

    /// Sends every complete batch waiting for any destination: the batches of
    /// destination 0 first, each destination's in order.
    pub fn try_send(&mut self) -> (r: Vec<Packet>)
        requires
            old(self).wf(),
        ensures
            final(self).wf(),
            final(self).title() == old(self).title(),
            final(self).channel_names() == old(self).channel_names(),
            final(self).ledger() == old(self).ledger(),
            final(self).pending() == old(self).pending().map_values(|p: Seq<Seq<char>>| leftover(p)),
            packets_view(r@) == sends_all(old(self).pending()),
    {
        let ghost pending0 = self.pending();
        let n = self.paste_lines.len();
        let mut out: Vec<Packet> = Vec::new();
        let mut c: usize = 0;
        assert(pending0.take(0) =~= Seq::<Seq<Seq<char>>>::empty());
        while c < n
            invariant
                c <= n == self.paste_lines@.len() == pending0.len(),
                self.window_name@ == old(self).window_name@,
                self.channels@ == old(self).channels@,
                self.total_paste_lines@ == old(self).total_paste_lines@,
                forall|j: int| 0 <= j < c ==> view_lines(#[trigger] self.paste_lines@[j]@) == leftover(pending0[j]),
                forall|j: int| c <= j < n ==> view_lines(#[trigger] self.paste_lines@[j]@) == pending0[j],
                packets_view(out@) == sends_all(pending0.take(c as int)),
            decreases n - c,
        {
            let mut p: Vec<String> = Vec::new();
            self.paste_lines.set_and_swap(c, &mut p);
            let mut batches = take_batches(&mut p, c);
            self.paste_lines.set_and_swap(c, &mut p);
            proof {
                let t = pending0.take(c + 1);
                assert(t.drop_last() =~= pending0.take(c as int));
                assert(packets_view(out@ + batches@) =~= packets_view(out@) + packets_view(batches@));
            }
            out.append(&mut batches);
            c = c + 1;
        }
        assert(pending0.take(n as int) =~= pending0);
        assert(self.pending() =~= pending0.map_values(|p: Seq<Seq<char>>| leftover(p)));
        out
    }

    /// The shutdown instruction: every destination's whole pending set, short
    /// or empty as it may be, joined into one text, in index order. The
    /// pending sets are left empty.
    pub fn flush(&mut self) -> (r: Packet)
        requires
            old(self).wf(),
        ensures
            final(self).wf(),
            final(self).title() == old(self).title(),
            final(self).channel_names() == old(self).channel_names(),
            final(self).ledger() == old(self).ledger(),
            final(self).pending() == Seq::new(old(self).pending().len(), |i: int| Seq::<Seq<char>>::empty()),
            r@ == flush_packet(old(self).pending()),
    {
        let ghost pending0 = self.pending();
        let n = self.paste_lines.len();
        let mut texts: Vec<String> = Vec::new();
        let mut c: usize = 0;
        while c < n
            invariant
                c <= n == self.paste_lines@.len() == pending0.len(),
                self.window_name@ == old(self).window_name@,
                self.channels@ == old(self).channels@,
                self.total_paste_lines@ == old(self).total_paste_lines@,
                forall|j: int| 0 <= j < c ==> view_lines(#[trigger] self.paste_lines@[j]@) == Seq::<Seq<char>>::empty(),
                forall|j: int| c <= j < n ==> view_lines(#[trigger] self.paste_lines@[j]@) == pending0[j],
                texts@.len() == c,
                forall|j: int| 0 <= j < c ==> texts@[j]@ == join_nl(pending0[j]),
            decreases n - c,
        {
            let len = self.paste_lines[c].len();
            let text = join_range(&self.paste_lines[c], 0, len);
            assert(self.paste_lines@[c as int]@.subrange(0, len as int) =~= self.paste_lines@[c as int]@);
            let empty: Vec<String> = Vec::new();
            assert(view_lines(empty@) =~= Seq::<Seq<char>>::empty());
            self.paste_lines.set(c, empty);
            texts.push(text);
            c = c + 1;
        }
        assert(self.pending() =~= Seq::new(pending0.len(), |i: int| Seq::<Seq<char>>::empty()));
        let r = Packet::SendAndQuit(texts);
        assert(texts@.map_values(|s: String| s@) =~= pending0.map_values(|p: Seq<Seq<char>>| join_nl(p)));
        r
    }

    pub fn window_name(&self) -> (r: &str)
        ensures
            r@ == self.title(),
    {
        self.window_name.as_str()
    }

    pub fn channel_count(&self) -> (r: usize)
        ensures
            r == self.channel_names().len(),
    {
        self.channels.len()
    }

    /// The lines waiting for the destination `channel`.
    pub fn pending_lines(&self, channel: usize) -> (r: &Vec<String>)
        requires
            self.wf(),
            channel < self.channel_names().len(),
        ensures
            view_lines(r@) == self.pending()[channel as int],
    {
        &self.paste_lines[channel]
    }

    /// Every line taken in so far.
    pub fn ledger_lines(&self) -> (r: &Vec<String>)
        ensures
            view_lines(r@) == self.ledger(),
    {
        &self.total_paste_lines
    }

    pub fn channel_name(&self, i: usize) -> (r: &str)
        requires
            i < self.channel_names().len(),
        ensures
            r@ == self.channel_names()[i as int],
    {
        self.channels[i].as_str()
    }
}

} // verus!
