use vstd::prelude::*;
use crate::batch::{all_groups, group_lines, joined_groups};
use crate::text::{lemma_view_lines_push, nonempty, split_lines, split_nl, view_lines};

verus! {

/// The lines held by backlog messages, in order: the pieces of each message
/// between newlines, empty pieces left out.
pub open spec fn recovered(messages: Seq<Seq<char>>) -> Seq<Seq<char>>
    decreases messages.len(),
{
    if messages.len() == 0 {
        Seq::empty()
    } else {
        recovered(messages.drop_last()) + nonempty(split_nl(messages.last()))
    }
}

/// The lines of backlog messages, in order, without empty lines.
pub fn recovered_lines(messages: &Vec<String>) -> (r: Vec<String>)
    ensures
        view_lines(r@) == recovered(view_lines(messages@)),
{
    let ghost ms = view_lines(messages@);
    let mut out: Vec<String> = Vec::new();
    let mut m: usize = 0;
    assert(ms.take(0) =~= Seq::<Seq<char>>::empty());
    assert(view_lines(out@) =~= Seq::<Seq<char>>::empty());
    while m < messages.len()
        invariant
            m <= messages@.len(),
            ms == view_lines(messages@),
            view_lines(out@) == recovered(ms.take(m as int)),
        decreases messages@.len() - m,
    {
        let pieces = split_lines(messages[m].as_str());
        let ghost base = view_lines(out@);
        let ghost ps = view_lines(pieces@);
        let mut k: usize = 0;
        assert(ps.take(0) =~= Seq::<Seq<char>>::empty());
        assert(view_lines(out@) =~= base + nonempty(ps.take(0)));
        while k < pieces.len()
            invariant
                k <= pieces@.len(),
                ps == view_lines(pieces@),
                view_lines(out@) == base + nonempty(ps.take(k as int)),
            decreases pieces@.len() - k,
        {
            let ghost pre = ps.take(k + 1);
            assert(pre.drop_last() =~= ps.take(k as int));
            assert(pre.last() == pieces@[k as int]@);
            if !pieces[k].as_str().is_empty() {
                let line = pieces[k].clone();
                proof {
                    lemma_view_lines_push(out@, line);
                    assert(base + nonempty(pre) =~= (base + nonempty(ps.take(k as int))).push(line@));
                }
                out.push(line);
            }
            k = k + 1;
        }
        proof {
            let pre = ms.take(m + 1);
            assert(pre.drop_last() =~= ms.take(m as int));
            assert(pre.last() == messages@[m as int]@);
            assert(ps.take(pieces@.len() as int) =~= ps);
        }
        m = m + 1;
    }
    assert(ms.take(messages@.len() as int) =~= ms);
    out
}

/// The messages that carry a backlog on: its lines, in order, in groups of a
/// batch's size, the last group possibly shorter, each joined into one text.
pub fn recovery_batches(messages: &Vec<String>) -> (r: Vec<String>)
    ensures
        view_lines(r@) == joined_groups(recovered(view_lines(messages@))),
{
    let lines = recovered_lines(messages);
    group_lines(&lines)
}

/// An empty backlog carries nothing on, so that recovery run a second time,
/// after the first has cleared the backlog, sends nothing.
pub proof fn lemma_recovery_empty()
    ensures
        joined_groups(recovered(Seq::<Seq<char>>::empty())) == Seq::<Seq<char>>::empty(),
{
    assert(all_groups(Seq::<Seq<char>>::empty()) =~= Seq::<Seq<Seq<char>>>::empty());
    assert(joined_groups(Seq::<Seq<char>>::empty()) =~= Seq::<Seq<char>>::empty());
}

} // verus!
