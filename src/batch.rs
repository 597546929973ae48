use vstd::prelude::*;
use crate::text::{join_nl, join_range, view_lines};

verus! {

/// How many lines make one batch.
pub const BATCH_SIZE: usize = 5;

/// The complete batches at the front of `p`, in order.
pub open spec fn full_groups(p: Seq<Seq<char>>) -> Seq<Seq<Seq<char>>>
    decreases p.len(),
{
    if p.len() < BATCH_SIZE {
        Seq::empty()
    } else {
        seq![p.take(BATCH_SIZE as int)] + full_groups(p.skip(BATCH_SIZE as int))
    }
}

/// What is left of `p` once its complete batches are taken: fewer lines than
/// a batch holds.
pub open spec fn leftover(p: Seq<Seq<char>>) -> Seq<Seq<char>>
    decreases p.len(),
{
    if p.len() < BATCH_SIZE {
        p
    } else {
        leftover(p.skip(BATCH_SIZE as int))
    }
}

/// `p` cut into batches, the last one possibly shorter (and no batch at all
/// where `p` is empty).
pub open spec fn all_groups(p: Seq<Seq<char>>) -> Seq<Seq<Seq<char>>>
    decreases p.len(),
{
    if p.len() == 0 {
        Seq::empty()
    } else if p.len() <= BATCH_SIZE {
        seq![p]
    } else {
        seq![p.take(BATCH_SIZE as int)] + all_groups(p.skip(BATCH_SIZE as int))
    }
}

/// After its complete batches are taken, fewer lines than a batch holds stay
/// behind, and they are the last lines of `p`.
pub proof fn lemma_leftover_short(p: Seq<Seq<char>>)
    ensures
        leftover(p).len() < BATCH_SIZE,
        leftover(p) =~= p.skip(p.len() - leftover(p).len()),
    decreases p.len(),
{
    if p.len() >= BATCH_SIZE {
        lemma_leftover_short(p.skip(BATCH_SIZE as int));
    }
}

/// Cutting lines into complete batches loses and reorders nothing: the
/// batches one after another, then what is left, give back the lines, and
/// each batch holds exactly `BATCH_SIZE` lines.
pub proof fn lemma_full_groups_partition(p: Seq<Seq<char>>)
    ensures
        full_groups(p).flatten() + leftover(p) == p,
        forall|i: int| 0 <= i < full_groups(p).len() ==> (#[trigger] full_groups(p)[i]).len() == BATCH_SIZE,
    decreases p.len(),
{
    if p.len() < BATCH_SIZE {
        assert(full_groups(p).flatten() + leftover(p) =~= p);
    } else {
        let rest = p.skip(BATCH_SIZE as int);
        lemma_full_groups_partition(rest);
        let g = seq![p.take(BATCH_SIZE as int)];
        vstd::seq_lib::lemma_flatten_concat(g, full_groups(rest));
        g.lemma_flatten_one_element();
        assert(g.flatten() =~= p.take(BATCH_SIZE as int));
        assert(full_groups(p) == g + full_groups(rest));
        assert(leftover(p) == leftover(rest));
        assert(full_groups(p).flatten() + leftover(p) =~= p.take(BATCH_SIZE as int) + (full_groups(rest).flatten()
            + leftover(rest)));
        assert(p.take(BATCH_SIZE as int) + rest =~= p);
        assert forall|i: int| 0 <= i < full_groups(p).len() implies (#[trigger] full_groups(p)[i]).len()
            == BATCH_SIZE by {
            if i > 0 {
                assert(full_groups(p)[i] == full_groups(rest)[i - 1]);
            }
        }
    }
}

/// Cutting lines into groups for the backlog loses and reorders nothing: the
/// groups one after another give back the lines, and each group holds at
/// least one and at most `BATCH_SIZE` lines.
pub proof fn lemma_all_groups_partition(p: Seq<Seq<char>>)
    ensures
        all_groups(p).flatten() == p,
        forall|i: int|
            0 <= i < all_groups(p).len() ==> 1 <= (#[trigger] all_groups(p)[i]).len() <= BATCH_SIZE,
    decreases p.len(),
{
    if p.len() == 0 {
        assert(all_groups(p).flatten() =~= p);
    } else if p.len() <= BATCH_SIZE {
        let g = seq![p];
        g.lemma_flatten_one_element();
        assert(g.flatten() =~= p);
    } else {
        let rest = p.skip(BATCH_SIZE as int);
        lemma_all_groups_partition(rest);
        let g = seq![p.take(BATCH_SIZE as int)];
        vstd::seq_lib::lemma_flatten_concat(g, all_groups(rest));
        g.lemma_flatten_one_element();
        assert(g.flatten() =~= p.take(BATCH_SIZE as int));
        assert(all_groups(p).flatten() =~= p);
        assert forall|i: int| 0 <= i < all_groups(p).len() implies 1 <= (
        #[trigger] all_groups(p)[i]).len() <= BATCH_SIZE by {
            if i > 0 {
                assert(all_groups(p)[i] == all_groups(rest)[i - 1]);
            }
        }
    }
}

/// Each group of `all_groups(p)`, joined with newlines.
pub open spec fn joined_groups(p: Seq<Seq<char>>) -> Seq<Seq<char>> {
    all_groups(p).map_values(|g: Seq<Seq<char>>| join_nl(g))
}

/// Cuts `lines` into batches, the last possibly shorter, and joins each.
pub fn group_lines(lines: &Vec<String>) -> (r: Vec<String>)
    ensures
        view_lines(r@) == joined_groups(view_lines(lines@)),
{
    let ghost all = view_lines(lines@);
    let n = lines.len();
    let mut out: Vec<String> = Vec::new();
    let mut i: usize = 0;
    assert(all.skip(0) =~= all);
    assert(view_lines(out@) + joined_groups(all) =~= joined_groups(all));
    while i < n
        invariant
            n == lines@.len(),
            i <= n,
            all == view_lines(lines@),
            view_lines(out@) + joined_groups(all.skip(i as int)) == joined_groups(all),
        decreases n - i,
    {
        let ghost rest = all.skip(i as int);
        let end: usize = if n - i <= BATCH_SIZE { n } else { i + BATCH_SIZE };
        let g = join_range(lines, i, end);
        proof {
            assert(lines@.subrange(i as int, end as int).map_values(|s: String| s@)
                =~= rest.take((end - i) as int));
            if n - i <= BATCH_SIZE {
                assert(rest.take((end - i) as int) =~= rest);
                assert(all.skip(end as int) =~= Seq::<Seq<char>>::empty());
                assert(joined_groups(rest) =~= seq![join_nl(rest)]);
                assert(joined_groups(all.skip(end as int)) =~= Seq::<Seq<char>>::empty());
            } else {
                assert(rest.skip(BATCH_SIZE as int) =~= all.skip(end as int));
                assert(joined_groups(rest) =~= seq![join_nl(rest.take(BATCH_SIZE as int))]
                    + joined_groups(all.skip(end as int)));
            }
            crate::text::lemma_view_lines_push(out@, g);
            assert(view_lines(out@.push(g)) + joined_groups(all.skip(end as int))
                =~= view_lines(out@) + joined_groups(rest));
        }
        out.push(g);
        i = end;
    }
    proof {
        assert(all.skip(n as int) =~= Seq::<Seq<char>>::empty());
        assert(joined_groups(all.skip(n as int)) =~= Seq::<Seq<char>>::empty());
        assert(view_lines(out@) =~= view_lines(out@) + joined_groups(all.skip(n as int)));
    }
    out
}

} // verus!
