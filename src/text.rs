use vstd::prelude::*;
use vstd::string::{StrSliceExecFns, StringExecFns};

verus! {

/// The character sequences held by a sequence of strings.
pub open spec fn view_lines(v: Seq<String>) -> Seq<Seq<char>> {
    v.map_values(|s: String| s@)
}

/// The lines joined into one text, a newline between each two neighbours.
pub open spec fn join_nl(ls: Seq<Seq<char>>) -> Seq<char>
    decreases ls.len(),
{
    if ls.len() == 0 {
        Seq::empty()
    } else if ls.len() == 1 {
        ls[0]
    } else {
        join_nl(ls.drop_last()) + seq!['\n'] + ls.last()
    }
}

/// The pieces of `s` between newlines, empty pieces included: the text of
/// `"a\n\nb"` gives `a`, the empty line, and `b`; an empty text gives one
/// empty piece.
pub open spec fn split_nl(s: Seq<char>) -> Seq<Seq<char>>
    decreases s.len(),
{
    if s.len() == 0 {
        seq![Seq::empty()]
    } else {
        let prev = split_nl(s.drop_last());
        if s.last() == '\n' {
            prev.push(Seq::empty())
        } else {
            prev.update(prev.len() - 1, prev.last().push(s.last()))
        }
    }
}

/// The lines that are not empty, in their order.
pub open spec fn nonempty(ls: Seq<Seq<char>>) -> Seq<Seq<char>>
    decreases ls.len(),
{
    if ls.len() == 0 {
        Seq::empty()
    } else if ls.last().len() > 0 {
        nonempty(ls.drop_last()).push(ls.last())
    } else {
        nonempty(ls.drop_last())
    }
}

pub proof fn lemma_view_lines_push(v: Seq<String>, s: String)
    ensures
        view_lines(v.push(s)) == view_lines(v).push(s@),
{
    assert(view_lines(v.push(s)) =~= view_lines(v).push(s@));
}

/// Joins `lines[from..to]` with newlines.
pub fn join_range(lines: &Vec<String>, from: usize, to: usize) -> (r: String)
    requires
        from <= to <= lines@.len(),
    ensures
        r@ == join_nl(view_lines(lines@.subrange(from as int, to as int))),
{
    let mut r = String::new();
    let mut i: usize = from;
    assert(view_lines(lines@.subrange(from as int, from as int)) =~= Seq::empty());
    while i < to
        invariant
            from <= i <= to <= lines@.len(),
            r@ == join_nl(view_lines(lines@.subrange(from as int, i as int))),
        decreases to - i,
    {
        let ghost prev = view_lines(lines@.subrange(from as int, i as int));
        if i > from {
            r.append("\n");
            proof {
                reveal_strlit("\n");
                assert("\n"@.len() == 1);
                assert("\n"@[0] == '\n');
                assert("\n"@ =~= seq!['\n']);
            }
        }
        r.append(lines[i].as_str());
        proof {
            let next = view_lines(lines@.subrange(from as int, i + 1));
            assert(lines@.subrange(from as int, i + 1) =~= lines@.subrange(from as int, i as int).push(lines@[i as int]));
            lemma_view_lines_push(lines@.subrange(from as int, i as int), lines@[i as int]);
            assert(next.drop_last() =~= prev);
            assert(next.last() == lines@[i as int]@);
            if i == from {
                assert(next.len() == 1);
                assert(prev.len() == 0);
            } else {
                assert(next.len() > 1);
            }
        }
        i = i + 1;
    }
    r
}

/// Splits `s` at each newline, keeping empty pieces, as `str::split('\n')`
/// does.
pub fn split_lines(s: &str) -> (r: Vec<String>)
    ensures
        view_lines(r@) == split_nl(s@),
{
    let n = s.unicode_len();
    let mut out: Vec<String> = Vec::new();
    let mut start: usize = 0;
    let mut i: usize = 0;
    assert(s@.subrange(0, 0) =~= Seq::<char>::empty());
    assert(view_lines(out@).push(s@.subrange(0, 0)) =~= seq![Seq::<char>::empty()]);
    while i < n
        invariant
            n == s@.len(),
            start <= i <= n,
            split_nl(s@.subrange(0, i as int)) == view_lines(out@).push(s@.subrange(start as int, i as int)),
        decreases n - i,
    {
        let c = s.get_char(i);
        let ghost pre = s@.subrange(0, i + 1);
        assert(pre.drop_last() =~= s@.subrange(0, i as int));
        assert(pre.last() == c);
        if c == '\n' {
            let piece = String::from_str(s.substring_char(start, i));
            proof {
                lemma_view_lines_push(out@, piece);
            }
            out.push(piece);
            start = i + 1;
            assert(s@.subrange(start as int, i + 1) =~= Seq::<char>::empty());
        } else {
            assert(s@.subrange(start as int, i + 1) =~= s@.subrange(start as int, i as int).push(c));
            assert(split_nl(pre) =~= view_lines(out@).push(s@.subrange(start as int, i + 1)));
        }
        i = i + 1;
    }
    let last = String::from_str(s.substring_char(start, n));
    proof {
        lemma_view_lines_push(out@, last);
        assert(s@.subrange(0, n as int) =~= s@);
    }
    out.push(last);
    out
}

/// Whether `v` holds a string equal to `s`.
pub fn contains_line(v: &Vec<String>, s: &String) -> (r: bool)
    ensures
        r == view_lines(v@).contains(s@),
{
    let mut i: usize = 0;
    while i < v.len()
        invariant
            i <= v@.len(),
            forall|j: int| 0 <= j < i ==> v@[j]@ != s@,
        decreases v@.len() - i,
    {
        if v[i] == *s {
            assert(view_lines(v@)[i as int] == s@);
            return true;
        }
        i = i + 1;
    }
    assert(!view_lines(v@).contains(s@)) by {
        assert(forall|j: int| 0 <= j < v@.len() ==> view_lines(v@)[j] != s@);
    }
    false
}

} // verus!
