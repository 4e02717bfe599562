use vstd::prelude::*;

verus! {

/// The byte the payload is split on.
pub const NEWLINE: u8 = 10;

/// The state of a left-to-right split of `b` on the newline byte: the
/// non-empty fragments already closed by a newline, and the (possibly
/// empty) fragment still open at the end.
pub open spec fn split_state(b: Seq<u8>) -> (Seq<Seq<u8>>, Seq<u8>)
    decreases b.len(),
{
    if b.len() == 0 {
        (Seq::<Seq<u8>>::empty(), Seq::<u8>::empty())
    } else {
        let prev = split_state(b.drop_last());
        if b.last() == NEWLINE {
            (
                if prev.1.len() > 0 {
                    prev.0.push(prev.1)
                } else {
                    prev.0
                },
                Seq::<u8>::empty(),
            )
        } else {
            (prev.0, prev.1.push(b.last()))
        }
    }
}

/// The non-empty lines of `b`: the payload split on the newline byte with
/// every empty fragment dropped, a trailing fragment counting whether or
/// not a final newline closes it.
pub open spec fn spec_lines(b: Seq<u8>) -> Seq<Seq<u8>> {
    let s = split_state(b);
    if s.1.len() > 0 {
        s.0.push(s.1)
    } else {
        s.0
    }
}

/// A payload with a trailing newline splits into the same lines as one
/// without it.
pub proof fn lemma_lines_trailing_newline(b: Seq<u8>)
    ensures
        spec_lines(b.push(NEWLINE)) == spec_lines(b),
{
    assert(b.push(NEWLINE).drop_last() =~= b);
    assert(b.push(NEWLINE).last() == NEWLINE);
}

proof fn lemma_split_state_wf(b: Seq<u8>)
    ensures
        forall|i: int|
            0 <= i < split_state(b).0.len() ==> (#[trigger] split_state(b).0[i]).len() > 0,
    decreases b.len(),
{
    if b.len() > 0 {
        lemma_split_state_wf(b.drop_last());
        let prev = split_state(b.drop_last());
        if b.last() == NEWLINE && prev.1.len() > 0 {
            assert forall|i: int| 0 <= i < split_state(b).0.len() implies (#[trigger] split_state(
                b,
            ).0[i]).len() > 0 by {
                if i < prev.0.len() {
                    assert(split_state(b).0[i] == prev.0[i]);
                } else {
                    assert(split_state(b).0[i] == prev.1);
                }
            }
        }
    }
}

/// Every line is non-empty.
pub proof fn lemma_lines_wf(b: Seq<u8>)
    ensures
        forall|i: int|
            0 <= i < spec_lines(b).len() ==> (#[trigger] spec_lines(b)[i]).len() > 0,
{
    lemma_split_state_wf(b);
}

/// Split the payload on the newline byte, dropping every empty fragment.
pub fn body_to_lines(buf: &Vec<u8>) -> (lines: Vec<Vec<u8>>)
    ensures
        lines.deep_view() == spec_lines(buf@),
{
    let mut out: Vec<Vec<u8>> = Vec::new();
    let mut cur: Vec<u8> = Vec::new();
    let mut i: usize = 0;
    proof {
        assert(buf@.take(0) =~= Seq::<u8>::empty());
        assert(out.deep_view() =~= split_state(buf@.take(0)).0);
        assert(cur@ =~= split_state(buf@.take(0)).1);
    }
    while i < buf.len()
        invariant
            i <= buf@.len(),
            out.deep_view() == split_state(buf@.take(i as int)).0,
            cur@ == split_state(buf@.take(i as int)).1,
        decreases buf@.len() - i,
    {
        let ghost pre = buf@.take(i as int);
        let byte = buf[i];
        proof {
            assert(buf@.take(i + 1).drop_last() =~= pre);
            assert(buf@.take(i + 1).last() == byte);
        }
        if byte == NEWLINE {
            if cur.len() > 0 {
                let ghost old_out = out.deep_view();
                out.push(cur);
                cur = Vec::new();
                proof {
                    assert(out.deep_view() =~~= old_out.push(split_state(pre).1));
                }
            }
        } else {
            cur.push(byte);
        }
        i = i + 1;
    }
    proof {
        assert(buf@.take(buf@.len() as int) =~= buf@);
    }
    if cur.len() > 0 {
        let ghost old_out = out.deep_view();
        let ghost tail = cur@;
        out.push(cur);
        proof {
            assert(out.deep_view() =~~= old_out.push(tail));
        }
    }
    out
}

} // verus!
