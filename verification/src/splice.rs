//! Span splicer: applies a collection of replacement spans to the original
//! content without displacing the spans not yet applied.
//!
//! The spans are given in source order, non-overlapping and within bounds;
//! conceptually each replacement `r` rewrites `content` to
//! `content[..r.start] + r.text + content[r.end..]`, processed in strictly
//! descending start order so that earlier splices never shift a later span.
use crate::bytes::{append_slice, append_vec};
use vstd::prelude::*;

verus! {

/// Mathematical form of a pending replacement.
pub struct SpecRep {
    pub start: int,
    pub end: int,
    pub text: Seq<u8>,
}

/// A pending replacement: new text for a half-open byte range of the
/// original content.
pub struct Replacement {
    pub start: usize,
    pub end: usize,
    pub text: Vec<u8>,
}

impl View for Replacement {
    type V = SpecRep;

    open spec fn view(&self) -> SpecRep {
        SpecRep { start: self.start as int, end: self.end as int, text: self.text@ }
    }
}

pub open spec fn reps_view(rs: Seq<Replacement>) -> Seq<SpecRep> {
    rs.map_values(|r: Replacement| r@)
}

/// The replacement spans are in bounds, in source order and non-overlapping.
pub open spec fn reps_wf(content: Seq<u8>, rs: Seq<SpecRep>) -> bool {
    &&& forall|k: int| 0 <= k < rs.len() ==> 0 <= #[trigger] rs[k].start <= rs[k].end
        <= content.len()
    &&& forall|k: int| 1 <= k < rs.len() ==> rs[k - 1].end <= #[trigger] rs[k].start
}

/// The content after all replacements, processed in descending start order:
/// the last replacement rewrites the tail, and the remaining ones rewrite
/// the untouched prefix. A span that does not fit the content is ignored.
pub open spec fn splice(content: Seq<u8>, rs: Seq<SpecRep>) -> Seq<u8>
    decreases rs.len(),
{
    if rs.len() == 0 {
        content
    } else {
        let r = rs.last();
        if 0 <= r.start <= r.end <= content.len() {
            splice(content.subrange(0, r.start), rs.drop_last()) + r.text + content.subrange(
                r.end,
                content.len() as int,
            )
        } else {
            splice(content, rs.drop_last())
        }
    }
}

/// Extending the content past every span only appends the extension.
pub proof fn lemma_splice_extend(content: Seq<u8>, rs: Seq<SpecRep>, a: int, b: int)
    requires
        0 <= a <= b <= content.len(),
        forall|k: int| 0 <= k < rs.len() ==> 0 <= #[trigger] rs[k].start <= rs[k].end <= a,
    ensures
        splice(content.subrange(0, b), rs) == splice(content.subrange(0, a), rs) + content.subrange(
            a,
            b,
        ),
    decreases rs.len(),
{
    if rs.len() == 0 {
        assert(content.subrange(0, b) =~= content.subrange(0, a) + content.subrange(a, b));
    } else {
        let r = rs.last();
        assert(content.subrange(0, b).subrange(0, r.start) =~= content.subrange(0, r.start));
        assert(content.subrange(0, a).subrange(0, r.start) =~= content.subrange(0, r.start));
        assert(content.subrange(0, b).subrange(r.end, b) =~= content.subrange(0, a).subrange(
            r.end,
            a,
        ) + content.subrange(a, b));
    }
}

/// Apply all replacements, producing
/// `content[..s1] + t1 + content[e1..s2] + t2 + ... + content[en..]`.
pub fn apply_replacements(content: &[u8], rs: &Vec<Replacement>) -> (out: Vec<u8>)
    requires
        reps_wf(content@, reps_view(rs@)),
    ensures
        out@ == splice(content@, reps_view(rs@)),
{
    let ghost rv = reps_view(rs@);
    let mut out: Vec<u8> = Vec::new();
    let mut cursor: usize = 0;
    let mut k: usize = 0;
    while k < rs.len()
        invariant
            reps_wf(content@, rv),
            rv == reps_view(rs@),
            k <= rs@.len(),
            cursor <= content@.len(),
            k == 0 ==> cursor == 0,
            k > 0 ==> cursor as int == rv[k - 1].end,
            forall|j: int| 0 <= j < k ==> #[trigger] rv[j].end <= cursor as int,
            out@ == splice(content@.subrange(0, cursor as int), rv.subrange(0, k as int)),
        decreases rs@.len() - k,
    {
        let start = rs[k].start;
        let end = rs[k].end;
        proof {
            assert(rv[k as int] == rs@[k as int]@);
            assert(0 <= rv[k as int].start <= rv[k as int].end <= content@.len());
            if k > 0 {
                assert(rv[k as int - 1].end <= rv[k as int].start);
            }
        }
        append_slice(&mut out, vstd::slice::slice_subrange(content, cursor, start));
        append_vec(&mut out, &rs[k].text);
        proof {
            let prev = rv.subrange(0, k as int);
            let cur = rv.subrange(0, k + 1);
            assert forall|j: int| 0 <= j < prev.len() implies 0 <= #[trigger] prev[j].start
                <= prev[j].end <= start as int by {
                assert(prev[j] == rv[j]);
                assert(0 <= rv[j].start <= rv[j].end <= content@.len());
                assert(rv[j].end <= cursor as int);
            }
            lemma_splice_extend(content@, prev, cursor as int, start as int);
            assert(cur.drop_last() =~= prev);
            assert(cur.last() == rv[k as int]);
            let clipped = content@.subrange(0, end as int);
            assert(clipped.subrange(0, start as int) =~= content@.subrange(0, start as int));
            assert(clipped.subrange(end as int, end as int) =~= Seq::<u8>::empty());
            assert(splice(clipped, cur) == splice(content@.subrange(0, start as int), prev)
                + rv[k as int].text + Seq::<u8>::empty());
            assert(splice(clipped, cur) =~= splice(content@.subrange(0, start as int), prev)
                + rv[k as int].text);
            assert(out@ =~= splice(content@.subrange(0, cursor as int), prev) + content@.subrange(
                cursor as int,
                start as int,
            ) + rv[k as int].text);
        }
        cursor = end;
        k = k + 1;
    }
    append_slice(&mut out, vstd::slice::slice_subrange(content, cursor, content.len()));
    proof {
        lemma_splice_extend(content@, rv, cursor as int, content@.len() as int);
        assert(rv.subrange(0, rs@.len() as int) =~= rv);
        assert(content@.subrange(0, content@.len() as int) =~= content@);
    }
    out
}

} // verus!
