//! General properties of the pipeline, stated and proved once.
use crate::matcher::{
    attempt_ns, attempt_ns_sub, attempt_proj, ident_end, issue_mr_at, lemma_match_at_bounds,
    match_at, matches_of, project_ref_at, scan_from, suffix_at, SpecRef, SpecRefKind, BANG, GT,
    HASH, SLASH,
};
use crate::resolver::spec_issue_label;
use crate::splice::{splice, SpecRep};
use vstd::prelude::*;

verus! {

/// The text a reference appeared as in the source: the label of an issue or
/// merge-request link, or a project path with its trailing `>` marker.
pub open spec fn source_text_of(kind: SpecRefKind) -> Seq<u8> {
    match kind {
        SpecRefKind::Project { path } => path + seq![GT],
        SpecRefKind::Issue { namespace, project, id } => spec_issue_label(
            namespace,
            project,
            HASH,
            id,
        ),
        SpecRefKind::MergeRequest { namespace, project, id } => spec_issue_label(
            namespace,
            project,
            BANG,
            id,
        ),
    }
}

/// The byte span of a match covers exactly the matched text.
pub open spec fn covers_exactly(s: Seq<u8>, m: SpecRef) -> bool {
    s.subrange(m.start, m.end) == source_text_of(m.kind)
}

/// A match found at position `i` spans exactly the text it classified: no
/// surrounding byte is taken in, and no matched byte is left out.
pub proof fn lemma_match_covers_span(s: Seq<u8>, i: int)
    requires
        0 <= i <= s.len(),
    ensures
        match_at(s, i) matches Some(m) ==> covers_exactly(s, m),
{
    lemma_match_at_bounds(s, i);
    if match_at(s, i) is Some {
        let m = match_at(s, i).unwrap();
        let p1 = ident_end(s, i);
        if issue_mr_at(s, i) is Some {
            if attempt_ns_sub(s, i) is Some {
                let p2 = ident_end(s, p1 + 1);
                let p3 = ident_end(s, p2 + 1);
                let sfx = suffix_at(s, p3).unwrap();
                assert(s.subrange(i, sfx.end) =~= s.subrange(i, p2) + seq![SLASH] + s.subrange(
                    p2 + 1,
                    p3,
                ) + seq![s[p3]] + s.subrange(p3 + 1, sfx.end));
            } else if attempt_ns(s, i) is Some {
                let p2 = ident_end(s, p1 + 1);
                let sfx = suffix_at(s, p2).unwrap();
                assert(s.subrange(i, sfx.end) =~= s.subrange(i, p1) + seq![SLASH] + s.subrange(
                    p1 + 1,
                    p2,
                ) + seq![s[p2]] + s.subrange(p2 + 1, sfx.end));
            } else if attempt_proj(s, i) is Some {
                let sfx = suffix_at(s, p1).unwrap();
                assert(s.subrange(i, sfx.end) =~= s.subrange(i, p1) + seq![s[p1]] + s.subrange(
                    p1 + 1,
                    sfx.end,
                ));
            } else {
                let sfx = suffix_at(s, i).unwrap();
                assert(s.subrange(i, sfx.end) =~= seq![s[i]] + s.subrange(i + 1, sfx.end));
            }
        } else {
            assert(project_ref_at(s, i) is Some);
            assert(s.subrange(m.start, m.end) =~= s.subrange(i, m.end - 1) + seq![s[m.end - 1]]);
        }
    }
}

/// Every match of a fragment spans exactly the text it classified.
pub proof fn lemma_scan_from_covers(s: Seq<u8>, i: int)
    requires
        0 <= i,
    ensures
        forall|k: int|
            0 <= k < scan_from(s, i).len() ==> covers_exactly(s, #[trigger] scan_from(s, i)[k]),
    decreases s.len() - i,
{
    if 0 <= i < s.len() {
        lemma_match_at_bounds(s, i);
        match match_at(s, i) {
            Some(m) => {
                lemma_match_covers_span(s, i);
                lemma_scan_from_covers(s, m.end);
                let rest = scan_from(s, m.end);
                let all = scan_from(s, i);
                assert(all == seq![m] + rest);
                assert forall|k: int| 0 <= k < all.len() implies covers_exactly(
                    s,
                    #[trigger] all[k],
                ) by {
                    if k > 0 {
                        assert(all[k] == rest[k - 1]);
                    } else {
                        assert(all[0] == m);
                    }
                }
            },
            None => {
                lemma_scan_from_covers(s, i + 1);
                let all = scan_from(s, i);
                assert forall|k: int| 0 <= k < all.len() implies covers_exactly(
                    s,
                    #[trigger] all[k],
                ) by {
                    assert(all[k] == scan_from(s, i + 1)[k]);
                }
            },
        }
    }
}

/// Every match of a whole fragment spans exactly the text it classified.
pub proof fn lemma_matches_exact_span(s: Seq<u8>)
    ensures
        forall|k: int|
            0 <= k < matches_of(s).len() ==> covers_exactly(s, #[trigger] matches_of(s)[k]),
{
    lemma_scan_from_covers(s, 0);
}

/// Two replacements applied to one content leave all surrounding text
/// unshifted: the result is the prefix, the first text, the middle, the
/// second text and the tail, each taken verbatim from the original.
pub proof fn lemma_splice_two(content: Seq<u8>, r1: SpecRep, r2: SpecRep)
    requires
        0 <= r1.start <= r1.end <= r2.start <= r2.end <= content.len(),
    ensures
        splice(content, seq![r1, r2]) == content.subrange(0, r1.start) + r1.text
            + content.subrange(r1.end, r2.start) + r2.text + content.subrange(
            r2.end,
            content.len() as int,
        ),
{
    let rs = seq![r1, r2];
    let pre2 = content.subrange(0, r2.start);
    assert(rs.last() == r2);
    assert(rs.drop_last() =~= seq![r1]);
    assert(splice(content, rs) == splice(pre2, seq![r1]) + r2.text + content.subrange(
        r2.end,
        content.len() as int,
    ));
    let one = seq![r1];
    assert(one.last() == r1);
    assert(one.drop_last() =~= Seq::<SpecRep>::empty());
    assert(splice(pre2, one) == splice(pre2.subrange(0, r1.start), Seq::<SpecRep>::empty())
        + r1.text + pre2.subrange(r1.end, r2.start));
    assert(pre2.subrange(0, r1.start) =~= content.subrange(0, r1.start));
    assert(pre2.subrange(r1.end, r2.start) =~= content.subrange(r1.end, r2.start));
    assert(splice(content, rs) =~= content.subrange(0, r1.start) + r1.text + content.subrange(
        r1.end,
        r2.start,
    ) + r2.text + content.subrange(r2.end, content.len() as int));
}

} // verus!
