//! The transform pipeline for one chapter: walk the structural event
//! stream, keep a single boolean skip flag (set on entering a code block,
//! heading, link or image, cleared on the matching exit), scan the text
//! fragments seen outside skip zones for references, resolve each into a
//! markdown link, and splice all replacements into the original content.
//!
//! The skip state is deliberately a single boolean, not a per-kind stack;
//! the known consequence is that a link nested inside a heading clears skip
//! mode on the inner element's exit.
use crate::config::{Config, SpecConfig};
use crate::events::{md_events_of, parse_events, EventKind, MdEvent};
use crate::matcher::{find_refs, lemma_scan_from_wf, matches_of, refs_view, refs_wf, SpecRef};
use crate::resolver::{resolve_ref, spec_resolve};
use crate::splice::{apply_replacements, reps_view, reps_wf, splice, Replacement, SpecRep};
use vstd::prelude::*;

verus! {

/// The scanning state while walking the event stream: the skip flag, the
/// end of the last scanned fragment, and the replacements collected so far.
pub struct SpecScan {
    pub in_skip: bool,
    pub cursor: int,
    pub reps: Seq<SpecRep>,
}

/// The replacements one fragment contributes: its matches, shifted by the
/// fragment's offset in the chapter and resolved into links.
pub open spec fn frag_reps(frag: Seq<u8>, off: int, cfg: SpecConfig) -> Seq<SpecRep> {
    matches_of(frag).map_values(
        |m: SpecRef| SpecRep { start: off + m.start, end: off + m.end, text: spec_resolve(m.kind, cfg) },
    )
}

pub open spec fn init_scan() -> SpecScan {
    SpecScan { in_skip: false, cursor: 0, reps: Seq::empty() }
}

/// One step of the skip-zone tracker. Only a text event seen while the skip
/// flag is clear is scanned. A text event whose span does not follow the
/// already scanned fragments in source order, or does not fit the content,
/// is left unscanned (the parser does not produce such events).
pub open spec fn scan_step(content: Seq<u8>, cfg: SpecConfig, st: SpecScan, e: MdEvent) -> SpecScan {
    match e.kind {
        EventKind::SkipStart => if !st.in_skip {
            SpecScan { in_skip: true, cursor: st.cursor, reps: st.reps }
        } else {
            st
        },
        EventKind::SkipEnd => if st.in_skip {
            SpecScan { in_skip: false, cursor: st.cursor, reps: st.reps }
        } else {
            st
        },
        EventKind::Text => if !st.in_skip && st.cursor <= e.start as int && e.start <= e.end
            && e.end as int <= content.len() {
            SpecScan {
                in_skip: st.in_skip,
                cursor: e.end as int,
                reps: st.reps + frag_reps(
                    content.subrange(e.start as int, e.end as int),
                    e.start as int,
                    cfg,
                ),
            }
        } else {
            st
        },
        EventKind::Other => st,
    }
}

/// The state after the first `i` events.
pub open spec fn state_after(
    content: Seq<u8>,
    cfg: SpecConfig,
    events: Seq<MdEvent>,
    i: int,
) -> SpecScan
    decreases i,
{
    if i <= 0 {
        init_scan()
    } else {
        scan_step(content, cfg, state_after(content, cfg, events, i - 1), events[i - 1])
    }
}

/// All replacements a chapter's event stream produces, in source order.
pub open spec fn spec_replacements(
    content: Seq<u8>,
    cfg: SpecConfig,
    events: Seq<MdEvent>,
) -> Seq<SpecRep> {
    state_after(content, cfg, events, events.len() as int).reps
}

/// The rewritten chapter, given its event stream.
pub open spec fn spec_rewrite(content: Seq<u8>, events: Seq<MdEvent>, cfg: SpecConfig) -> Seq<u8> {
    splice(content, spec_replacements(content, cfg, events))
}

/// The rewritten chapter: its own parse drives the skip-zone tracker.
pub open spec fn spec_transform(content: Seq<u8>, cfg: SpecConfig) -> Seq<u8> {
    spec_rewrite(content, md_events_of(content), cfg)
}

/// The collected replacements are within bounds, in source order,
/// non-overlapping, and all end at or before the cursor.
pub proof fn lemma_state_wf(content: Seq<u8>, cfg: SpecConfig, events: Seq<MdEvent>, i: int)
    requires
        0 <= i,
    ensures
        ({
            let st = state_after(content, cfg, events, i);
            &&& 0 <= st.cursor <= content.len()
            &&& reps_wf(content, st.reps)
            &&& forall|j: int| 0 <= j < st.reps.len() ==> #[trigger] st.reps[j].end <= st.cursor
        }),
    decreases i,
{
    if i > 0 {
        lemma_state_wf(content, cfg, events, i - 1);
        let st = state_after(content, cfg, events, i - 1);
        let e = events[i - 1];
        let nxt = state_after(content, cfg, events, i);
        if e.kind is Text && !st.in_skip && st.cursor <= e.start as int && e.start <= e.end
            && e.end as int <= content.len() {
            let frag = content.subrange(e.start as int, e.end as int);
            lemma_scan_from_wf(frag, 0);
            let ms = matches_of(frag);
            let fr = frag_reps(frag, e.start as int, cfg);
            assert forall|j: int| 0 <= j < fr.len() implies st.cursor <= #[trigger] fr[j].start
                < fr[j].end <= e.end as int by {
                assert(0 <= ms[j].start < ms[j].end <= frag.len());
            }
            assert forall|j: int| 0 <= j < nxt.reps.len() implies 0 <= #[trigger] nxt.reps[j].start
                <= nxt.reps[j].end <= content.len() by {
                if j < st.reps.len() {
                    assert(nxt.reps[j] == st.reps[j]);
                } else {
                    assert(nxt.reps[j] == fr[j - st.reps.len()]);
                }
            }
            assert forall|j: int| 1 <= j < nxt.reps.len() implies nxt.reps[j - 1].end
                <= #[trigger] nxt.reps[j].start by {
                if j < st.reps.len() {
                    assert(nxt.reps[j] == st.reps[j]);
                    assert(nxt.reps[j - 1] == st.reps[j - 1]);
                } else if j == st.reps.len() {
                    assert(nxt.reps[j] == fr[0]);
                    if j >= 1 {
                        assert(nxt.reps[j - 1] == st.reps[j - 1]);
                        assert(st.reps[j - 1].end <= st.cursor);
                    }
                } else {
                    assert(nxt.reps[j] == fr[j - st.reps.len()]);
                    assert(nxt.reps[j - 1] == fr[j - 1 - st.reps.len()]);
                    let a = j - 1 - st.reps.len();
                    assert(ms[a].end <= ms[a + 1].start);
                }
            }
            assert forall|j: int| 0 <= j < nxt.reps.len() implies #[trigger] nxt.reps[j].end
                <= nxt.cursor by {
                if j < st.reps.len() {
                    assert(nxt.reps[j] == st.reps[j]);
                } else {
                    assert(nxt.reps[j] == fr[j - st.reps.len()]);
                }
            }
        }
    }
}

/// Rewrite one chapter, given its structural event stream: scan the text
/// fragments outside skip zones, resolve every reference found, and splice
/// the replacements into the content.
pub fn rewrite_with_events(content: &[u8], events: &Vec<MdEvent>, cfg: &Config) -> (out: Vec<u8>)
    ensures
        out@ == spec_rewrite(content@, events@, cfg@),
{
    let mut reps: Vec<Replacement> = Vec::new();
    let mut in_skip = false;
    let mut cursor: usize = 0;
    let mut j: usize = 0;
    proof {
        assert(reps_view(reps@) =~= Seq::<SpecRep>::empty());
    }
    while j < events.len()
        invariant
            j <= events@.len(),
            cursor <= content@.len(),
            state_after(content@, cfg@, events@, j as int) == (SpecScan {
                in_skip,
                cursor: cursor as int,
                reps: reps_view(reps@),
            }),
        decreases events@.len() - j,
    {
        let e = events[j];
        match e.kind {
            EventKind::SkipStart => {
                if !in_skip {
                    in_skip = true;
                }
            },
            EventKind::SkipEnd => {
                if in_skip {
                    in_skip = false;
                }
            },
            EventKind::Text => {
                if !in_skip && cursor <= e.start && e.start <= e.end && e.end <= content.len() {
                    let frag = vstd::slice::slice_subrange(content, e.start, e.end);
                    let rs = find_refs(frag);
                    proof {
                        lemma_scan_from_wf(frag@, 0);
                    }
                    let ghost base = reps_view(reps@);
                    let ghost fr = frag_reps(frag@, e.start as int, cfg@);
                    proof {
                        assert(base + fr.subrange(0, 0) =~= base);
                    }
                    let mut k: usize = 0;
                    while k < rs.len()
                        invariant
                            k <= rs@.len(),
                            refs_view(rs@) == matches_of(frag@),
                            refs_wf(frag@, matches_of(frag@), 0),
                            fr == frag_reps(frag@, e.start as int, cfg@),
                            frag@ == content@.subrange(e.start as int, e.end as int),
                            frag@.len() == e.end - e.start,
                            e.end <= content@.len(),
                            reps_view(reps@) == base + fr.subrange(0, k as int),
                        decreases rs@.len() - k,
                    {
                        proof {
                            assert(matches_of(frag@).len() == rs@.len());
                            assert(refs_view(rs@)[k as int] == rs@[k as int]@);
                            let m = matches_of(frag@)[k as int];
                            assert(0 <= m.start < m.end <= frag@.len());
                        }
                        let r = &rs[k];
                        let text = resolve_ref(&r.kind, cfg);
                        let start = e.start + r.start;
                        let end = e.start + r.end;
                        reps.push(Replacement { start, end, text });
                        proof {
                            let m = matches_of(frag@)[k as int];
                            assert(fr[k as int] == SpecRep {
                                start: e.start as int + m.start,
                                end: e.start as int + m.end,
                                text: spec_resolve(m.kind, cfg@),
                            });
                            assert(reps_view(reps@) =~= (base + fr.subrange(0, k as int)).push(
                                fr[k as int],
                            ));
                            assert(base + fr.subrange(0, k + 1) =~= (base + fr.subrange(
                                0,
                                k as int,
                            )).push(fr[k as int]));
                        }
                        k = k + 1;
                    }
                    proof {
                        assert(fr.subrange(0, fr.len() as int) =~= fr);
                        assert(rs@.len() == matches_of(frag@).len());
                        assert(fr.len() == matches_of(frag@).len());
                        assert(reps_view(reps@) == base + fr);
                    }
                    cursor = e.end;
                }
            },
            EventKind::Other => {},
        }
        j = j + 1;
        proof {
            assert(state_after(content@, cfg@, events@, j as int) == scan_step(
                content@,
                cfg@,
                state_after(content@, cfg@, events@, j - 1),
                events@[j - 1],
            ));
        }
    }
    proof {
        lemma_state_wf(content@, cfg@, events@, events@.len() as int);
    }
    apply_replacements(content, &reps)
}

/// Rewrite one chapter: parse its markdown structure, scan the text outside
/// code blocks, headings, links and images, and replace every recognized
/// reference with a fully-qualified markdown link.
pub fn transform(content: &[u8], cfg: &Config) -> (out: Vec<u8>)
    ensures
        out@ == spec_transform(content@, cfg@),
{
    let events = parse_events(content);
    rewrite_with_events(content, &events, cfg)
}

} // verus!
