//! Reference matcher: scans a plain-text fragment (as bytes) for shorthand
//! references to issues (`ns/proj#42`), merge requests (`ns/proj!42`) and
//! projects (`group/sub/project>`).
//!
//! The grammar is fixed:
//! - identifiers are one or more of ASCII letters, digits, `-`, `_`, `.`;
//! - an issue or merge-request reference is an optional `ns(/sub)?/` prefix,
//!   an optional project identifier, then `#digits` or `!digits` ended at a
//!   word boundary;
//! - a project reference is two or three `/`-separated identifiers followed
//!   by a literal `>`;
//! - scanning is leftmost: at each position the issue/merge-request form is
//!   preferred over the project form, and matches never overlap.
use vstd::prelude::*;

verus! {

/// `/` as a byte.
pub const SLASH: u8 = 47;

/// `#` as a byte.
pub const HASH: u8 = 35;

/// `!` as a byte.
pub const BANG: u8 = 33;

/// `>` as a byte.
pub const GT: u8 = 62;

/// True of the bytes that may appear in a path identifier: ASCII letters,
/// digits, `-`, `_` and `.`.
pub open spec fn is_ident_byte(b: u8) -> bool {
    (97 <= b && b <= 122) || (65 <= b && b <= 90) || (48 <= b && b <= 57) || b == 45 || b == 95
        || b == 46
}

/// True of the ASCII digits.
pub open spec fn is_digit_byte(b: u8) -> bool {
    48 <= b && b <= 57
}

/// True of the bytes that count as word characters for the word boundary
/// that closes an issue or merge-request id: ASCII letters, digits and `_`.
pub open spec fn is_word_byte(b: u8) -> bool {
    (97 <= b && b <= 122) || (65 <= b && b <= 90) || (48 <= b && b <= 57) || b == 95
}

fn ident_byte(b: u8) -> (r: bool)
    ensures
        r == is_ident_byte(b),
{
    (97 <= b && b <= 122) || (65 <= b && b <= 90) || (48 <= b && b <= 57) || b == 45 || b == 95
        || b == 46
}

fn digit_byte(b: u8) -> (r: bool)
    ensures
        r == is_digit_byte(b),
{
    48 <= b && b <= 57
}

fn word_byte(b: u8) -> (r: bool)
    ensures
        r == is_word_byte(b),
{
    (97 <= b && b <= 122) || (65 <= b && b <= 90) || (48 <= b && b <= 57) || b == 95
}

/// End of the maximal run of identifier bytes that starts at `i`.
pub open spec fn ident_end(s: Seq<u8>, i: int) -> int
    decreases s.len() - i,
{
    if 0 <= i && i < s.len() && is_ident_byte(s[i]) {
        ident_end(s, i + 1)
    } else {
        i
    }
}

/// End of the maximal run of digit bytes that starts at `i`.
pub open spec fn digits_end(s: Seq<u8>, i: int) -> int
    decreases s.len() - i,
{
    if 0 <= i && i < s.len() && is_digit_byte(s[i]) {
        digits_end(s, i + 1)
    } else {
        i
    }
}

pub proof fn lemma_ident_end_bounds(s: Seq<u8>, i: int)
    requires
        0 <= i <= s.len(),
    ensures
        i <= ident_end(s, i) <= s.len(),
    decreases s.len() - i,
{
    if i < s.len() && is_ident_byte(s[i]) {
        lemma_ident_end_bounds(s, i + 1);
    }
}

pub proof fn lemma_digits_end_bounds(s: Seq<u8>, i: int)
    requires
        0 <= i <= s.len(),
    ensures
        i <= digits_end(s, i) <= s.len(),
    decreases s.len() - i,
{
    if i < s.len() && is_digit_byte(s[i]) {
        lemma_digits_end_bounds(s, i + 1);
    }
}

fn scan_ident_end(s: &[u8], i: usize) -> (r: usize)
    requires
        i <= s@.len(),
    ensures
        r == ident_end(s@, i as int),
        i <= r <= s@.len(),
{
    let mut j = i;
    while j < s.len() && ident_byte(s[j])
        invariant
            i <= j <= s@.len(),
            ident_end(s@, i as int) == ident_end(s@, j as int),
        decreases s@.len() - j,
    {
        j = j + 1;
    }
    j
}

fn scan_digits_end(s: &[u8], i: usize) -> (r: usize)
    requires
        i <= s@.len(),
    ensures
        r == digits_end(s@, i as int),
        i <= r <= s@.len(),
{
    let mut j = i;
    while j < s.len() && digit_byte(s[j])
        invariant
            i <= j <= s@.len(),
            digits_end(s@, i as int) == digits_end(s@, j as int),
        decreases s@.len() - j,
    {
        j = j + 1;
    }
    j
}

/// Mathematical form of a classified reference: the byte span it covers in
/// the fragment and its parts.
pub enum SpecRefKind {
    Project { path: Seq<u8> },
    Issue { namespace: Option<Seq<u8>>, project: Option<Seq<u8>>, id: Seq<u8> },
    MergeRequest { namespace: Option<Seq<u8>>, project: Option<Seq<u8>>, id: Seq<u8> },
}

pub struct SpecRef {
    pub start: int,
    pub end: int,
    pub kind: SpecRefKind,
}

/// A classified reference found in a fragment, with the byte span it covers.
pub enum RefType {
    Project { path: Vec<u8> },
    Issue { namespace: Option<Vec<u8>>, project: Option<Vec<u8>>, id: Vec<u8> },
    MergeRequest { namespace: Option<Vec<u8>>, project: Option<Vec<u8>>, id: Vec<u8> },
}

pub struct RawRef {
    pub start: usize,
    pub end: usize,
    pub kind: RefType,
}

pub open spec fn view_opt(o: Option<Vec<u8>>) -> Option<Seq<u8>> {
    match o {
        Some(v) => Some(v@),
        None => None,
    }
}

impl View for RefType {
    type V = SpecRefKind;

    open spec fn view(&self) -> SpecRefKind {
        match self {
            RefType::Project { path } => SpecRefKind::Project { path: path@ },
            RefType::Issue { namespace, project, id } => SpecRefKind::Issue {
                namespace: view_opt(*namespace),
                project: view_opt(*project),
                id: id@,
            },
            RefType::MergeRequest { namespace, project, id } => SpecRefKind::MergeRequest {
                namespace: view_opt(*namespace),
                project: view_opt(*project),
                id: id@,
            },
        }
    }
}

impl View for RawRef {
    type V = SpecRef;

    open spec fn view(&self) -> SpecRef {
        SpecRef { start: self.start as int, end: self.end as int, kind: self.kind@ }
    }
}

/// The issue/merge-request tail: `#digits` or `!digits`, ended at a word
/// boundary.
pub struct SpecSuffix {
    pub is_issue: bool,
    pub id: Seq<u8>,
    pub end: int,
}

pub open spec fn suffix_at(s: Seq<u8>, q: int) -> Option<SpecSuffix> {
    if 0 <= q && q < s.len() && (s[q] == HASH || s[q] == BANG) {
        let d = digits_end(s, q + 1);
        if d > q + 1 && (d == s.len() || !is_word_byte(s[d])) {
            Some(SpecSuffix { is_issue: s[q] == HASH, id: s.subrange(q + 1, d), end: d })
        } else {
            None
        }
    } else {
        None
    }
}

pub open spec fn spec_issue_mr(
    start: int,
    sfx: SpecSuffix,
    namespace: Option<Seq<u8>>,
    project: Option<Seq<u8>>,
) -> SpecRef {
    SpecRef {
        start,
        end: sfx.end,
        kind: if sfx.is_issue {
            SpecRefKind::Issue { namespace, project, id: sfx.id }
        } else {
            SpecRefKind::MergeRequest { namespace, project, id: sfx.id }
        },
    }
}

/// Issue/merge-request attempt with a namespace that carries a subgroup:
/// `ns/sub/proj` then the tail.
pub open spec fn attempt_ns_sub(s: Seq<u8>, i: int) -> Option<SpecRef> {
    let p1 = ident_end(s, i);
    if p1 > i && p1 < s.len() && s[p1] == SLASH {
        let p2 = ident_end(s, p1 + 1);
        if p2 > p1 + 1 && p2 < s.len() && s[p2] == SLASH {
            let p3 = ident_end(s, p2 + 1);
            if p3 > p2 + 1 {
                match suffix_at(s, p3) {
                    Some(sfx) => Some(
                        spec_issue_mr(
                            i,
                            sfx,
                            Some(s.subrange(i, p2)),
                            Some(s.subrange(p2 + 1, p3)),
                        ),
                    ),
                    None => None,
                }
            } else {
                None
            }
        } else {
            None
        }
    } else {
        None
    }
}

/// Issue/merge-request attempt with a one-level namespace: `ns/proj` then
/// the tail.
pub open spec fn attempt_ns(s: Seq<u8>, i: int) -> Option<SpecRef> {
    let p1 = ident_end(s, i);
    if p1 > i && p1 < s.len() && s[p1] == SLASH {
        let p2 = ident_end(s, p1 + 1);
        if p2 > p1 + 1 {
            match suffix_at(s, p2) {
                Some(sfx) => Some(
                    spec_issue_mr(i, sfx, Some(s.subrange(i, p1)), Some(s.subrange(p1 + 1, p2))),
                ),
                None => None,
            }
        } else {
            None
        }
    } else {
        None
    }
}

/// Issue/merge-request attempt with a bare project: `proj` then the tail.
pub open spec fn attempt_proj(s: Seq<u8>, i: int) -> Option<SpecRef> {
    let p1 = ident_end(s, i);
    if p1 > i {
        match suffix_at(s, p1) {
            Some(sfx) => Some(spec_issue_mr(i, sfx, None, Some(s.subrange(i, p1)))),
            None => None,
        }
    } else {
        None
    }
}

/// Issue/merge-request attempt with no prefix at all: the bare tail `#42` or
/// `!42`.
pub open spec fn attempt_bare(s: Seq<u8>, i: int) -> Option<SpecRef> {
    match suffix_at(s, i) {
        Some(sfx) => Some(spec_issue_mr(i, sfx, None, None)),
        None => None,
    }
}

/// The issue/merge-request form at position `i`: the longest prefix shape is
/// preferred, mirroring a greedy optional-group match.
pub open spec fn issue_mr_at(s: Seq<u8>, i: int) -> Option<SpecRef> {
    if attempt_ns_sub(s, i) is Some {
        attempt_ns_sub(s, i)
    } else if attempt_ns(s, i) is Some {
        attempt_ns(s, i)
    } else if attempt_proj(s, i) is Some {
        attempt_proj(s, i)
    } else {
        attempt_bare(s, i)
    }
}

/// The project-reference form at position `i`: two or three `/`-separated
/// identifiers followed by a literal `>`; three segments are preferred.
/// The matched span includes the `>`, the recorded path does not.
pub open spec fn project_ref_at(s: Seq<u8>, i: int) -> Option<SpecRef> {
    let p1 = ident_end(s, i);
    if p1 > i && p1 < s.len() && s[p1] == SLASH {
        let p2 = ident_end(s, p1 + 1);
        let p3 = ident_end(s, p2 + 1);
        if p2 > p1 + 1 && p2 < s.len() && s[p2] == SLASH && p3 > p2 + 1 && p3 < s.len() && s[p3]
            == GT {
            Some(
                SpecRef {
                    start: i,
                    end: p3 + 1,
                    kind: SpecRefKind::Project { path: s.subrange(i, p3) },
                },
            )
        } else if p2 > p1 + 1 && p2 < s.len() && s[p2] == GT {
            Some(
                SpecRef {
                    start: i,
                    end: p2 + 1,
                    kind: SpecRefKind::Project { path: s.subrange(i, p2) },
                },
            )
        } else {
            None
        }
    } else {
        None
    }
}

/// The reference that matches at position `i`, if any: the issue or
/// merge-request form takes precedence over the project form.
pub open spec fn match_at(s: Seq<u8>, i: int) -> Option<SpecRef> {
    if issue_mr_at(s, i) is Some {
        issue_mr_at(s, i)
    } else {
        project_ref_at(s, i)
    }
}

pub proof fn lemma_suffix_bounds(s: Seq<u8>, q: int)
    requires
        0 <= q <= s.len(),
    ensures
        suffix_at(s, q) matches Some(sfx) ==> q + 1 < sfx.end <= s.len(),
{
    if suffix_at(s, q) is Some {
        lemma_digits_end_bounds(s, q + 1);
    }
}

/// Every match starts where the attempt was made and covers a non-empty,
/// in-bounds span.
pub proof fn lemma_match_at_bounds(s: Seq<u8>, i: int)
    requires
        0 <= i <= s.len(),
    ensures
        match_at(s, i) matches Some(m) ==> m.start == i && i < m.end <= s.len(),
{
    lemma_ident_end_bounds(s, i);
    let p1 = ident_end(s, i);
    lemma_suffix_bounds(s, i);
    lemma_suffix_bounds(s, p1);
    if p1 > i && p1 < s.len() && s[p1] == SLASH {
        lemma_ident_end_bounds(s, p1 + 1);
        let p2 = ident_end(s, p1 + 1);
        lemma_suffix_bounds(s, p2);
        if p2 < s.len() {
            lemma_ident_end_bounds(s, p2 + 1);
            let p3 = ident_end(s, p2 + 1);
            lemma_suffix_bounds(s, p3);
        }
    }
}

/// All matches of a fragment, scanning left to right from position `i`;
/// positions inside an accepted match are never rescanned.
pub open spec fn scan_from(s: Seq<u8>, i: int) -> Seq<SpecRef>
    decreases s.len() - i,
{
    if i < 0 || i >= s.len() {
        Seq::empty()
    } else {
        match match_at(s, i) {
            Some(m) => {
                let nxt = if i < m.end && m.end <= s.len() {
                    m.end
                } else {
                    i + 1
                };
                seq![m] + scan_from(s, nxt)
            },
            None => scan_from(s, i + 1),
        }
    }
}

/// The matches of a whole fragment, in source order.
pub open spec fn matches_of(s: Seq<u8>) -> Seq<SpecRef> {
    scan_from(s, 0)
}

/// The matches are well formed: each byte span is non-empty, lies within the
/// fragment, starts at or after `i`, and consecutive spans do not overlap.
pub open spec fn refs_wf(s: Seq<u8>, rs: Seq<SpecRef>, i: int) -> bool {
    &&& forall|k: int| 0 <= k < rs.len() ==> i <= #[trigger] rs[k].start < rs[k].end <= s.len()
    &&& forall|k: int| 1 <= k < rs.len() ==> rs[k - 1].end <= #[trigger] rs[k].start
}

pub proof fn lemma_scan_from_wf(s: Seq<u8>, i: int)
    requires
        0 <= i,
    ensures
        refs_wf(s, scan_from(s, i), i),
    decreases s.len() - i,
{
    if 0 <= i < s.len() {
        lemma_match_at_bounds(s, i);
        match match_at(s, i) {
            Some(m) => {
                lemma_scan_from_wf(s, m.end);
                let rest = scan_from(s, m.end);
                let all = scan_from(s, i);
                assert(all == seq![m] + rest);
                assert forall|k: int| 0 <= k < all.len() implies i <= #[trigger] all[k].start
                    < all[k].end <= s.len() by {
                    if k > 0 {
                        assert(all[k] == rest[k - 1]);
                    }
                }
                assert forall|k: int| 1 <= k < all.len() implies all[k - 1].end
                    <= #[trigger] all[k].start by {
                    assert(all[k] == rest[k - 1]);
                    if k > 1 {
                        assert(all[k - 1] == rest[k - 2]);
                    }
                }
            },
            None => {
                lemma_scan_from_wf(s, i + 1);
            },
        }
    }
}

fn extract(s: &[u8], a: usize, b: usize) -> (v: Vec<u8>)
    requires
        a <= b <= s@.len(),
    ensures
        v@ == s@.subrange(a as int, b as int),
{
    vstd::slice::slice_to_vec(vstd::slice::slice_subrange(s, a, b))
}

fn try_suffix(s: &[u8], q: usize) -> (r: Option<(bool, usize)>)
    requires
        q <= s@.len(),
    ensures
        match r {
            Some(p) => {
                &&& q < s@.len() && q + 1 <= p.1 <= s@.len()
                &&& suffix_at(s@, q as int) == Some(
                    SpecSuffix {
                        is_issue: p.0,
                        id: s@.subrange(q + 1, p.1 as int),
                        end: p.1 as int,
                    },
                )
            },
            None => suffix_at(s@, q as int) is None,
        },
{
    if q < s.len() && (s[q] == HASH || s[q] == BANG) {
        let d = scan_digits_end(s, q + 1);
        if d > q + 1 && (d == s.len() || !word_byte(s[d])) {
            return Some((s[q] == HASH, d));
        }
    }
    None
}

fn try_issue_mr(s: &[u8], i: usize) -> (r: Option<RawRef>)
    requires
        i <= s@.len(),
    ensures
        match r {
            Some(m) => issue_mr_at(s@, i as int) == Some(m@),
            None => issue_mr_at(s@, i as int) is None,
        },
{
    let p1 = scan_ident_end(s, i);
    if p1 > i && p1 < s.len() && s[p1] == SLASH {
        let p2 = scan_ident_end(s, p1 + 1);
        if p2 > p1 + 1 && p2 < s.len() && s[p2] == SLASH {
            let p3 = scan_ident_end(s, p2 + 1);
            if p3 > p2 + 1 {
                if let Some((is_issue, d)) = try_suffix(s, p3) {
                    let namespace = Some(extract(s, i, p2));
                    let project = Some(extract(s, p2 + 1, p3));
                    let id = extract(s, p3 + 1, d);
                    let kind = if is_issue {
                        RefType::Issue { namespace, project, id }
                    } else {
                        RefType::MergeRequest { namespace, project, id }
                    };
                    return Some(RawRef { start: i, end: d, kind });
                }
            }
        }
        if p2 > p1 + 1 {
            if let Some((is_issue, d)) = try_suffix(s, p2) {
                let namespace = Some(extract(s, i, p1));
                let project = Some(extract(s, p1 + 1, p2));
                let id = extract(s, p2 + 1, d);
                let kind = if is_issue {
                    RefType::Issue { namespace, project, id }
                } else {
                    RefType::MergeRequest { namespace, project, id }
                };
                return Some(RawRef { start: i, end: d, kind });
            }
        }
    }
    if p1 > i {
        if let Some((is_issue, d)) = try_suffix(s, p1) {
            let project = Some(extract(s, i, p1));
            let id = extract(s, p1 + 1, d);
            let kind = if is_issue {
                RefType::Issue { namespace: None, project, id }
            } else {
                RefType::MergeRequest { namespace: None, project, id }
            };
            return Some(RawRef { start: i, end: d, kind });
        }
    }
    if let Some((is_issue, d)) = try_suffix(s, i) {
        let id = extract(s, i + 1, d);
        let kind = if is_issue {
            RefType::Issue { namespace: None, project: None, id }
        } else {
            RefType::MergeRequest { namespace: None, project: None, id }
        };
        return Some(RawRef { start: i, end: d, kind });
    }
    None
}

fn try_project_ref(s: &[u8], i: usize) -> (r: Option<RawRef>)
    requires
        i <= s@.len(),
    ensures
        match r {
            Some(m) => project_ref_at(s@, i as int) == Some(m@),
            None => project_ref_at(s@, i as int) is None,
        },
{
    let p1 = scan_ident_end(s, i);
    if p1 > i && p1 < s.len() && s[p1] == SLASH {
        let p2 = scan_ident_end(s, p1 + 1);
        if p2 > p1 + 1 {
            if p2 < s.len() && s[p2] == SLASH {
                let p3 = scan_ident_end(s, p2 + 1);
                if p3 > p2 + 1 && p3 < s.len() && s[p3] == GT {
                    let path = extract(s, i, p3);
                    return Some(
                        RawRef { start: i, end: p3 + 1, kind: RefType::Project { path } },
                    );
                }
            }
            if p2 < s.len() && s[p2] == GT {
                let path = extract(s, i, p2);
                return Some(RawRef { start: i, end: p2 + 1, kind: RefType::Project { path } });
            }
        }
    }
    None
}

fn try_match_at(s: &[u8], i: usize) -> (r: Option<RawRef>)
    requires
        i <= s@.len(),
    ensures
        match r {
            Some(m) => match_at(s@, i as int) == Some(m@),
            None => match_at(s@, i as int) is None,
        },
{
    match try_issue_mr(s, i) {
        Some(m) => Some(m),
        None => try_project_ref(s, i),
    }
}

pub open spec fn refs_view(rs: Seq<RawRef>) -> Seq<SpecRef> {
    rs.map_values(|r: RawRef| r@)
}

/// Find every reference in a plain-text fragment, in source order. Each
/// returned span covers exactly the matched text.
pub fn find_refs(s: &[u8]) -> (refs: Vec<RawRef>)
    ensures
        refs_view(refs@) == matches_of(s@),
{
    let mut refs: Vec<RawRef> = Vec::new();
    let mut i: usize = 0;
    while i < s.len()
        invariant
            i <= s@.len(),
            matches_of(s@) == refs_view(refs@) + scan_from(s@, i as int),
        decreases s@.len() - i,
    {
        match try_match_at(s, i) {
            Some(m) => {
                let end = m.end;
                proof {
                    lemma_match_at_bounds(s@, i as int);
                    assert(refs_view(refs@.push(m)) =~= refs_view(refs@).push(m@));
                    assert(refs_view(refs@).push(m@) + scan_from(s@, end as int) =~= refs_view(
                        refs@,
                    ) + (seq![m@] + scan_from(s@, end as int)));
                }
                refs.push(m);
                i = end;
            },
            None => {
                i = i + 1;
            },
        }
    }
    proof {
        assert(scan_from(s@, i as int) =~= Seq::<SpecRef>::empty());
        assert(refs_view(refs@) + Seq::<SpecRef>::empty() =~= refs_view(refs@));
    }
    refs
}

} // verus!
