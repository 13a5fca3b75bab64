//! Reference resolver: turns a classified reference and the resolved
//! configuration into an inline markdown link `[label](url)`.
//!
//! The label shows only what appeared in the source text; a namespace or
//! project taken from the configuration affects the URL alone.
use crate::bytes::append_vec;
use crate::config::{Config, SpecConfig};
use crate::matcher::{view_opt, RefType, SpecRefKind, BANG, GT, HASH, SLASH};
use vstd::prelude::*;

verus! {

/// `[` as a byte.
pub const LBRACK: u8 = 91;

/// `]` as a byte.
pub const RBRACK: u8 = 93;

/// `(` as a byte.
pub const LPAREN: u8 = 40;

/// `)` as a byte.
pub const RPAREN: u8 = 41;

/// `-` as a byte.
pub const DASH: u8 = 45;

/// `/-/issues/` as bytes.
pub open spec fn issues_segment() -> Seq<u8> {
    seq![SLASH, DASH, SLASH, 105u8, 115, 115, 117, 101, 115, SLASH]
}

/// `/-/merge_requests/` as bytes.
pub open spec fn merge_requests_segment() -> Seq<u8> {
    seq![SLASH, DASH, SLASH, 109u8, 101, 114, 103, 101, 95, 114, 101, 113, 117, 101, 115, 116, 115, SLASH]
}

/// An inline markdown link `[label](url)`.
pub open spec fn spec_md_link(label: Seq<u8>, url: Seq<u8>) -> Seq<u8> {
    seq![LBRACK] + label + seq![RBRACK, LPAREN] + url + seq![RPAREN]
}

pub open spec fn spec_or_else(v: Option<Seq<u8>>, d: Seq<u8>) -> Seq<u8> {
    match v {
        Some(x) => x,
        None => d,
    }
}

/// The label of an issue or merge-request link: exactly the text that
/// appeared in the source, `ns/proj`, `proj` or nothing, then the marker
/// (`#` or `!`) and the id.
pub open spec fn spec_issue_label(
    namespace: Option<Seq<u8>>,
    project: Option<Seq<u8>>,
    marker: u8,
    id: Seq<u8>,
) -> Seq<u8> {
    match (namespace, project) {
        (Some(n), Some(p)) => n + seq![SLASH] + p + seq![marker] + id,
        (None, Some(p)) => p + seq![marker] + id,
        _ => seq![marker] + id,
    }
}

/// The URL of an issue or merge-request link: the server URL, the namespace
/// and project (each taken from the reference when present, else from the
/// configuration), the fixed segment and the id.
pub open spec fn spec_issue_url(
    cfg: SpecConfig,
    namespace: Option<Seq<u8>>,
    project: Option<Seq<u8>>,
    segment: Seq<u8>,
    id: Seq<u8>,
) -> Seq<u8> {
    cfg.server_url + seq![SLASH] + spec_or_else(namespace, cfg.current_namespace) + seq![SLASH]
        + spec_or_else(project, cfg.current_project) + segment + id
}

/// The full markdown link a reference resolves to.
pub open spec fn spec_resolve(kind: SpecRefKind, cfg: SpecConfig) -> Seq<u8> {
    match kind {
        SpecRefKind::Project { path } => spec_md_link(
            path + seq![GT],
            cfg.server_url + seq![SLASH] + path,
        ),
        SpecRefKind::Issue { namespace, project, id } => spec_md_link(
            spec_issue_label(namespace, project, HASH, id),
            spec_issue_url(cfg, namespace, project, issues_segment(), id),
        ),
        SpecRefKind::MergeRequest { namespace, project, id } => spec_md_link(
            spec_issue_label(namespace, project, BANG, id),
            spec_issue_url(cfg, namespace, project, merge_requests_segment(), id),
        ),
    }
}

fn append_issues_segment(out: &mut Vec<u8>)
    ensures
        final(out)@ == old(out)@ + issues_segment(),
{
    out.push(SLASH);
    out.push(DASH);
    out.push(SLASH);
    out.push(105);
    out.push(115);
    out.push(115);
    out.push(117);
    out.push(101);
    out.push(115);
    out.push(SLASH);
    proof {
        assert(out@ =~= old(out)@ + issues_segment());
    }
}

fn append_merge_requests_segment(out: &mut Vec<u8>)
    ensures
        final(out)@ == old(out)@ + merge_requests_segment(),
{
    out.push(SLASH);
    out.push(DASH);
    out.push(SLASH);
    out.push(109);
    out.push(101);
    out.push(114);
    out.push(103);
    out.push(101);
    out.push(95);
    out.push(114);
    out.push(101);
    out.push(113);
    out.push(117);
    out.push(101);
    out.push(115);
    out.push(116);
    out.push(115);
    out.push(SLASH);
    proof {
        assert(out@ =~= old(out)@ + merge_requests_segment());
    }
}

fn md_link(label: Vec<u8>, url: Vec<u8>) -> (out: Vec<u8>)
    ensures
        out@ == spec_md_link(label@, url@),
{
    let mut out: Vec<u8> = Vec::new();
    out.push(LBRACK);
    append_vec(&mut out, &label);
    out.push(RBRACK);
    out.push(LPAREN);
    append_vec(&mut out, &url);
    out.push(RPAREN);
    proof {
        assert(out@ =~= spec_md_link(label@, url@));
    }
    out
}

fn build_label(
    namespace: &Option<Vec<u8>>,
    project: &Option<Vec<u8>>,
    marker: u8,
    id: &Vec<u8>,
) -> (out: Vec<u8>)
    ensures
        out@ == spec_issue_label(view_opt(*namespace), view_opt(*project), marker, id@),
{
    let mut out: Vec<u8> = Vec::new();
    match (namespace, project) {
        (Some(n), Some(p)) => {
            append_vec(&mut out, n);
            out.push(SLASH);
            append_vec(&mut out, p);
            out.push(marker);
            append_vec(&mut out, id);
            proof {
                assert(out@ =~= spec_issue_label(
                    view_opt(*namespace),
                    view_opt(*project),
                    marker,
                    id@,
                ));
            }
        },
        (None, Some(p)) => {
            append_vec(&mut out, p);
            out.push(marker);
            append_vec(&mut out, id);
            proof {
                assert(out@ =~= spec_issue_label(
                    view_opt(*namespace),
                    view_opt(*project),
                    marker,
                    id@,
                ));
            }
        },
        (_, _) => {
            out.push(marker);
            append_vec(&mut out, id);
            proof {
                assert(out@ =~= spec_issue_label(
                    view_opt(*namespace),
                    view_opt(*project),
                    marker,
                    id@,
                ));
            }
        },
    }
    out
}

fn build_url(
    namespace: &Option<Vec<u8>>,
    project: &Option<Vec<u8>>,
    id: &Vec<u8>,
    is_issue: bool,
    cfg: &Config,
) -> (out: Vec<u8>)
    ensures
        out@ == spec_issue_url(
            cfg@,
            view_opt(*namespace),
            view_opt(*project),
            if is_issue {
                issues_segment()
            } else {
                merge_requests_segment()
            },
            id@,
        ),
{
    let mut out: Vec<u8> = Vec::new();
    append_vec(&mut out, &cfg.server_url);
    out.push(SLASH);
    match namespace {
        Some(n) => append_vec(&mut out, n),
        None => append_vec(&mut out, &cfg.current_namespace),
    }
    out.push(SLASH);
    match project {
        Some(p) => append_vec(&mut out, p),
        None => append_vec(&mut out, &cfg.current_project),
    }
    if is_issue {
        append_issues_segment(&mut out);
    } else {
        append_merge_requests_segment(&mut out);
    }
    append_vec(&mut out, id);
    proof {
        assert(out@ =~= spec_issue_url(
            cfg@,
            view_opt(*namespace),
            view_opt(*project),
            if is_issue {
                issues_segment()
            } else {
                merge_requests_segment()
            },
            id@,
        ));
    }
    out
}

fn build_issue_mr(
    namespace: &Option<Vec<u8>>,
    project: &Option<Vec<u8>>,
    id: &Vec<u8>,
    is_issue: bool,
    cfg: &Config,
) -> (out: Vec<u8>)
    ensures
        out@ == spec_md_link(
            spec_issue_label(
                view_opt(*namespace),
                view_opt(*project),
                if is_issue {
                    HASH
                } else {
                    BANG
                },
                id@,
            ),
            spec_issue_url(
                cfg@,
                view_opt(*namespace),
                view_opt(*project),
                if is_issue {
                    issues_segment()
                } else {
                    merge_requests_segment()
                },
                id@,
            ),
        ),
{
    let marker = if is_issue {
        HASH
    } else {
        BANG
    };
    let label = build_label(namespace, project, marker, id);
    let url = build_url(namespace, project, id, is_issue, cfg);
    md_link(label, url)
}

/// Render the markdown link a classified reference resolves to under the
/// given configuration.
pub fn resolve_ref(kind: &RefType, cfg: &Config) -> (out: Vec<u8>)
    ensures
        out@ == spec_resolve(kind@, cfg@),
{
    match kind {
        RefType::Project { path } => {
            let mut out: Vec<u8> = Vec::new();
            out.push(LBRACK);
            append_vec(&mut out, path);
            out.push(GT);
            out.push(RBRACK);
            out.push(LPAREN);
            append_vec(&mut out, &cfg.server_url);
            out.push(SLASH);
            append_vec(&mut out, path);
            out.push(RPAREN);
            proof {
                assert(out@ =~= spec_resolve(kind@, cfg@));
            }
            out
        },
        RefType::Issue { namespace, project, id } => build_issue_mr(
            namespace,
            project,
            id,
            true,
            cfg,
        ),
        RefType::MergeRequest { namespace, project, id } => build_issue_mr(
            namespace,
            project,
            id,
            false,
            cfg,
        ),
    }
}

} // verus!
