use gitlab_link::config::Config;
use gitlab_link::events::{EventKind, MdEvent};
use gitlab_link::matcher::{find_refs, RefType};
use gitlab_link::resolver::resolve_ref;
use gitlab_link::transform::{rewrite_with_events, transform};

fn cfg() -> Config {
    Config {
        server_url: b"https://gitlab.example".to_vec(),
        current_namespace: b"ns".to_vec(),
        current_project: b"proj".to_vec(),
    }
}

fn tr(input: &str) -> String {
    String::from_utf8(transform(input.as_bytes(), &cfg())).unwrap()
}

#[test]
fn word_boundary_rejects_trailing_letter() {
    assert_eq!(tr("#77x stays"), "#77x stays");
}

#[test]
fn match_restarts_after_too_deep_path() {
    assert_eq!(
        tr("a/b/c/d#1"),
        "a/[b/c/d#1](https://gitlab.example/b/c/d/-/issues/1)"
    );
}

#[test]
fn plain_exclamation_is_not_a_reference() {
    assert_eq!(tr("Hello world!"), "Hello world!");
}

#[test]
fn four_segment_project_reference_matches_tail() {
    assert_eq!(
        tr("a/b/c/d>"),
        "a/[b/c/d>](https://gitlab.example/b/c/d)"
    );
}

#[test]
fn identifier_with_dots_and_dashes() {
    assert_eq!(
        tr("my-group.x/the_proj#3"),
        "[my-group.x/the_proj#3](https://gitlab.example/my-group.x/the_proj/-/issues/3)"
    );
}

#[test]
fn id_must_have_digits() {
    assert_eq!(tr("see proj# and proj!"), "see proj# and proj!");
}

#[test]
fn find_refs_spans_cover_exactly_the_matched_text() {
    let s = b" proj#2, a/b> ";
    let refs = find_refs(s);
    assert_eq!(refs.len(), 2);
    assert_eq!((refs[0].start, refs[0].end), (1, 7));
    assert_eq!((refs[1].start, refs[1].end), (9, 13));
    match &refs[0].kind {
        RefType::Issue { namespace, project, id } => {
            assert!(namespace.is_none());
            assert_eq!(project.as_deref(), Some(b"proj".as_slice()));
            assert_eq!(id.as_slice(), b"2");
        },
        _ => panic!("expected an issue reference"),
    }
    match &refs[1].kind {
        RefType::Project { path } => assert_eq!(path.as_slice(), b"a/b"),
        _ => panic!("expected a project reference"),
    }
}

#[test]
fn find_refs_prefers_issue_form_over_project_form() {
    // `a/b#1>` starts like both forms; the issue form wins and the `>` stays.
    let refs = find_refs(b"a/b#1>");
    assert_eq!(refs.len(), 1);
    assert_eq!((refs[0].start, refs[0].end), (0, 5));
    assert!(matches!(refs[0].kind, RefType::Issue { .. }));
}

#[test]
fn resolve_ref_renders_a_project_link() {
    let out = resolve_ref(&RefType::Project { path: b"a/b".to_vec() }, &cfg());
    assert_eq!(out, b"[a/b>](https://gitlab.example/a/b)".to_vec());
}

#[test]
fn resolve_ref_renders_an_issue_link_with_defaults() {
    let out = resolve_ref(
        &RefType::Issue { namespace: None, project: None, id: b"4".to_vec() },
        &cfg(),
    );
    assert_eq!(out, b"[#4](https://gitlab.example/ns/proj/-/issues/4)".to_vec());
}

#[test]
fn rewrite_with_events_scans_only_unskipped_text() {
    let content = b"#1 #2";
    let events = vec![
        MdEvent { kind: EventKind::SkipStart, start: 0, end: 5 },
        MdEvent { kind: EventKind::Text, start: 0, end: 2 },
        MdEvent { kind: EventKind::SkipEnd, start: 0, end: 5 },
        MdEvent { kind: EventKind::Text, start: 3, end: 5 },
    ];
    let out = rewrite_with_events(content, &events, &cfg());
    assert_eq!(
        String::from_utf8(out).unwrap(),
        "#1 [#2](https://gitlab.example/ns/proj/-/issues/2)"
    );
}

#[test]
fn rewrite_with_events_ignores_out_of_order_spans() {
    let content = b"#1 #2";
    let events = vec![
        MdEvent { kind: EventKind::Text, start: 3, end: 5 },
        MdEvent { kind: EventKind::Text, start: 0, end: 2 },
    ];
    let out = rewrite_with_events(content, &events, &cfg());
    assert_eq!(
        String::from_utf8(out).unwrap(),
        "#1 [#2](https://gitlab.example/ns/proj/-/issues/2)"
    );
}
