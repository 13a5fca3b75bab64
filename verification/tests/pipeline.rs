use gitlab_link::config::Config;
use gitlab_link::transform::transform;
use gitlab_link::GitlabLink;

fn cfg() -> Config {
    Config {
        server_url: b"https://gitlab.example".to_vec(),
        current_namespace: b"ns".to_vec(),
        current_project: b"proj".to_vec(),
    }
}

fn tr(input: &str) -> String {
    String::from_utf8(transform(input.as_bytes(), &cfg())).unwrap()
}

#[test]
fn issue_with_namespace_and_project() {
    assert_eq!(
        tr("See group/proj#7 for details"),
        "See [group/proj#7](https://gitlab.example/group/proj/-/issues/7) for details"
    );
}

#[test]
fn bare_merge_request_uses_configured_namespace_and_project() {
    assert_eq!(
        tr("Merge !12"),
        "Merge [!12](https://gitlab.example/ns/proj/-/merge_requests/12)"
    );
}

#[test]
fn merge_request_with_namespace_and_project() {
    assert_eq!(
        tr("ns2/p2!9"),
        "[ns2/p2!9](https://gitlab.example/ns2/p2/-/merge_requests/9)"
    );
}

#[test]
fn issue_with_subgroup() {
    assert_eq!(
        tr("g/s/p#5 is fixed"),
        "[g/s/p#5](https://gitlab.example/g/s/p/-/issues/5) is fixed"
    );
}

#[test]
fn project_reference_three_segments() {
    assert_eq!(
        tr("group/sub/project>"),
        "[group/sub/project>](https://gitlab.example/group/sub/project)"
    );
}

#[test]
fn project_reference_two_segments() {
    assert_eq!(tr("see a/b> now"), "see [a/b>](https://gitlab.example/a/b) now");
}

#[test]
fn fenced_code_block_is_not_rewritten() {
    let input = "```\n#7\n```\n";
    assert_eq!(tr(input), input);
}

#[test]
fn existing_link_label_is_not_rewritten() {
    let input = "[see #7](http://x/)";
    assert_eq!(tr(input), input);
}

#[test]
fn heading_is_not_rewritten_but_body_is() {
    assert_eq!(
        tr("# Title #1\n\ntext #2\n"),
        "# Title #1\n\ntext [#2](https://gitlab.example/ns/proj/-/issues/2)\n"
    );
}

#[test]
fn image_alt_text_is_not_rewritten() {
    let input = "![alt #3](img.png)";
    assert_eq!(tr(input), input);
}

#[test]
fn inline_code_is_not_rewritten() {
    let input = "run `#7` now";
    assert_eq!(tr(input), input);
}

#[test]
fn two_references_on_one_line() {
    assert_eq!(
        tr("#1 and proj#2"),
        "[#1](https://gitlab.example/ns/proj/-/issues/1) and [proj#2](https://gitlab.example/ns/proj/-/issues/2)"
    );
}

#[test]
fn span_excludes_surrounding_punctuation() {
    assert_eq!(
        tr("(proj#2, done)"),
        "([proj#2](https://gitlab.example/ns/proj/-/issues/2), done)"
    );
}

#[test]
fn empty_configuration_still_builds_the_url_shape() {
    let empty = Config {
        server_url: Vec::new(),
        current_namespace: Vec::new(),
        current_project: Vec::new(),
    };
    let out = String::from_utf8(transform(b"#42", &empty)).unwrap();
    assert_eq!(out, "[#42](///-/issues/42)");
}

#[test]
fn empty_content_stays_empty() {
    assert_eq!(transform(b"", &cfg()), Vec::<u8>::new());
}

#[test]
fn invalid_utf8_passes_through_unchanged() {
    let bytes = vec![0xffu8, 0x23, 0x37];
    assert_eq!(transform(&bytes, &cfg()), bytes);
}

#[test]
fn transform_is_idempotent_on_issue_references() {
    let once = tr("See group/proj#7 for details");
    assert_eq!(tr(&once), once);
}

#[test]
fn transform_is_idempotent_on_merge_requests() {
    let once = tr("Merge !12");
    assert_eq!(tr(&once), once);
}

#[test]
fn transform_is_idempotent_on_project_references() {
    let once = tr("group/sub/project>");
    assert_eq!(tr(&once), once);
}

#[test]
fn transform_is_idempotent_on_mixed_content() {
    let once = tr("# Head #9\n\n#1 and proj#2, plus a/b> and `#7`\n");
    assert_eq!(tr(&once), once);
}

#[test]
fn replace_method_matches_transform() {
    let pre = GitlabLink::new();
    let out = pre.replace(b"Merge !12", &cfg());
    assert_eq!(out, transform(b"Merge !12", &cfg()));
}

#[test]
fn preprocessor_name() {
    let pre = GitlabLink::default();
    assert_eq!(pre.name(), "gitlab-link");
}

#[test]
fn supports_only_html_renderer() {
    let pre = GitlabLink::new();
    assert!(pre.supports_renderer(b"html"));
    assert!(!pre.supports_renderer(b"markdown"));
    assert!(!pre.supports_renderer(b"htm"));
}
