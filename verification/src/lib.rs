//! Rewrites shorthand references to a hosted project-management service
//! (issues, merge requests, projects) found in documentation text into
//! fully-qualified markdown links, while leaving code blocks, headings and
//! existing links untouched.
use vstd::prelude::*;

pub mod bytes;
pub mod config;
pub mod events;
pub mod laws;
pub mod matcher;
pub mod resolver;
pub mod splice;
pub mod transform;

use crate::config::Config;
use crate::transform::{spec_transform, transform};

verus! {

/// `html` as bytes: the one renderer the preprocessor supports.
pub open spec fn spec_html() -> Seq<u8> {
    seq![104u8, 116, 109, 108]
}

/// The preprocessor: rewrites each chapter's references into markdown
/// links.
pub struct GitlabLink {}

impl GitlabLink {
    pub fn new() -> (s: Self)
        ensures
            s == (GitlabLink {  }),
    {
        GitlabLink {  }
    }

    /// The name the preprocessor is configured under.
    pub fn name(&self) -> (r: &'static str)
        ensures
            r@ == "gitlab-link"@,
    {
        "gitlab-link"
    }

    /// Rewrite one chapter's content under the given configuration.
    pub fn replace(&self, content: &[u8], cfg: &Config) -> (out: Vec<u8>)
        ensures
            out@ == spec_transform(content@, cfg@),
    {
        transform(content, cfg)
    }

    /// Whether an output renderer is supported: only the HTML one is.
    pub fn supports_renderer(&self, renderer: &[u8]) -> (r: bool)
        ensures
            r == (renderer@ == spec_html()),
    {
        let ok = renderer.len() == 4 && renderer[0] == 104 && renderer[1] == 116 && renderer[2]
            == 109 && renderer[3] == 108;
        proof {
            if ok {
                assert(renderer@ =~= spec_html());
            } else {
                assert(renderer@ != spec_html());
            }
        }
        ok
    }
}

impl Default for GitlabLink {
    fn default() -> (s: Self)
        ensures
            s == (GitlabLink {  }),
    {
        GitlabLink::new()
    }
}

} // verus!
