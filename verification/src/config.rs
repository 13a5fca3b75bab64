//! Run configuration: the service base URL and the namespace and project
//! used to complete references that name neither.
//!
//! Each setting is resolved once per run, from two optional sources: an
//! environment-style override wins when it is present and non-empty,
//! otherwise a value from a static key-value table is taken, otherwise the
//! setting is the empty string.
use crate::matcher::view_opt;
use vstd::prelude::*;

verus! {

/// Mathematical view of a resolved configuration.
pub struct SpecConfig {
    pub server_url: Seq<u8>,
    pub current_namespace: Seq<u8>,
    pub current_project: Seq<u8>,
}

/// A resolved configuration, immutable for the duration of a run.
pub struct Config {
    pub server_url: Vec<u8>,
    pub current_namespace: Vec<u8>,
    pub current_project: Vec<u8>,
}

impl View for Config {
    type V = SpecConfig;

    open spec fn view(&self) -> SpecConfig {
        SpecConfig {
            server_url: self.server_url@,
            current_namespace: self.current_namespace@,
            current_project: self.current_project@,
        }
    }
}

pub open spec fn spec_or_empty(v: Option<Seq<u8>>) -> Seq<u8> {
    match v {
        Some(x) => x,
        None => Seq::empty(),
    }
}

/// The value a single setting resolves to: the override if present and
/// non-empty, else the table value if present, else empty.
pub open spec fn spec_resolve_setting(env_val: Option<Seq<u8>>, table_val: Option<Seq<u8>>) -> Seq<
    u8,
> {
    match env_val {
        Some(e) => if e.len() > 0 {
            e
        } else {
            spec_or_empty(table_val)
        },
        None => spec_or_empty(table_val),
    }
}

/// Resolve one setting from its two optional sources.
pub fn resolve_setting(env_val: Option<Vec<u8>>, table_val: Option<Vec<u8>>) -> (r: Vec<u8>)
    ensures
        r@ == spec_resolve_setting(view_opt(env_val), view_opt(table_val)),
{
    match env_val {
        Some(e) => if e.len() > 0 {
            e
        } else {
            match table_val {
                Some(t) => t,
                None => Vec::new(),
            }
        },
        None => match table_val {
            Some(t) => t,
            None => Vec::new(),
        },
    }
}

impl Config {
    /// The resolved service base URL.
    pub fn get_server_url(&self) -> (r: &Vec<u8>)
        ensures
            r@ == self@.server_url,
    {
        &self.server_url
    }

    /// The namespace used when a reference names none.
    pub fn get_current_namespace(&self) -> (r: &Vec<u8>)
        ensures
            r@ == self@.current_namespace,
    {
        &self.current_namespace
    }

    /// The project used when a reference names none.
    pub fn get_current_project(&self) -> (r: &Vec<u8>)
        ensures
            r@ == self@.current_project,
    {
        &self.current_project
    }

    /// Resolve the whole configuration from the two sources of each setting.
    pub fn resolve(
        env_server_url: Option<Vec<u8>>,
        table_server_url: Option<Vec<u8>>,
        env_namespace: Option<Vec<u8>>,
        table_namespace: Option<Vec<u8>>,
        env_project: Option<Vec<u8>>,
        table_project: Option<Vec<u8>>,
    ) -> (c: Config)
        ensures
            c@.server_url == spec_resolve_setting(
                view_opt(env_server_url),
                view_opt(table_server_url),
            ),
            c@.current_namespace == spec_resolve_setting(
                view_opt(env_namespace),
                view_opt(table_namespace),
            ),
            c@.current_project == spec_resolve_setting(
                view_opt(env_project),
                view_opt(table_project),
            ),
    {
        Config {
            server_url: resolve_setting(env_server_url, table_server_url),
            current_namespace: resolve_setting(env_namespace, table_namespace),
            current_project: resolve_setting(env_project, table_project),
        }
    }
}

} // verus!
