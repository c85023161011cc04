//! Typed errors. Every variant carries the human-readable detail.
use vstd::prelude::*;

verus! {

/// Error kinds of the whole library.
#[derive(Debug, Clone, PartialEq, Eq)]
pub enum DarbError {
    Config(String),
    Provider(String),
    Context(String),
    Tool(String),
    Permission(String),
    Storage(String),
    Git(String),
    Network(String),
    Internal(String),
}

/// Message prefix of each kind.
pub open spec fn error_prefix(e: DarbError) -> Seq<char> {
    match e {
        DarbError::Config(_) => "config error: "@,
        DarbError::Provider(_) => "provider error: "@,
        DarbError::Context(_) => "context error: "@,
        DarbError::Tool(_) => "tool error: "@,
        DarbError::Permission(_) => "permission error: "@,
        DarbError::Storage(_) => "storage error: "@,
        DarbError::Git(_) => "git error: "@,
        DarbError::Network(_) => "network error: "@,
        DarbError::Internal(_) => "internal error: "@,
    }
}

impl DarbError {
    /// The detail text carried by the error.
    pub open spec fn detail_view(&self) -> Seq<char> {
        match self {
            DarbError::Config(d) => d@,
            DarbError::Provider(d) => d@,
            DarbError::Context(d) => d@,
            DarbError::Tool(d) => d@,
            DarbError::Permission(d) => d@,
            DarbError::Storage(d) => d@,
            DarbError::Git(d) => d@,
            DarbError::Network(d) => d@,
            DarbError::Internal(d) => d@,
        }
    }

    /// The detail text carried by the error.
    pub fn detail(&self) -> (r: &String)
        ensures
            r@ == self.detail_view(),
    {
        match self {
            DarbError::Config(d) => d,
            DarbError::Provider(d) => d,
            DarbError::Context(d) => d,
            DarbError::Tool(d) => d,
            DarbError::Permission(d) => d,
            DarbError::Storage(d) => d,
            DarbError::Git(d) => d,
            DarbError::Network(d) => d,
            DarbError::Internal(d) => d,
        }
    }

    /// Display text: `"<kind> error: <detail>"`.
    pub fn message(&self) -> (r: String)
        ensures
            r@ == error_prefix(*self) + self.detail_view(),
    {
        let prefix = match self {
            DarbError::Config(_) => "config error: ",
            DarbError::Provider(_) => "provider error: ",
            DarbError::Context(_) => "context error: ",
            DarbError::Tool(_) => "tool error: ",
            DarbError::Permission(_) => "permission error: ",
            DarbError::Storage(_) => "storage error: ",
            DarbError::Git(_) => "git error: ",
            DarbError::Network(_) => "network error: ",
            DarbError::Internal(_) => "internal error: ",
        };
        crate::text::concat(prefix, self.detail().as_str())
    }
}

} // verus!
