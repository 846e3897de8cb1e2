//! Plain data shapes shared with the web-facing views: accounts,
//! catalog listings and search results. They carry values between the
//! core and the surrounding service; the core states nothing about
//! them beyond their shape.

use vstd::prelude::*;

verus! {

/// A registered user account.
#[derive(Debug)]
pub struct Account {
    pub id: String,
    pub email: String,
    pub name: String,
    pub password: Option<String>,
}

/// An author of a package.
#[derive(Debug)]
pub struct Author {
    pub id: String,
    pub name: String,
}

/// A catalog row of one package, as the web views read it.
#[derive(Debug)]
pub struct Crate {
    pub id: i64,
    pub name: String,
    pub description: String,
    pub documentation: String,
    pub repository: String,
}

/// Marker for routes that demand a signed-in session.
#[derive(Debug, Clone, Copy)]
pub struct RequireAuth;

/// A search request.
#[derive(Debug)]
pub struct SearchQueryRequest {
    pub q: String,
}

/// One search hit.
#[derive(Debug)]
pub struct SearchResult {
    pub name: String,
    pub version: String,
    pub description: String,
}

} // verus!
