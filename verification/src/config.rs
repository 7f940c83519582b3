//! Fixed settings of the application.

use vstd::prelude::*;

verus! {

/// The GitHub GraphQL endpoint that project fields are updated through.
pub const GITHUB_PROJECT_API_URL: &'static str = "https://api.github.com/graphql";

} // verus!
