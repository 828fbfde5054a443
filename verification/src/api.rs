//! The fixed replies of the read/write API surface. The HTTP and GraphQL
//! plumbing around them lives outside the verified core; the texts it
//! serves are pinned here.

use vstd::prelude::*;
use vstd::string::StringExecFns;

verus! {

/// The liveness probe's fixed reply.
pub fn hello() -> (r: &'static str)
    ensures
        r@ == "hello world!"@,
{
    "hello world!"
}

/// The fixed greeting of the query interface's hello field.
pub fn graphql_hello() -> (r: String)
    ensures
        r@ == "Hello GraphQL"@,
{
    String::from_str("Hello GraphQL")
}

} // verus!
