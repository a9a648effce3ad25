//! Where the JSON schemas of each service live.

use vstd::prelude::*;

use crate::text::{push_str, string_of};

verus! {

/// The schema directory of `service` under the schema root `root`:
/// `root/schemas/service`.
pub fn schema_dir(root: &str, service: &str) -> (r: String)
    ensures
        r@ == root@ + "/schemas/"@ + service@,
{
    let mut v: Vec<char> = Vec::new();
    push_str(&mut v, root);
    push_str(&mut v, "/schemas/");
    push_str(&mut v, service);
    string_of(&v)
}

} // verus!
