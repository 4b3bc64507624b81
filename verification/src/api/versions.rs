//! `/api/v1/versions` Returns info about api versions
use vstd::prelude::*;
use vstd::string::*;

verus! {

/// The answer to `GET /api/versions`.
pub struct Response {
    pub unstable_features: UnstableFeatures,
    pub versions: Vec<String>,
}

/// The unstable features the server offers: none.
pub struct UnstableFeatures;

/// `GET /api/versions` Returns info about api versions: no unstable features, and
/// version "1".
pub fn get() -> (r: Response)
    ensures
        r.versions@.len() == 1,
        r.versions@[0]@ == "1"@,
{
    let response = Response {
        unstable_features: UnstableFeatures,
        versions: vec![String::from_str("1")],
    };
    response
}

} // verus!
