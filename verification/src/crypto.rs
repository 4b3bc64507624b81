//! Random access and refresh tokens.
use vstd::prelude::*;

use crate::error::Error;
use crate::utils::{generate_token, hex_lower};

verus! {

/// A fresh access token: 16 random bytes as lower-case hexadecimal text.
pub fn generate_access_token() -> (r: Result<String, Error>)
    ensures
        match r {
            Ok(s) => exists|bytes: Seq<u8>| bytes.len() == 16 && s@ == hex_lower(bytes),
            Err(e) => e is RandomError,
        },
{
    generate_token::<16>()
}

/// A fresh refresh token: 32 random bytes as lower-case hexadecimal text.
pub fn generate_refresh_token() -> (r: Result<String, Error>)
    ensures
        match r {
            Ok(s) => exists|bytes: Seq<u8>| bytes.len() == 32 && s@ == hex_lower(bytes),
            Err(e) => e is RandomError,
        },
{
    generate_token::<32>()
}

} // verus!
