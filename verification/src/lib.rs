//! Verified core of a multi-tenant file vault: tenant registry with salted
//! password credentials, symmetric encryption at rest for asset bytes, a
//! per-tenant asset catalog, and time-boxed session tokens.

pub mod digest;
pub mod encryption;
pub mod file_utilities;
pub mod image_data;
pub mod jwt_token;
pub mod project_info;
pub mod strings;
pub mod system;
pub mod utility;
pub mod vault;

use vstd::prelude::*;

verus! {

/// A character the salt generator may produce: ASCII letters and digits.
pub open spec fn is_alphanumeric_char(c: char) -> bool {
    ('0' <= c && c <= '9') || ('A' <= c && c <= 'Z') || ('a' <= c && c <= 'z')
}

} // verus!
