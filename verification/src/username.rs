//! The user shown for a uid.
use vstd::prelude::*;

use crate::text::{nat_dec, u64_to_string};

verus! {

/// The user shown for `uid`: its account name where the password database
/// has one, else the uid in decimal.
pub fn user_label(uid: u32, name: Option<String>) -> (r: String)
    ensures
        match name {
            Some(n) => r@ == n@,
            None => r@ == nat_dec(uid as nat),
        },
{
    match name {
        Some(n) => n,
        None => u64_to_string(uid as u64),
    }
}

} // verus!
