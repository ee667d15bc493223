//! A multi-tenant file-hosting core: authenticated users upload images and
//! audio, the service stores each file under an unguessable random name,
//! records an unguessable deletion ticket, and answers with a public URL and
//! a deletion URL; the original uploader can later delete the file by ticket
//! and numeric id. The upload and deletion lifecycle — identity resolution,
//! identifier generation, content-type-driven path resolution, the
//! insert-then-store upload and the delete-then-remove deletion with its
//! partial-failure handling — is specified and verified here; HTTP routing,
//! configuration loading and the raw I/O live outside the library.

pub mod errors;
pub mod files;
pub mod identity;
pub mod media;
pub mod names;
pub mod service;
pub mod store;
pub mod text;

use vstd::prelude::*;

verus! {

/// Number of characters in every generated identifier (filename stem or
/// deletion ticket).
pub const NAME_LEN: usize = 20;

/// A character that may appear in a generated identifier: an ASCII letter or
/// digit.
pub open spec fn is_name_char(c: char) -> bool {
    (97 <= c as u32 && c as u32 <= 122)  // 'a' ..= 'z'
    || (65 <= c as u32 && c as u32 <= 90)  // 'A' ..= 'Z'
    || (48 <= c as u32 && c as u32 <= 57)  // '0' ..= '9'
}

/// A well-formed generated identifier: exactly `NAME_LEN` alphanumeric
/// characters.
pub open spec fn is_generated_name(s: Seq<char>) -> bool {
    s.len() == NAME_LEN && forall|i: int| 0 <= i < s.len() ==> is_name_char(#[trigger] s[i])
}

} // verus!
