use vstd::prelude::*;
use vstd::string::*;

use crate::text::{first_index_of, lemma_first_index_of};

verus! {

/// A declared MIME media type, reduced to the two parts this service reads:
/// the top-level type and the subtype. Parameters (anything after `;`) are
/// discarded. Parts are compared exactly; the canonical form is lower case.
pub struct MediaType {
    pub top: String,
    pub sub: String,
}

/// The category an upload falls in, which determines the storage
/// subdirectory and the response shape.
#[derive(Clone, Copy, Debug, PartialEq, Eq, Structural)]
pub enum UploadKind {
    Image,
    Audio,
    Generic,
}

/// How a declared content type decomposes into top-level type and subtype:
/// the characters before the first `/`, and those after it up to the first
/// `;` (or the end). Both parts must be non-empty and no `;` may precede the
/// `/`; anything else is unparseable.
pub open spec fn spec_parse_media_type(s: Seq<char>) -> Option<(Seq<char>, Seq<char>)> {
    match first_index_of(s, '/') {
        None => None,
        Some(i) => {
            let top = s.subrange(0, i);
            let rest = s.subrange(i + 1, s.len() as int);
            let sub = match first_index_of(rest, ';') {
                None => rest,
                Some(j) => rest.subrange(0, j),
            };
            if i == 0 || sub.len() == 0 || first_index_of(top, ';') is Some {
                None
            } else {
                Some((top, sub))
            }
        },
    }
}

/// Splits a declared content type into its top-level type and subtype,
/// or rejects it when it has no `top/sub` shape.
pub fn parse_media_type(s: &str) -> (r: Option<MediaType>)
    ensures
        match r {
            Some(mt) => spec_parse_media_type(s@) == Some((mt.top@, mt.sub@)),
            None => spec_parse_media_type(s@) is None,
        },
{
    let n = s.unicode_len();
    let slash = match crate::text::find_char(s, '/') {
        None => {
            return None;
        },
        Some(i) => i,
    };
    proof {
        lemma_first_index_of(s@, '/');
    }
    if slash == 0 {
        return None;
    }
    let top = s.substring_char(0, slash);
    if let Some(_) = crate::text::find_char(top, ';') {
        return None;
    }
    let rest = s.substring_char(slash + 1, n);
    let sub = match crate::text::find_char(rest, ';') {
        None => rest,
        Some(j) => {
            proof {
                lemma_first_index_of(rest@, ';');
            }
            rest.substring_char(0, j)
        },
    };
    if sub.unicode_len() == 0 {
        return None;
    }
    Some(MediaType { top: String::from_str(top), sub: String::from_str(sub) })
}

/// The upload kind a top-level type selects: `image/*` uploads are images,
/// `audio/*` uploads are audio, everything else is generic.
pub open spec fn spec_kind_of(top: Seq<char>) -> UploadKind {
    if top == "image"@ {
        UploadKind::Image
    } else if top == "audio"@ {
        UploadKind::Audio
    } else {
        UploadKind::Generic
    }
}

/// Classifies a media type by its top-level type.
pub fn kind_of(mt: &MediaType) -> (r: UploadKind)
    ensures
        r == spec_kind_of(mt.top@),
{
    if mt.top == String::from_str("image") {
        UploadKind::Image
    } else if mt.top == String::from_str("audio") {
        UploadKind::Audio
    } else {
        UploadKind::Generic
    }
}

/// The registry's most common file extension for the media type `top/sub`,
/// or `None` when the registry knows none. The value depends on the two
/// parts alone.
pub uninterp spec fn registered_ext(top: Seq<char>, sub: Seq<char>) -> Option<Seq<char>>;

/// Relies on rocket's `MediaType::extension`: the most common file extension
/// registered for the media type with these two parts, `None` when none is
/// registered. The lookup is a pure function of the two parts.
#[verifier::external_body]
fn media_type_extension(top: &str, sub: &str) -> (r: Option<String>)
    ensures
        match r {
            Some(e) => registered_ext(top@, sub@) == Some(e@),
            None => registered_ext(top@, sub@) is None,
        },
{
    rocket::http::MediaType::new(top.to_string(), sub.to_string())
        .extension()
        .map(|e| e.as_str().to_string())
}

/// The file extension an upload of type `top/sub` is stored under: the
/// registered extension when one is known; `m4a` for `audio/mp4`, which has
/// no registered extension; and the literal `unknown` for anything else
/// unregistered. An unregistered type is still accepted, never rejected.
pub open spec fn spec_extension_for(top: Seq<char>, sub: Seq<char>) -> Seq<char> {
    match registered_ext(top, sub) {
        Some(e) => e,
        None => if top == "audio"@ && sub == "mp4"@ {
            "m4a"@
        } else {
            "unknown"@
        },
    }
}

/// Resolves the file extension for a media type.
pub fn extension_for(mt: &MediaType) -> (r: String)
    ensures
        r@ == spec_extension_for(mt.top@, mt.sub@),
{
    match media_type_extension(mt.top.as_str(), mt.sub.as_str()) {
        Some(e) => e,
        None => {
            if mt.top == String::from_str("audio") && mt.sub == String::from_str("mp4") {
                String::from_str("m4a")
            } else {
                String::from_str("unknown")
            }
        },
    }
}

} // verus!
