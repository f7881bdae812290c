//! Turning an identifier into a request URL and an output path.
//!
//! An identifier is either a bare image filename or a full URL. A bare
//! one gets the fixed CDN prefix prepended; one that already carries the
//! prefix is used unchanged. The output path is the part of the
//! identifier as given, before any prefixing, after its last `/`,
//! placed under the output folder.

use vstd::prelude::*;
use vstd::string::*;

use crate::strutil::contains_seq;
use crate::strutil::last_segment;
use crate::strutil::last_segment_of;
use crate::strutil::str_contains;

verus! {

/// The fixed CDN path prefix that bare identifiers receive.
pub open spec fn spec_cdn_prefix() -> Seq<char> {
    "https://i.pximg.net/img-original/img/"@
}

/// The CDN path prefix as a string.
pub fn cdn_prefix() -> (s: &'static str)
    ensures
        s@ == spec_cdn_prefix(),
{
    "https://i.pximg.net/img-original/img/"
}

/// The folder that all output files are written into.
pub fn output_folder() -> (s: &'static str)
    ensures
        s@ == "outputs"@,
{
    "outputs"
}

/// The URL that an identifier is fetched from: the identifier itself if
/// it already carries the CDN prefix, else the prefix followed by it.
pub open spec fn normalize_spec(id: Seq<char>) -> Seq<char> {
    if contains_seq(id, spec_cdn_prefix()) {
        id
    } else {
        spec_cdn_prefix() + id
    }
}

/// Builds the request URL for an identifier.
pub fn normalize_url(id: &str) -> (u: String)
    ensures
        u@ == normalize_spec(id@),
{
    if str_contains(id, cdn_prefix()) {
        id.to_owned()
    } else {
        String::from_str(cdn_prefix()).concat(id)
    }
}

/// Law: normalizing is idempotent, so the prefix is never prepended
/// twice; an identifier that already carries it passes unchanged.
pub proof fn lemma_normalize_idempotent(id: Seq<char>)
    ensures
        normalize_spec(normalize_spec(id)) == normalize_spec(id),
{
    if !contains_seq(id, spec_cdn_prefix()) {
        let n = spec_cdn_prefix() + id;
        assert(n.subrange(0, 0 + spec_cdn_prefix().len() as int) =~= spec_cdn_prefix());
        assert(contains_seq(n, spec_cdn_prefix()));
    }
}

/// The path an identifier's bytes are written to: the output folder,
/// a `/`, and the part of the identifier after its last `/`.
pub open spec fn output_path_spec(id: Seq<char>) -> Seq<char> {
    "outputs/"@ + last_segment(id)
}

/// Builds the output path for an identifier.
pub fn output_path(id: &str) -> (p: String)
    ensures
        p@ == output_path_spec(id@),
{
    let seg = last_segment_of(id);
    String::from_str("outputs/").concat(seg.as_str())
}

} // verus!
