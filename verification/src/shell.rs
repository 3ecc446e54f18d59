//! Which built shell asset a request names and what content type it is served with.
use vstd::prelude::*;

use crate::text::{str_concat, contains, contains_seq, split_char, split_spec, str_eq};

verus! {

/// The path inside the shell bundle that `/app/assets/{asset}` serves: none when the name
/// holds `..`.
pub fn shell_asset_path(asset: &str) -> (r: Option<String>)
    ensures
        contains_seq(asset@, ".."@) ==> r is None,
        !contains_seq(asset@, ".."@) ==> (r matches Some(p) && p@ == "assets/"@ + asset@),
{
    if contains(asset, "..") {
        return None;
    }
    Some(str_concat("assets/", asset))
}

/// The content type of an asset, by the text after its last dot.
pub open spec fn content_type_spec(asset: Seq<char>) -> Seq<char> {
    let ext = split_spec(asset, '.').last();
    if ext == "css"@ {
        "text/css; charset=utf-8"@
    } else if ext == "js"@ {
        "text/javascript; charset=utf-8"@
    } else if ext == "html"@ {
        "text/html; charset=utf-8"@
    } else if ext == "wasm"@ {
        "application/wasm"@
    } else {
        "application/octet-stream"@
    }
}

pub fn shell_asset_content_type(asset: &str) -> (r: &'static str)
    ensures
        r@ == content_type_spec(asset@),
{
    let parts = split_char(asset, '.');
    let last = &parts[parts.len() - 1];
    proof {
        assert(last@ == crate::text::views_of(parts@).last());
    }
    if str_eq(last.as_str(), "css") {
        "text/css; charset=utf-8"
    } else if str_eq(last.as_str(), "js") {
        "text/javascript; charset=utf-8"
    } else if str_eq(last.as_str(), "html") {
        "text/html; charset=utf-8"
    } else if str_eq(last.as_str(), "wasm") {
        "application/wasm"
    } else {
        "application/octet-stream"
    }
}

} // verus!
