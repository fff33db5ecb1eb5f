//! Serving the embedded web interface: which asset a request path names,
//! and when a missing asset falls back to the index page.

use vstd::prelude::*;

use crate::text::{chars_of, is_prefix, owned, str_starts_with};

verus! {

broadcast use vstd::string::group_string_axioms;

/// `s` without its leading slashes, as `str::trim_start_matches('/')`
/// gives it.
pub open spec fn without_leading_slashes(s: Seq<char>) -> Seq<char>
    decreases s.len(),
{
    if s.len() > 0 && s[0] == '/' {
        without_leading_slashes(s.drop_first())
    } else {
        s
    }
}

/// The asset a request path names: the path without leading slashes, or
/// "index.html" for the root.
pub open spec fn asset_for(path: Seq<char>) -> Seq<char> {
    if without_leading_slashes(path).len() == 0 {
        "index.html"@
    } else {
        without_leading_slashes(path)
    }
}

/// The asset a request path names (see `asset_for`).
pub fn static_asset_path(uri_path: &str) -> (a: String)
    ensures
        a@ == asset_for(uri_path@),
{
    let v = chars_of(uri_path);
    let mut i: usize = 0;
    assert(uri_path@.skip(0) =~= uri_path@);
    while i < v.len() && v[i] == '/'
        invariant
            v@ == uri_path@,
            i <= v@.len(),
            without_leading_slashes(uri_path@) == without_leading_slashes(uri_path@.skip(i as int)),
        decreases v@.len() - i,
    {
        assert(uri_path@.skip(i as int).drop_first() =~= uri_path@.skip(i + 1));
        i = i + 1;
    }
    let n = uri_path.unicode_len();
    if i == n {
        assert(uri_path@.skip(i as int).len() == 0);
        return owned("index.html");
    }
    let rest = uri_path.substring_char(i, n);
    assert(rest@ =~= uri_path@.skip(i as int));
    rest.to_owned()
}

/// Whether a missing asset is answered with the index page, so that the
/// interface can route the path itself: every path but those of the API.
pub fn falls_back_to_index(asset_path: &str) -> (b: bool)
    ensures
        b == !is_prefix("api/"@, asset_path@),
{
    !str_starts_with(asset_path, "api/")
}

} // verus!
