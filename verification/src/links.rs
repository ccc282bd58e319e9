//! The link rewriter: turns a site-relative path into the absolute,
//! language-prefixed URL for one language.

use vstd::prelude::*;
use vstd::string::StrSliceExecFns;
use vstd::string::StringExecFns;

verus! {

/// `path` with a single leading '/' removed, if one is present.
pub open spec fn strip_leading_slash(path: Seq<char>) -> Seq<char> {
    if path.len() > 0 && path[0] == '/' {
        path.subrange(1, path.len() as int)
    } else {
        path
    }
}

/// The language-absolute form of a site-relative link:
/// `/` + code + `/` + path, where one leading separator of `path`
/// is stripped first (exactly once, not recursively).
pub open spec fn rewritten_link(code: Seq<char>, path: Seq<char>) -> Seq<char> {
    "/"@ + code + "/"@ + strip_leading_slash(path)
}

/// A leading separator is stripped exactly once, not recursively:
/// prefixing any path — even one that already begins with `/` — with
/// one more `/` yields the same link as the bare path.
pub proof fn lemma_leading_slash_stripped_once(code: Seq<char>, path: Seq<char>)
    ensures
        rewritten_link(code, (seq!['/'] + path)) == "/"@ + code + "/"@ + path,
{
    let prefixed = (seq!['/'] + path);
    assert(prefixed[0] == '/');
    assert(strip_leading_slash(prefixed) =~= path);
}

/// Rewrite the site-relative `path` into the absolute URL under the
/// language prefix `code`. The generated link always points at the
/// language-prefixed tree, whichever tree the calling page stands in.
pub fn rewrite_link(code: &str, path: &str) -> (r: String)
    ensures
        r@ == rewritten_link(code@, path@),
{
    let tail: &str = if path.unicode_len() > 0 && path.get_char(0) == '/' {
        path.substring_char(1, path.unicode_len())
    } else {
        path
    };
    let mut out = String::from_str("/");
    out.append(code);
    out.append("/");
    out.append(tail);
    out
}

} // verus!
