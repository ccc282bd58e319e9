//! Page-template naming and output-path derivation.
//!
//! Template names under the `pages/` namespace are rendered once per
//! language; their logical route is the name with the namespace prefix
//! and the `.html` suffix stripped. The output location of a page is
//! derived from (route, language code, root-or-prefixed pass): routes
//! whose final segment is literally `index` collapse into the parent
//! directory's `index.html`.

use vstd::prelude::*;
use vstd::string::StrSliceExecFns;
use vstd::string::StringExecFns;
use crate::text::{starts_with, ends_with, str_starts_with, str_ends_with, str_eq};

verus! {

/// Template names with this prefix are renderable pages; all other
/// templates are includable partials.
pub open spec fn is_page_name(name: Seq<char>) -> bool {
    starts_with(name, "pages/"@)
}

/// Whether `name` lies in the page namespace.
pub fn is_page_template(name: &str) -> (r: bool)
    ensures
        r == is_page_name(name@),
{
    str_starts_with(name, "pages/")
}

/// The logical route of a page template: the name with the `pages/`
/// namespace stripped, and a trailing `.html` stripped if present.
pub open spec fn page_route(name: Seq<char>) -> Seq<char>
    recommends
        is_page_name(name),
{
    let rest = name.subrange("pages/"@.len() as int, name.len() as int);
    if ends_with(rest, ".html"@) {
        rest.subrange(0, rest.len() - ".html"@.len())
    } else {
        rest
    }
}

/// Compute the logical route of the page template `name`.
pub fn route_of_page(name: &str) -> (r: String)
    requires
        is_page_name(name@),
    ensures
        r@ == page_route(name@),
{
    proof {
        reveal_strlit("pages/");
        reveal_strlit(".html");
    }
    let n = name.unicode_len();
    let rest = name.substring_char(6, n);
    if str_ends_with(rest, ".html") {
        let m = rest.unicode_len();
        String::from_str(rest.substring_char(0, m - 5))
    } else {
        String::from_str(rest)
    }
}

/// The directory segments a route contributes to its output path:
/// the route itself, except that a final segment literally `index`
/// is dropped — the page collapses to its parent directory's
/// `index.html`, keeping every leading segment.
pub open spec fn route_dir(route: Seq<char>) -> Seq<char> {
    if route == "index"@ {
        Seq::<char>::empty()
    } else if ends_with(route, "/index"@) {
        route.subrange(0, route.len() - "/index"@.len())
    } else {
        route
    }
}

/// The output directory of a page, relative to the output root: the
/// route's directory segments, under the language code unless the
/// pass renders at the root.
pub open spec fn output_rel_dir(route: Seq<char>, code: Seq<char>, at_root: bool) -> Seq<char> {
    let rdir = route_dir(route);
    if at_root {
        rdir
    } else if rdir.len() == 0 {
        code
    } else {
        code + "/"@ + rdir
    }
}

/// The output file of a page, relative to the output root: always a
/// final `index.html` inside the page's output directory.
pub open spec fn output_rel_path(route: Seq<char>, code: Seq<char>, at_root: bool) -> Seq<char> {
    let dir = output_rel_dir(route, code, at_root);
    if dir.len() == 0 {
        "index.html"@
    } else {
        dir + "/index.html"@
    }
}

/// A page template named `pages/index.html` has the logical route
/// `index`, which collapses: the root pass writes it as `index.html`
/// at the output root, a prefixed pass as `<code>/index.html` — the
/// trailing `index` segment never duplicates into `index/index.html`.
pub proof fn lemma_index_page_collapses(code: Seq<char>)
    requires
        code.len() > 0,
    ensures
        page_route("pages/index.html"@) == "index"@,
        output_rel_path("index"@, code, true) == "index.html"@,
        output_rel_path("index"@, code, false) == code + "/index.html"@,
{
    reveal_strlit("pages/index.html");
    reveal_strlit("pages/");
    reveal_strlit(".html");
    reveal_strlit("index");
    reveal_strlit("index.html");
    let name = "pages/index.html"@;
    let rest = name.subrange("pages/"@.len() as int, name.len() as int);
    assert(rest =~= "index.html"@);
    assert(rest.subrange(rest.len() - ".html"@.len(), rest.len() as int) =~= ".html"@);
    assert(ends_with(rest, ".html"@));
    assert(rest.subrange(0, rest.len() - ".html"@.len()) =~= "index"@);
    assert(route_dir("index"@) =~= Seq::<char>::empty());
}

/// A nested route whose final segment is `index` collapses to its
/// parent directory, keeping the leading segments: `pages/blog/index.html`
/// is written as `blog/index.html` at the root pass and as
/// `<code>/blog/index.html` under a language prefix.
pub proof fn lemma_nested_index_collapses_to_parent(code: Seq<char>)
    requires
        code.len() > 0,
    ensures
        page_route("pages/blog/index.html"@) == "blog/index"@,
        output_rel_path("blog/index"@, code, true) == "blog/index.html"@,
        output_rel_path("blog/index"@, code, false) == code + "/blog/index.html"@,
{
    reveal_strlit("pages/blog/index.html");
    reveal_strlit("pages/");
    reveal_strlit(".html");
    reveal_strlit("index");
    reveal_strlit("/index");
    reveal_strlit("blog/index");
    reveal_strlit("blog");
    reveal_strlit("blog/index.html");
    reveal_strlit("/index.html");
    reveal_strlit("/");
    reveal_strlit("/blog/index.html");
    let name = "pages/blog/index.html"@;
    let rest = name.subrange("pages/"@.len() as int, name.len() as int);
    assert(rest =~= "blog/index.html"@);
    assert(rest.subrange(rest.len() - ".html"@.len(), rest.len() as int) =~= ".html"@);
    assert(ends_with(rest, ".html"@));
    assert(rest.subrange(0, rest.len() - ".html"@.len()) =~= "blog/index"@);
    let route = "blog/index"@;
    assert(route != "index"@);
    assert(route.subrange(route.len() - "/index"@.len(), route.len() as int) =~= "/index"@);
    assert(ends_with(route, "/index"@));
    assert(route_dir(route) =~= "blog"@);
    assert("blog"@ + "/index.html"@ =~= "blog/index.html"@);
    assert(code + "/"@ + "blog"@ + "/index.html"@ =~= code + "/blog/index.html"@);
}

/// Compute the output location of a page: the directory to create and
/// the file to write, both relative to the output root.
pub fn output_location(route: &str, code: &str, at_root: bool) -> (r: (String, String))
    ensures
        r.0@ == output_rel_dir(route@, code@, at_root),
        r.1@ == output_rel_path(route@, code@, at_root),
{
    proof {
        reveal_strlit("index");
        reveal_strlit("/index");
        reveal_strlit("");
        assert(""@ =~= Seq::<char>::empty());
    }
    let m = route.unicode_len();
    let rdir: &str = if str_eq(route, "index") {
        ""
    } else if str_ends_with(route, "/index") {
        route.substring_char(0, m - 6)
    } else {
        route
    };
    proof {
        assert(rdir@ == route_dir(route@));
    }
    let mut dir = String::new();
    if at_root {
        dir.append(rdir);
    } else {
        dir.append(code);
        if rdir.unicode_len() > 0 {
            dir.append("/");
            dir.append(rdir);
        }
    }
    let path = if dir.unicode_len() == 0 {
        String::from_str("index.html")
    } else {
        let mut p = dir.clone();
        p.append("/index.html");
        p
    };
    (dir, path)
}

} // verus!
