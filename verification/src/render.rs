//! The page renderer and the site driver.
//!
//! One render pass evaluates every page template for one language and
//! yields the file each result belongs in; the driver validates the
//! default language, renders it at the site root, then renders every
//! catalog language under its own prefix. The caller writes the
//! returned files to disk; nothing here touches the filesystem.

use vstd::prelude::*;
use vstd::string::StringExecFns;
use crate::catalog::Catalog;
use crate::error::SiteError;
use crate::paths::{
    is_page_name, page_route, output_rel_dir, output_rel_path, is_page_template, route_of_page,
    output_location,
};
use crate::tera_env::{
    tera_templates, link_code, ctx_strs, ctx_str_lists, context_from_value, context_insert_str,
    context_insert_str_list, register_link_filter, template_names, render_template,
    tera_error_string,
};
use crate::text::str_eq;
use crate::toml_data::{value_is_map, value_strs, value_str_lists};

verus! {

/// One file of the output tree: the page template it was rendered
/// from, the pass that produced it, and where it belongs relative to
/// the output root.
pub struct OutputFile {
    /// The page template this file was rendered from.
    pub template: String,
    /// The language the pass rendered.
    pub code: String,
    /// Whether the pass rendered at the site root.
    pub at_root: bool,
    /// The directory to create, relative to the output root.
    pub dir: String,
    /// The file to write, relative to the output root.
    pub path: String,
    /// The rendered text.
    pub contents: String,
}

/// `o` is a well-formed output of the pass `(code, at_root)` over
/// `templates`: it comes from a page template of the corpus and its
/// location follows the layout rule.
pub open spec fn output_ok(
    o: OutputFile,
    templates: Set<Seq<char>>,
    code: Seq<char>,
    at_root: bool,
) -> bool {
    &&& templates.contains(o.template@)
    &&& is_page_name(o.template@)
    &&& o.code@ == code
    &&& o.at_root == at_root
    &&& o.dir@ == output_rel_dir(page_route(o.template@), code, at_root)
    &&& o.path@ == output_rel_path(page_route(o.template@), code, at_root)
}

/// Some output of `v` was rendered from the page template `n`.
pub open spec fn page_covered(v: Seq<OutputFile>, n: Seq<char>) -> bool {
    exists|k: int| 0 <= k < v.len() && (#[trigger] v[k]).template@ == n
}

/// The outputs of one pass: every output is well-formed for
/// `(code, at_root)`, no page template is rendered twice, and every
/// page template of the corpus is rendered exactly once.
pub open spec fn pass_outputs_ok(
    v: Seq<OutputFile>,
    templates: Set<Seq<char>>,
    code: Seq<char>,
    at_root: bool,
) -> bool {
    &&& forall|k: int| 0 <= k < v.len() ==> output_ok(#[trigger] v[k], templates, code, at_root)
    &&& forall|k1: int, k2: int|
        0 <= k1 < k2 < v.len() ==> v[k1].template@ != v[k2].template@
    &&& forall|n: Seq<char>|
        #[trigger] templates.contains(n) && is_page_name(n) ==> page_covered(v, n)
}

/// The template `o` came from stands among the first `bound` of
/// `names`.
pub open spec fn from_processed(o: OutputFile, names: Seq<Seq<char>>, bound: int) -> bool {
    exists|j: int| 0 <= j < bound && o.template@ == #[trigger] names[j]
}

/// Every output of `v` came from one of the first `bound` names.
pub open spec fn outputs_from(v: Seq<OutputFile>, names: Seq<Seq<char>>, bound: int) -> bool {
    forall|k: int| 0 <= k < v.len() ==> from_processed(#[trigger] v[k], names, bound)
}

/// Every page name among the first `bound` of `names` is covered.
pub open spec fn processed_covered(
    v: Seq<OutputFile>,
    names: Seq<Seq<char>>,
    bound: int,
) -> bool {
    forall|j: int|
        0 <= j < bound && is_page_name(#[trigger] names[j]) ==> page_covered(v, names[j])
}

/// Build the evaluation context of one render pass: the top-level
/// fields of the language data, with `lang` set to the current code
/// and `available_langs` to every known code — whichever language
/// the pass renders — overriding same-named data fields. Succeeds
/// exactly when the data is map-like.
pub fn build_context(code: &str, data: &toml::Value, available: &Vec<String>) -> (r: Result<
    tera::Context,
    SiteError,
>)
    ensures
        r is Ok <==> value_is_map(*data),
        r is Ok ==> ctx_strs(r->Ok_0) == value_strs(*data).insert("lang"@, code@).remove(
            "available_langs"@,
        ) && ctx_str_lists(r->Ok_0) == value_str_lists(*data).remove("lang"@).insert(
            "available_langs"@,
            available.deep_view(),
        ),
        r is Ok ==> ctx_strs(r->Ok_0).contains_pair("lang"@, code@) && ctx_str_lists(
            r->Ok_0,
        ).contains_pair("available_langs"@, available.deep_view()),
        r is Err ==> r->Err_0 is ContextBuild && r->Err_0->ContextBuild_code@ == code@,
{
    match context_from_value(data) {
        Ok(mut ctx) => {
            context_insert_str(&mut ctx, "lang", code);
            context_insert_str_list(&mut ctx, "available_langs", available);
            proof {
                reveal_strlit("lang");
                reveal_strlit("available_langs");
                assert("lang"@.len() != "available_langs"@.len());
                assert("lang"@ != "available_langs"@);
            }
            Ok(ctx)
        },
        Err(e) => {
            let message = tera_error_string(&e);
            Err(SiteError::ContextBuild { code: String::from_str(code), message })
        },
    }
}

/// Render one language: bind the link rewriter to `code`, build the
/// pass's context, evaluate every page template and compute where
/// each result belongs. `at_root` places the pass at the output root
/// instead of under the language's own prefix. The code must be
/// nonempty, as a URL path segment is; an empty code would let a
/// prefixed pass's relative paths begin with a separator.
pub fn render_language(
    tera: &mut tera::Tera,
    code: &str,
    data: &toml::Value,
    available: &Vec<String>,
    at_root: bool,
) -> (r: Result<Vec<OutputFile>, SiteError>)
    requires
        code@.len() > 0,
    ensures
        tera_templates(*final(tera)) == tera_templates(*old(tera)),
        link_code(*final(tera)) == code@,
        r is Ok ==> pass_outputs_ok(r->Ok_0@, tera_templates(*old(tera)), code@, at_root),
        r is Err ==> (r->Err_0 is ContextBuild || r->Err_0 is Render),
        (r is Err && r->Err_0 is ContextBuild) <==> !value_is_map(*data),
        r is Err && r->Err_0 is ContextBuild ==> r->Err_0->ContextBuild_code@ == code@,
        r is Err && r->Err_0 is Render ==> r->Err_0->Render_code@ == code@ && tera_templates(
            *old(tera),
        ).contains(r->Err_0->Render_template@) && is_page_name(r->Err_0->Render_template@),
{
    register_link_filter(tera, code);
    let ctx = match build_context(code, data, available) {
        Ok(c) => c,
        Err(e) => {
            return Err(e);
        },
    };
    let ghost templates = tera_templates(*tera);
    let names = template_names(&*tera);
    let mut out: Vec<OutputFile> = Vec::new();
    let mut i: usize = 0;
    while i < names.len()
        invariant
            i <= names@.len(),
            names.deep_view().to_set() == templates,
            names.deep_view().no_duplicates(),
            templates == tera_templates(*tera),
            tera_templates(*tera) == tera_templates(*old(tera)),
            link_code(*tera) == code@,
            value_is_map(*data),
            forall|k: int|
                0 <= k < out@.len() ==> output_ok(#[trigger] out@[k], templates, code@, at_root),
            forall|k1: int, k2: int|
                0 <= k1 < k2 < out@.len() ==> out@[k1].template@ != out@[k2].template@,
            outputs_from(out@, names.deep_view(), i as int),
            processed_covered(out@, names.deep_view(), i as int),
        decreases names@.len() - i,
    {
        let ghost gi = i as int;
        let ghost out0 = out@;
        let name = &names[i];
        proof {
            assert(names.deep_view()[gi] == name@);
        }
        if is_page_template(name.as_str()) {
            let content = match render_template(&*tera, name.as_str(), &ctx) {
                Ok(s) => s,
                Err(e) => {
                    proof {
                        assert(names.deep_view().contains(name@)) by {
                            assert(names.deep_view()[gi] == name@);
                        }
                        assert(templates.contains(name@));
                    }
                    let message = tera_error_string(&e);
                    return Err(
                        SiteError::Render {
                            code: String::from_str(code),
                            template: name.clone(),
                            message,
                        },
                    );
                },
            };
            let route = route_of_page(name.as_str());
            let location = output_location(route.as_str(), code, at_root);
            out.push(
                OutputFile {
                    template: name.clone(),
                    code: String::from_str(code),
                    at_root,
                    dir: location.0,
                    path: location.1,
                    contents: content,
                },
            );
            proof {
                assert(names.deep_view().contains(name@)) by {
                    assert(names.deep_view()[gi] == name@);
                }
                assert(templates.contains(name@));
                assert(out@[out0.len() as int].template@ == name@);
                assert forall|k1: int, k2: int|
                    0 <= k1 < k2 < out@.len() implies out@[k1].template@
                    != out@[k2].template@ by {
                    if k2 == out0.len() {
                        assert(from_processed(out0[k1], names.deep_view(), gi));
                        let j = choose|j: int|
                            0 <= j < gi && out0[k1].template@ == #[trigger] names.deep_view()[j];
                        assert(names.deep_view()[j] != names.deep_view()[gi]);
                    }
                }
            }
        }
        proof {
            let processed = names.deep_view();
            assert forall|k: int| 0 <= k < out@.len() implies from_processed(
                #[trigger] out@[k],
                processed,
                gi + 1,
            ) by {
                if k < out0.len() {
                    assert(out@[k] == out0[k]);
                    assert(from_processed(out0[k], processed, gi));
                    let j = choose|j: int|
                        0 <= j < gi && out0[k].template@ == #[trigger] processed[j];
                    assert(0 <= j < gi + 1 && out@[k].template@ == processed[j]);
                } else {
                    assert(out@[k].template@ == processed[gi]);
                }
            }
            assert forall|j: int|
                0 <= j < gi + 1 && is_page_name(#[trigger] processed[j]) implies page_covered(
                out@,
                processed[j],
            ) by {
                if j < gi {
                    assert(page_covered(out0, processed[j]));
                    let k = choose|k: int|
                        0 <= k < out0.len() && (#[trigger] out0[k]).template@ == processed[j];
                    assert(out@[k] == out0[k]);
                    assert(0 <= k < out@.len() && out@[k].template@ == processed[j]);
                } else {
                    assert(out@[out0.len() as int].template@ == processed[gi]);
                }
            }
        }
        i += 1;
    }
    proof {
        assert forall|n: Seq<char>|
            #[trigger] templates.contains(n) && is_page_name(n) implies page_covered(out@, n) by {
            assert(names.deep_view().to_set().contains(n));
            assert(names.deep_view().contains(n));
            let j = choose|j: int|
                0 <= j < names.deep_view().len() && #[trigger] names.deep_view()[j] == n;
            assert(is_page_name(names.deep_view()[j]));
            assert(page_covered(out@, names.deep_view()[j]));
        }
    }
    Ok(out)
}

/// `o` is well-formed for its own pass parameters, and its pass is
/// one the driver runs: the root pass of the default language, or a
/// prefixed pass of a catalog language.
pub open spec fn site_output_ok(
    o: OutputFile,
    templates: Set<Seq<char>>,
    codes: Seq<Seq<char>>,
    default_lang: Seq<char>,
) -> bool {
    &&& output_ok(o, templates, o.code@, o.at_root)
    &&& (o.at_root ==> o.code@ == default_lang)
    &&& (!o.at_root ==> codes.contains(o.code@))
}

/// Some output of `v` renders page `n` at the site root.
pub open spec fn root_covered(v: Seq<OutputFile>, n: Seq<char>) -> bool {
    exists|k: int| 0 <= k < v.len() && (#[trigger] v[k]).template@ == n && v[k].at_root
}

/// Some output of `v` renders page `n` under the prefix of
/// language `c`.
pub open spec fn lang_covered(v: Seq<OutputFile>, n: Seq<char>, c: Seq<char>) -> bool {
    exists|k: int|
        0 <= k < v.len() && (#[trigger] v[k]).template@ == n && !v[k].at_root && v[k].code@ == c
}

/// Every page template of the corpus is rendered under the prefix of
/// language `c`.
pub open spec fn lang_pass_covered(
    v: Seq<OutputFile>,
    templates: Set<Seq<char>>,
    c: Seq<char>,
) -> bool {
    forall|n: Seq<char>|
        #[trigger] templates.contains(n) && is_page_name(n) ==> lang_covered(v, n, c)
}

/// The prefixed passes of the first `bound` codes are all complete.
pub open spec fn langs_covered(
    v: Seq<OutputFile>,
    templates: Set<Seq<char>>,
    codes: Seq<Seq<char>>,
    bound: int,
) -> bool {
    forall|j: int| 0 <= j < bound ==> lang_pass_covered(v, templates, #[trigger] codes[j])
}

/// A prefixed output's code stands among the first `bound` codes.
pub open spec fn pass_code_from(o: OutputFile, codes: Seq<Seq<char>>, bound: int) -> bool {
    o.at_root || exists|j: int| 0 <= j < bound && o.code@ == #[trigger] codes[j]
}

/// Every output of `v` belongs to a pass run so far.
pub open spec fn outputs_codes_from(v: Seq<OutputFile>, codes: Seq<Seq<char>>, bound: int) -> bool {
    forall|k: int| 0 <= k < v.len() ==> pass_code_from(#[trigger] v[k], codes, bound)
}

/// No two outputs of `v` belong to the same (template, language,
/// pass kind): each page is rendered exactly once per pass.
pub open spec fn outputs_distinct(v: Seq<OutputFile>) -> bool {
    forall|k1: int, k2: int|
        #![trigger v[k1], v[k2]]
        0 <= k1 < k2 < v.len() ==> !(v[k1].template@ == v[k2].template@ && v[k1].code@
            == v[k2].code@ && v[k1].at_root == v[k2].at_root)
}

/// The complete output of a site build: every output well-formed and
/// from a pass the driver runs, no duplicates, every page rendered at
/// the root for the default language and once under every catalog
/// language's prefix.
pub open spec fn site_outputs_ok(
    v: Seq<OutputFile>,
    templates: Set<Seq<char>>,
    codes: Seq<Seq<char>>,
    default_lang: Seq<char>,
) -> bool {
    &&& forall|k: int|
        0 <= k < v.len() ==> site_output_ok(#[trigger] v[k], templates, codes, default_lang)
    &&& outputs_distinct(v)
    &&& forall|n: Seq<char>|
        #[trigger] templates.contains(n) && is_page_name(n) ==> root_covered(v, n)
    &&& langs_covered(v, templates, codes, codes.len() as int)
}

/// Find the catalog entry of the default language.
fn find_default(catalog: &Catalog, default_lang: &str) -> (r: Option<usize>)
    ensures
        match r {
            Some(di) => di < catalog.entries@.len() && catalog.codes()[di as int]
                == default_lang@,
            None => !catalog.codes().contains(default_lang@),
        },
{
    let mut di: usize = 0;
    while di < catalog.entries.len()
        invariant
            di <= catalog.entries@.len(),
            forall|j: int| 0 <= j < di ==> #[trigger] catalog.codes()[j] != default_lang@,
        decreases catalog.entries@.len() - di,
    {
        if str_eq(catalog.entries[di].code.as_str(), default_lang) {
            return Some(di);
        }
        di += 1;
    }
    proof {
        if catalog.codes().contains(default_lang@) {
            let j = choose|j: int|
                0 <= j < catalog.codes().len() && catalog.codes()[j] == default_lang@;
            assert(false);
        }
    }
    None
}

/// Run the whole build: validate that the default language is in the
/// catalog, render it at the site root, then render every catalog
/// language (the default again included) under its own prefix. No
/// file is touched: the outputs say what to write where, and nothing
/// is returned unless validation and every render pass succeeded.
pub fn build_site(tera: &mut tera::Tera, catalog: &Catalog, default_lang: &str) -> (r: Result<
    Vec<OutputFile>,
    SiteError,
>)
    requires
        catalog.wf(),
    ensures
        tera_templates(*final(tera)) == tera_templates(*old(tera)),
        (r is Err && r->Err_0 is DefaultLangMissing) <==> !catalog.codes().contains(
            default_lang@,
        ),
        r is Err && r->Err_0 is DefaultLangMissing ==> r->Err_0->DefaultLangMissing_code@
            == default_lang@,
        r is Err ==> !(r->Err_0 is LangParse),
        r is Err && r->Err_0 is Render ==> catalog.codes().contains(r->Err_0->Render_code@)
            && tera_templates(*old(tera)).contains(r->Err_0->Render_template@) && is_page_name(
            r->Err_0->Render_template@,
        ),
        r is Err && r->Err_0 is ContextBuild ==> exists|k: int|
            0 <= k < catalog.entries@.len() && !value_is_map(#[trigger] catalog.entries@[k].data)
                && r->Err_0->ContextBuild_code@ == catalog.codes()[k],
        r is Ok ==> site_outputs_ok(
            r->Ok_0@,
            tera_templates(*old(tera)),
            catalog.codes(),
            default_lang@,
        ),
{
    let di = match find_default(catalog, default_lang) {
        Some(di) => di,
        None => {
            return Err(SiteError::DefaultLangMissing { code: String::from_str(default_lang) });
        },
    };
    let codes = catalog.code_list();
    let ghost templates = tera_templates(*tera);
    let default_entry = &catalog.entries[di];
    proof {
        assert(catalog.codes()[di as int].len() > 0);
    }
    let mut outputs = match render_language(tera, default_lang, &default_entry.data, &codes, true) {
        Ok(v) => v,
        Err(e) => {
            proof {
                if e is ContextBuild {
                    assert(!value_is_map(catalog.entries@[di as int].data));
                    assert(catalog.codes()[di as int] == default_lang@);
                }
                if e is Render {
                    assert(catalog.codes().contains(default_lang@));
                }
            }
            return Err(e);
        },
    };
    proof {
        assert forall|k: int| 0 <= k < outputs@.len() implies site_output_ok(
            #[trigger] outputs@[k],
            templates,
            catalog.codes(),
            default_lang@,
        ) by {
            assert(output_ok(outputs@[k], templates, default_lang@, true));
        }
        assert forall|n: Seq<char>|
            #[trigger] templates.contains(n) && is_page_name(n) implies root_covered(
            outputs@,
            n,
        ) by {
            assert(page_covered(outputs@, n));
            let k = choose|k: int|
                0 <= k < outputs@.len() && (#[trigger] outputs@[k]).template@ == n;
            assert(outputs@[k].at_root);
        }
        assert(outputs_codes_from(outputs@, catalog.codes(), 0));
        assert(langs_covered(outputs@, templates, catalog.codes(), 0));
    }
    let mut ei: usize = 0;
    while ei < catalog.entries.len()
        invariant
            ei <= catalog.entries@.len(),
            catalog.wf(),
            codes.deep_view() == catalog.codes(),
            tera_templates(*tera) == tera_templates(*old(tera)),
            templates == tera_templates(*tera),
            catalog.codes().contains(default_lang@),
            forall|k: int|
                0 <= k < outputs@.len() ==> site_output_ok(
                    #[trigger] outputs@[k],
                    templates,
                    catalog.codes(),
                    default_lang@,
                ),
            outputs_distinct(outputs@),
            forall|n: Seq<char>|
                #[trigger] templates.contains(n) && is_page_name(n) ==> root_covered(outputs@, n),
            outputs_codes_from(outputs@, catalog.codes(), ei as int),
            langs_covered(outputs@, templates, catalog.codes(), ei as int),
        decreases catalog.entries@.len() - ei,
    {
        let ghost gi = ei as int;
        let entry = &catalog.entries[ei];
        let ghost c = entry.code@;
        proof {
            assert(catalog.codes()[gi] == c);
        }
        proof {
            assert(c.len() > 0);
        }
        let mut more = match render_language(tera, entry.code.as_str(), &entry.data, &codes, false)
        {
            Ok(v) => v,
            Err(e) => {
                proof {
                    if e is ContextBuild {
                        assert(!value_is_map(catalog.entries@[gi].data));
                        assert(e->ContextBuild_code@ == catalog.codes()[gi]);
                    }
                    if e is Render {
                        assert(catalog.codes().contains(c)) by {
                            assert(catalog.codes()[gi] == c);
                        }
                    }
                }
                return Err(e);
            },
        };
        let ghost outputs0 = outputs@;
        let ghost more0 = more@;
        outputs.append(&mut more);
        proof {
            assert(outputs@ == outputs0 + more0);
            assert(pass_outputs_ok(more0, templates, c, false));
            assert forall|k: int| 0 <= k < outputs@.len() implies site_output_ok(
                #[trigger] outputs@[k],
                templates,
                catalog.codes(),
                default_lang@,
            ) by {
                if k < outputs0.len() {
                    assert(outputs@[k] == outputs0[k]);
                    assert(site_output_ok(outputs0[k], templates, catalog.codes(), default_lang@));
                } else {
                    let k2 = k - outputs0.len();
                    assert(outputs@[k] == more0[k2]);
                    assert(output_ok(more0[k2], templates, c, false));
                    assert(catalog.codes().contains(c)) by {
                        assert(catalog.codes()[gi] == c);
                    }
                }
            }
            assert forall|k1: int, k2: int|
                #![trigger outputs@[k1], outputs@[k2]]
                0 <= k1 < k2 < outputs@.len() implies !(outputs@[k1].template@
                == outputs@[k2].template@ && outputs@[k1].code@ == outputs@[k2].code@
                && outputs@[k1].at_root == outputs@[k2].at_root) by {
                if k2 < outputs0.len() {
                    assert(outputs@[k1] == outputs0[k1] && outputs@[k2] == outputs0[k2]);
                } else if k1 >= outputs0.len() {
                    assert(outputs@[k1] == more0[k1 - outputs0.len()]);
                    assert(outputs@[k2] == more0[k2 - outputs0.len()]);
                } else {
                    assert(outputs@[k1] == outputs0[k1]);
                    assert(outputs@[k2] == more0[k2 - outputs0.len()]);
                    assert(output_ok(more0[k2 - outputs0.len()], templates, c, false));
                    if !outputs0[k1].at_root && outputs0[k1].code@ == c {
                        assert(pass_code_from(outputs0[k1], catalog.codes(), gi));
                        let j = choose|j: int|
                            0 <= j < gi && outputs0[k1].code@ == #[trigger] catalog.codes()[j];
                        assert(catalog.codes()[j] != catalog.codes()[gi]);
                        assert(false);
                    }
                }
            }
            assert forall|n: Seq<char>|
                #[trigger] templates.contains(n) && is_page_name(n) implies root_covered(
                outputs@,
                n,
            ) by {
                assert(root_covered(outputs0, n));
                let k = choose|k: int|
                    0 <= k < outputs0.len() && (#[trigger] outputs0[k]).template@ == n
                        && outputs0[k].at_root;
                assert(outputs@[k] == outputs0[k]);
            }
            assert forall|k: int| 0 <= k < outputs@.len() implies pass_code_from(
                #[trigger] outputs@[k],
                catalog.codes(),
                gi + 1,
            ) by {
                if k < outputs0.len() {
                    assert(outputs@[k] == outputs0[k]);
                    assert(pass_code_from(outputs0[k], catalog.codes(), gi));
                    if !outputs0[k].at_root {
                        let j = choose|j: int|
                            0 <= j < gi && outputs0[k].code@ == #[trigger] catalog.codes()[j];
                        assert(0 <= j < gi + 1 && outputs@[k].code@ == catalog.codes()[j]);
                    }
                } else {
                    assert(outputs@[k] == more0[k - outputs0.len()]);
                    assert(output_ok(more0[k - outputs0.len()], templates, c, false));
                    assert(outputs@[k].code@ == catalog.codes()[gi]);
                }
            }
            assert forall|j: int| 0 <= j < gi + 1 implies lang_pass_covered(
                outputs@,
                templates,
                #[trigger] catalog.codes()[j],
            ) by {
                if j < gi {
                    assert(lang_pass_covered(outputs0, templates, catalog.codes()[j]));
                    assert forall|n: Seq<char>|
                        #[trigger] templates.contains(n) && is_page_name(n) implies lang_covered(
                        outputs@,
                        n,
                        catalog.codes()[j],
                    ) by {
                        assert(lang_covered(outputs0, n, catalog.codes()[j]));
                        let k = choose|k: int|
                            0 <= k < outputs0.len() && (#[trigger] outputs0[k]).template@ == n
                                && !outputs0[k].at_root && outputs0[k].code@
                                == catalog.codes()[j];
                        assert(outputs@[k] == outputs0[k]);
                    }
                } else {
                    assert forall|n: Seq<char>|
                        #[trigger] templates.contains(n) && is_page_name(n) implies lang_covered(
                        outputs@,
                        n,
                        catalog.codes()[j],
                    ) by {
                        assert(page_covered(more0, n));
                        let k = choose|k: int|
                            0 <= k < more0.len() && (#[trigger] more0[k]).template@ == n;
                        assert(output_ok(more0[k], templates, c, false));
                        assert(outputs@[outputs0.len() + k] == more0[k]);
                        assert(outputs@[outputs0.len() + k].template@ == n);
                    }
                }
            }
        }
        ei += 1;
    }
    proof {
        assert(langs_covered(
            outputs@,
            templates,
            catalog.codes(),
            catalog.codes().len() as int,
        ));
    }
    Ok(outputs)
}

} // verus!
