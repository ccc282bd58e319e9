//! The trusted surface over the `tera` template engine.
//!
//! A `tera::Tera` is modelled as the set of its template names plus
//! the language code its `link` filter is currently bound to; a
//! `tera::Context` is modelled by its string-valued and its
//! string-list-valued entries. What a rendered template contains is
//! left unstated: it depends on the template text, and tera's builtin
//! functions include time- and randomness-dependent ones.

use vstd::prelude::*;
use crate::toml_data::{value_is_map, value_strs, value_str_lists};

verus! {

#[verifier::external_type_specification]
#[verifier::external_body]
pub struct ExTera(tera::Tera);

#[verifier::external_type_specification]
#[verifier::external_body]
pub struct ExContext(tera::Context);

#[verifier::external_type_specification]
#[verifier::external_body]
pub struct ExTeraError(tera::Error);

/// The names of the templates loaded in `t`.
pub uninterp spec fn tera_templates(t: tera::Tera) -> Set<Seq<char>>;

/// The language code that the `link` filter of `t` is bound to.
pub uninterp spec fn link_code(t: tera::Tera) -> Seq<char>;

/// The string-valued entries of a render context.
pub uninterp spec fn ctx_strs(c: tera::Context) -> Map<Seq<char>, Seq<char>>;

/// The string-list-valued entries of a render context.
pub uninterp spec fn ctx_str_lists(c: tera::Context) -> Map<Seq<char>, Seq<Seq<char>>>;

/// Relies on `tera::Context::from_serialize`: builds a context from
/// the fields of a map-like value — a function of the value alone —
/// succeeding exactly on map-like values. The context's entries are
/// the value's top-level fields, so its string and string-list
/// entries are exactly the value's string and string-list fields.
#[verifier::external_body]
pub(crate) fn context_from_value(v: &toml::Value) -> (r: Result<tera::Context, tera::Error>)
    ensures
        r is Ok <==> value_is_map(*v),
        r is Ok ==> ctx_strs(r->Ok_0) == value_strs(*v) && ctx_str_lists(r->Ok_0)
            == value_str_lists(*v),
{
    tera::Context::from_serialize(v)
}

/// Relies on `tera::Context::insert` with a string value: the entry
/// under `key` is replaced, every other entry is kept. Serializing a
/// plain string cannot fail, so the call cannot panic.
#[verifier::external_body]
pub(crate) fn context_insert_str(c: &mut tera::Context, key: &str, val: &str)
    ensures
        ctx_strs(*final(c)) == ctx_strs(*old(c)).insert(key@, val@),
        ctx_str_lists(*final(c)) == ctx_str_lists(*old(c)).remove(key@),
{
    c.insert(key, val);
}

/// Relies on `tera::Context::insert` with a list of strings: the
/// entry under `key` is replaced, every other entry is kept.
/// Serializing a vector of strings cannot fail, so the call cannot
/// panic.
#[verifier::external_body]
pub(crate) fn context_insert_str_list(c: &mut tera::Context, key: &str, vals: &Vec<String>)
    ensures
        ctx_str_lists(*final(c)) == ctx_str_lists(*old(c)).insert(key@, vals.deep_view()),
        ctx_strs(*final(c)) == ctx_strs(*old(c)).remove(key@),
{
    c.insert(key, vals);
}

/// Relies on `tera::Tera::register_filter`: replaces the filter
/// registered under the name `link`, touching nothing else. The
/// installed filter applies [`crate::links::rewrite_link`] for `code`
/// to a string argument and rejects any other argument.
#[verifier::external_body]
pub(crate) fn register_link_filter(t: &mut tera::Tera, code: &str)
    ensures
        tera_templates(*final(t)) == tera_templates(*old(t)),
        link_code(*final(t)) == code@,
{
    let code = code.to_string();
    t.register_filter(
        "link",
        move |path: &tera::Value, _args: &std::collections::HashMap<String, tera::Value>| {
            match path.as_str() {
                Some(p) => Ok(tera::Value::String(crate::links::rewrite_link(&code, p))),
                None => Err(tera::Error::msg("the link filter takes a string")),
            }
        },
    );
}

/// Relies on `tera::Tera::get_template_names`: yields the name of
/// every loaded template, each once, in no promised order.
#[verifier::external_body]
pub(crate) fn template_names(t: &tera::Tera) -> (r: Vec<String>)
    ensures
        r.deep_view().to_set() == tera_templates(*t),
        r.deep_view().no_duplicates(),
{
    t.get_template_names().map(|s| s.to_string()).collect()
}

/// Relies on `tera::Tera::render`: evaluates the named template under
/// the given context, `Err` on any evaluation failure. Nothing is
/// assumed about the rendered text.
#[verifier::external_body]
pub(crate) fn render_template(t: &tera::Tera, name: &str, c: &tera::Context) -> (r: Result<
    String,
    tera::Error,
>) {
    t.render(name, c)
}

/// Relies on the `Display` impl of `tera::Error` for a human-readable
/// account of a template failure.
#[verifier::external_body]
pub(crate) fn tera_error_string(e: &tera::Error) -> (r: String) {
    format!("{}", e)
}

} // verus!
