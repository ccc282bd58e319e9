//! The language catalog: which files of the data directory become
//! languages, and the catalog built from their parsed contents.
//!
//! A file named `<code>.toml` contributes the language `<code>`; any
//! other entry is silently skipped. The caller hands the loader the
//! (name, text) pairs of the regular files it found; listing the
//! directory and reading the files is the caller's I/O.

use vstd::prelude::*;
use vstd::string::StrSliceExecFns;
use vstd::string::StringExecFns;
use crate::error::SiteError;
use crate::text::{ends_with, str_ends_with};
use crate::toml_data::{parse_toml, toml_error_string, toml_ok, toml_of, value_is_map};

verus! {

/// A regular file of the language data directory: its base name and
/// its text.
pub struct LangFile {
    pub name: String,
    pub contents: String,
}

/// One discovered language: its code and its parsed data.
pub struct LangEntry {
    pub code: String,
    pub data: toml::Value,
}

/// The ordered collection of discovered languages.
pub struct Catalog {
    pub entries: Vec<LangEntry>,
}

/// A file contributes a language exactly when its name is a nonempty
/// stem followed by the `.toml` extension.
pub open spec fn is_lang_file_name(name: Seq<char>) -> bool {
    name.len() > ".toml"@.len() && ends_with(name, ".toml"@)
}

/// The language code of a data file: its name with the extension
/// stripped.
pub open spec fn lang_code_of(name: Seq<char>) -> Seq<char>
    recommends
        is_lang_file_name(name),
{
    name.subrange(0, name.len() - ".toml"@.len())
}

/// The names of a list of files.
pub open spec fn file_names(files: Seq<LangFile>) -> Seq<Seq<char>> {
    files.map_values(|f: LangFile| f.name@)
}

/// The language codes that a directory listing yields: one code per
/// language data file, in listing order; every other file is skipped.
pub open spec fn catalog_codes_of(names: Seq<Seq<char>>) -> Seq<Seq<char>>
    decreases names.len(),
{
    if names.len() == 0 {
        Seq::empty()
    } else {
        let rest = catalog_codes_of(names.drop_last());
        if is_lang_file_name(names.last()) {
            rest.push(lang_code_of(names.last()))
        } else {
            rest
        }
    }
}

/// The parsed data that a directory listing yields: the parse of
/// each language data file's text, in listing order, matching
/// [`catalog_codes_of`] position by position.
pub open spec fn catalog_data_of(files: Seq<LangFile>) -> Seq<toml::Value>
    decreases files.len(),
{
    if files.len() == 0 {
        Seq::empty()
    } else {
        let rest = catalog_data_of(files.drop_last());
        if is_lang_file_name(files.last().name@) {
            rest.push(toml_of(files.last().contents@))
        } else {
            rest
        }
    }
}

/// Every language data file among `files` holds well-formed TOML.
pub open spec fn all_lang_files_parse(files: Seq<LangFile>) -> bool {
    forall|i: int|
        0 <= i < files.len() && is_lang_file_name(#[trigger] files[i].name@) ==> toml_ok(
            files[i].contents@,
        )
}

/// The code of `e` stems from a language data file among the first
/// `bound` of `files`.
pub open spec fn code_stems(e: LangEntry, files: Seq<LangFile>, bound: int) -> bool {
    exists|j: int|
        0 <= j < bound && is_lang_file_name(#[trigger] files[j].name@)
            && e.code@ == lang_code_of(files[j].name@)
}

/// Every entry code among `entries` stems from a language data file
/// among the first `bound` of `files`.
pub open spec fn codes_stem_from(entries: Seq<LangEntry>, files: Seq<LangFile>, bound: int) -> bool {
    forall|k: int| 0 <= k < entries.len() ==> code_stems(#[trigger] entries[k], files, bound)
}

/// A language data file is its code followed by `.toml`; so distinct
/// data files carry distinct codes.
pub proof fn lemma_lang_code_injective(a: Seq<char>, b: Seq<char>)
    requires
        is_lang_file_name(a),
        is_lang_file_name(b),
        lang_code_of(a) == lang_code_of(b),
    ensures
        a == b,
{
    assert(a =~= lang_code_of(a) + ".toml"@);
    assert(b =~= lang_code_of(b) + ".toml"@);
}

impl Catalog {
    /// The codes of the catalog, in entry order.
    pub open spec fn codes(self) -> Seq<Seq<char>> {
        self.entries@.map_values(|e: LangEntry| e.code@)
    }

    /// Catalog well-formedness: codes are unique and nonempty, as
    /// codes derived from distinct data-file stems always are.
    pub open spec fn wf(self) -> bool {
        &&& self.codes().no_duplicates()
        &&& forall|i: int|
            0 <= i < self.codes().len() ==> (#[trigger] self.codes()[i]).len() > 0
    }

    /// The code of every entry, in entry order.
    pub fn code_list(&self) -> (r: Vec<String>)
        ensures
            r.deep_view() == self.codes(),
    {
        let mut r: Vec<String> = Vec::new();
        let mut i: usize = 0;
        while i < self.entries.len()
            invariant
                i <= self.entries@.len(),
                r@.len() == i,
                forall|j: int| 0 <= j < i ==> r@[j]@ == #[trigger] self.codes()[j],
            decreases self.entries@.len() - i,
        {
            r.push(self.entries[i].code.clone());
            i += 1;
        }
        proof {
            assert(r.deep_view() =~= self.codes());
        }
        r
    }
}

/// Decide whether a directory entry's base name marks a language data
/// file, and derive the language code from it.
pub fn language_code_of(name: &str) -> (r: Option<String>)
    ensures
        match r {
            Some(code) => is_lang_file_name(name@) && code@ == lang_code_of(name@),
            None => !is_lang_file_name(name@),
        },
{
    proof {
        reveal_strlit(".toml");
    }
    let n = name.unicode_len();
    if n > 5 && str_ends_with(name, ".toml") {
        Some(String::from_str(name.substring_char(0, n - 5)))
    } else {
        None
    }
}

/// Build the catalog from the regular files of the data directory:
/// every language data file contributes its code and the parse of
/// its own text, in listing order; every other file is skipped; the
/// load succeeds exactly when every language data file holds
/// well-formed TOML, and fails with the code of a file that does not.
pub fn load_catalog(files: &Vec<LangFile>) -> (r: Result<Catalog, SiteError>)
    requires
        forall|i: int, j: int|
            0 <= i < j < files@.len() ==> files@[i].name@ != files@[j].name@,
    ensures
        r is Ok <==> all_lang_files_parse(files@),
        match r {
            Ok(c) => {
                &&& c.codes() == catalog_codes_of(file_names(files@))
                &&& c.entries@.map_values(|e: LangEntry| e.data) == catalog_data_of(files@)
                &&& forall|k: int|
                    0 <= k < c.entries@.len() ==> value_is_map(#[trigger] c.entries@[k].data)
                &&& c.wf()
            },
            Err(e) => e is LangParse && exists|i: int|
                0 <= i < files@.len() && is_lang_file_name(#[trigger] files@[i].name@)
                    && !toml_ok(files@[i].contents@)
                    && e->LangParse_code@ == lang_code_of(files@[i].name@),
        },
{
    broadcast use vstd::prelude::Seq::lemma_take_succ_push;
    broadcast use vstd::prelude::Seq::lemma_push_map_commute;
    broadcast use vstd::prelude::Seq::lemma_filter_push;

    let mut entries: Vec<LangEntry> = Vec::new();
    let mut i: usize = 0;
    while i < files.len()
        invariant
            i <= files@.len(),
            forall|p: int, q: int|
                0 <= p < q < files@.len() ==> files@[p].name@ != files@[q].name@,
            entries@.map_values(|e: LangEntry| e.code@) =~= catalog_codes_of(
                file_names(files@.take(i as int)),
            ),
            entries@.map_values(|e: LangEntry| e.data) =~= catalog_data_of(
                files@.take(i as int),
            ),
            codes_stem_from(entries@, files@, i as int),
            forall|k1: int, k2: int|
                0 <= k1 < k2 < entries@.len() ==> entries@[k1].code@ != entries@[k2].code@,
            forall|j: int|
                0 <= j < i && is_lang_file_name(#[trigger] files@[j].name@) ==> toml_ok(
                    files@[j].contents@,
                ),
            forall|k: int|
                0 <= k < entries@.len() ==> value_is_map(#[trigger] entries@[k].data),
        decreases files@.len() - i,
    {
        let ghost entries0 = entries@;
        let file = &files[i];
        match language_code_of(file.name.as_str()) {
            Some(code) => {
                match parse_toml(file.contents.as_str()) {
                    Ok(data) => {
                        proof {
                            let gi = i as int;
                            assert forall|k: int| 0 <= k < entries@.len() implies entries@[k].code@
                                != code@ by {
                                assert(code_stems(entries@[k], files@, gi));
                                let j = choose|j: int|
                                    0 <= j < gi && is_lang_file_name(#[trigger] files@[j].name@)
                                        && entries@[k].code@ == lang_code_of(files@[j].name@);
                                if entries@[k].code@ == code@ {
                                    lemma_lang_code_injective(files@[j].name@, files@[gi].name@);
                                }
                            }
                        }
                        entries.push(LangEntry { code, data });
                    },
                    Err(e) => {
                        proof {
                            assert(!toml_ok(files@[i as int].contents@));
                        }
                        let message = toml_error_string(&e);
                        return Err(SiteError::LangParse { code, message });
                    },
                }
            },
            None => {},
        }
        proof {
            let gi = i as int;
            let names0 = file_names(files@.take(gi));
            let names1 = file_names(files@.take(gi + 1));
            let nm = files@[gi].name@;
            assert(files@.take(gi + 1) =~= files@.take(gi).push(files@[gi]));
            assert(names1 =~= names0.push(nm));
            assert(names1.drop_last() =~= names0);
            assert(names1.last() == nm);
            assert(files@.take(gi + 1).drop_last() =~= files@.take(gi));
            assert(files@.take(gi + 1).last() == files@[gi]);
            if is_lang_file_name(nm) {
                assert(catalog_codes_of(names1) == catalog_codes_of(names0).push(
                    lang_code_of(nm),
                ));
                assert(catalog_data_of(files@.take(gi + 1)) == catalog_data_of(
                    files@.take(gi),
                ).push(toml_of(files@[gi].contents@)));
            } else {
                assert(catalog_codes_of(names1) == catalog_codes_of(names0));
                assert(catalog_data_of(files@.take(gi + 1)) == catalog_data_of(files@.take(gi)));
            }
            assert forall|k: int| 0 <= k < entries@.len() implies code_stems(
                #[trigger] entries@[k],
                files@,
                gi + 1,
            ) by {
                if k < entries0.len() {
                    assert(entries@[k] == entries0[k]);
                    assert(code_stems(entries0[k], files@, gi));
                    let j = choose|j: int|
                        0 <= j < gi && is_lang_file_name(#[trigger] files@[j].name@)
                            && entries0[k].code@ == lang_code_of(files@[j].name@);
                    assert(0 <= j < gi + 1 && is_lang_file_name(files@[j].name@)
                        && entries@[k].code@ == lang_code_of(files@[j].name@));
                } else {
                    assert(is_lang_file_name(files@[gi].name@) && entries@[k].code@
                        == lang_code_of(files@[gi].name@));
                }
            }
        }
        i += 1;
    }
    proof {
        assert(files@.take(files@.len() as int) =~= files@);
        assert(all_lang_files_parse(files@));
        assert forall|k: int| 0 <= k < entries@.len() implies (#[trigger] entries@[k].code@).len()
            > 0 by {
            assert(code_stems(entries@[k], files@, files@.len() as int));
            let j = choose|j: int|
                0 <= j < files@.len() && is_lang_file_name(#[trigger] files@[j].name@)
                    && entries@[k].code@ == lang_code_of(files@[j].name@);
            assert(files@[j].name@.len() > ".toml"@.len());
        }
    }
    Ok(Catalog { entries })
}

} // verus!
