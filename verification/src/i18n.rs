//! The translation tables: one table of texts per locale, loaded from JSON
//! files named after their locale.

use vstd::prelude::*;

use crate::text::{has_suffix, str_equal, strip_suffix, trim_end_matches, trim_end_matches_seq};

verus! {

/// The texts of a list of (key, text) pairs, a later pair winning over an
/// earlier one with the same key.
pub open spec fn pairs_map(e: Seq<(String, String)>) -> Map<Seq<char>, Seq<char>>
    decreases e.len(),
{
    if e.len() == 0 {
        Map::empty()
    } else {
        pairs_map(e.drop_last()).insert(e.last().0@, e.last().1@)
    }
}

/// `l` is the text of one of the strings of `r`.
pub open spec fn lists_name(r: Seq<String>, l: Seq<char>) -> bool {
    exists|j: int| 0 <= j < r.len() && #[trigger] r[j]@ == l
}

/// `l` is the locale of one of the tables of `t` from index `lo` on.
pub open spec fn has_locale_from(t: Seq<LocaleTable>, lo: int, l: Seq<char>) -> bool {
    exists|k: int| lo <= k < t.len() && #[trigger] t[k].locale@ == l
}

/// The translations of one locale.
pub struct LocaleTable {
    pub locale: String,
    pub entries: Vec<(String, String)>,
}

/// The tables of a list of locale tables, a later table winning over an
/// earlier one for the same locale.
pub open spec fn tables_map(t: Seq<LocaleTable>) -> Map<Seq<char>, Map<Seq<char>, Seq<char>>>
    decreases t.len(),
{
    if t.len() == 0 {
        Map::empty()
    } else {
        tables_map(t.drop_last()).insert(t.last().locale@, pairs_map(t.last().entries@))
    }
}

/// The translations of every loaded locale: a map from locale to a map from
/// key to text.
pub struct I18nBackend {
    tables: Vec<LocaleTable>,
}

impl View for I18nBackend {
    type V = Map<Seq<char>, Map<Seq<char>, Seq<char>>>;

    closed spec fn view(&self) -> Self::V {
        tables_map(self.tables@)
    }
}

proof fn lemma_tables_map_dom(t: Seq<LocaleTable>, l: Seq<char>)
    ensures
        tables_map(t).dom().contains(l) <==> exists|k: int| 0 <= k < t.len() && #[trigger] t[k].locale@ == l,
    decreases t.len(),
{
    if t.len() > 0 {
        let u = t.drop_last();
        lemma_tables_map_dom(u, l);
        if tables_map(u).dom().contains(l) {
            let k = choose|k: int| 0 <= k < u.len() && #[trigger] u[k].locale@ == l;
            assert(t[k] == u[k]);
        }
        if exists|k: int| 0 <= k < t.len() && #[trigger] t[k].locale@ == l {
            let k = choose|k: int| 0 <= k < t.len() && #[trigger] t[k].locale@ == l;
            if k < t.len() - 1 {
                assert(u[k] == t[k]);
            }
        }
    }
}

impl I18nBackend {
    /// No translations yet.
    pub fn new() -> (r: I18nBackend)
        ensures
            r@ == Map::<Seq<char>, Map<Seq<char>, Seq<char>>>::empty(),
    {
        I18nBackend { tables: Vec::new() }
    }

    /// Sets the translations of a locale, replacing any it had.
    pub fn insert_locale(&mut self, locale: String, entries: Vec<(String, String)>)
        ensures
            final(self)@ == old(self)@.insert(locale@, pairs_map(entries@)),
    {
        let ghost before = self.tables@;
        self.tables.push(LocaleTable { locale, entries });
        assert(self.tables@.drop_last() =~= before);
    }

    /// The text of `key` in `locale`, if that locale has one.
    pub fn translate(&self, locale: &str, key: &str) -> (r: Option<&String>)
        ensures
            r matches Some(t) ==> self@.dom().contains(locale@) && self@[locale@].dom().contains(
                key@,
            ) && t@ == self@[locale@][key@],
            r is None ==> !(self@.dom().contains(locale@) && self@[locale@].dom().contains(key@)),
    {
        let t = &self.tables;
        let mut i: usize = t.len();
        assert(t@.take(i as int) =~= t@);
        while i > 0
            invariant
                i <= t@.len(),
                t@ == self.tables@,
                tables_map(t@).dom().contains(locale@) == tables_map(t@.take(i as int)).dom().contains(
                    locale@,
                ),
                tables_map(t@.take(i as int)).dom().contains(locale@) ==> tables_map(t@)[locale@]
                    == tables_map(t@.take(i as int))[locale@],
            decreases i,
        {
            proof {
                assert(t@.take(i as int).drop_last() =~= t@.take(i - 1));
                assert(t@.take(i as int).last() == t@[i - 1]);
            }
            if str_equal(t[i - 1].locale.as_str(), locale) {
                let es = &t[i - 1].entries;
                assert(tables_map(t@.take(i as int)).dom().contains(locale@));
                assert(tables_map(t@)[locale@] == pairs_map(es@));
                let mut j: usize = es.len();
                assert(es@.take(j as int) =~= es@);
                while j > 0
                    invariant
                        j <= es@.len(),
                        self@.dom().contains(locale@),
                        self@[locale@] == pairs_map(es@),
                        pairs_map(es@).dom().contains(key@) == pairs_map(es@.take(j as int)).dom().contains(
                            key@,
                        ),
                        pairs_map(es@.take(j as int)).dom().contains(key@) ==> pairs_map(es@)[key@]
                            == pairs_map(es@.take(j as int))[key@],
                    decreases j,
                {
                    proof {
                        assert(es@.take(j as int).drop_last() =~= es@.take(j - 1));
                        assert(es@.take(j as int).last() == es@[j - 1]);
                    }
                    if str_equal(es[j - 1].0.as_str(), key) {
                        assert(pairs_map(es@.take(j as int)).dom().contains(key@));
                        return Some(&es[j - 1].1);
                    }
                    j = j - 1;
                }
                return None;
            }
            i = i - 1;
        }
        None
    }

    /// The loaded locales, each once.
    pub fn available_locales(&self) -> (r: Vec<String>)
        ensures
            forall|l: Seq<char>| self@.dom().contains(l) <==> #[trigger] lists_name(r@, l),
            forall|a: int, b: int| 0 <= a < b < r@.len() ==> #[trigger] r@[a]@ != #[trigger] r@[b]@,
    {
        let t = &self.tables;
        let mut r: Vec<String> = Vec::new();
        let mut i: usize = t.len();
        while i > 0
            invariant
                i <= t@.len(),
                forall|l: Seq<char>| #[trigger] lists_name(r@, l) <==> has_locale_from(t@, i as int, l),
                forall|a: int, b: int| 0 <= a < b < r@.len() ==> #[trigger] r@[a]@ != #[trigger] r@[b]@,
            decreases i,
        {
            let name = &t[i - 1].locale;
            let mut seen = false;
            let mut j: usize = 0;
            while j < r.len()
                invariant
                    j <= r@.len(),
                    seen <==> exists|m: int| 0 <= m < j && #[trigger] r@[m]@ == name@,
                decreases r@.len() - j,
            {
                if str_equal(r[j].as_str(), name.as_str()) {
                    seen = true;
                }
                j = j + 1;
            }
            let ghost before = r@;
            if !seen {
                r.push(name.clone());
                proof {
                    assert forall|a: int, b: int| 0 <= a < b < r@.len() implies #[trigger] r@[a]@ != #[trigger] r@[b]@ by {
                        if b == r@.len() - 1 {
                            assert(r@[a] == before[a]);
                        } else {
                            assert(r@[a] == before[a] && r@[b] == before[b]);
                        }
                    }
                }
            }
            proof {
                assert forall|l: Seq<char>| #[trigger] lists_name(r@, l) <==> has_locale_from(t@, i - 1, l) by {
                    if lists_name(r@, l) {
                        let j = choose|j: int| 0 <= j < r@.len() && #[trigger] r@[j]@ == l;
                        if j < before.len() {
                            assert(r@[j] == before[j]);
                            assert(lists_name(before, l));
                            assert(has_locale_from(t@, i as int, l));
                        } else {
                            assert(t@[i - 1].locale@ == l);
                        }
                    }
                    if has_locale_from(t@, i - 1, l) {
                        let k = choose|k: int| i - 1 <= k < t@.len() && #[trigger] t@[k].locale@ == l;
                        if k == i - 1 {
                            if seen {
                                let m = choose|m: int| 0 <= m < before.len() && #[trigger] before[m]@ == name@;
                                assert(r@[m] == before[m]);
                                assert(lists_name(r@, l));
                            } else {
                                assert(r@[before.len() as int]@ == l);
                                assert(lists_name(r@, l));
                            }
                        } else {
                            assert(has_locale_from(t@, i as int, l));
                            assert(lists_name(before, l));
                            let jj = choose|jj: int| 0 <= jj < before.len() && #[trigger] before[jj]@ == l;
                            assert(r@[jj] == before[jj]);
                            assert(lists_name(r@, l));
                        }
                    }
                }
            }
            i = i - 1;
        }
        proof {
            assert forall|l: Seq<char>| self@.dom().contains(l) <==> #[trigger] lists_name(r@, l) by {
                lemma_tables_map_dom(self.tables@, l);
                assert(has_locale_from(t@, 0, l) <==> exists|k: int| 0 <= k < t@.len() && #[trigger] t@[k].locale@ == l);
            }
        }
        r
    }

    /// Loads the translations of one file: its locale is the file name without
    /// its `.json` ending, its texts the members of its JSON object. Returns
    /// `false`, and changes nothing, where the text is not a JSON object whose
    /// members (repeated keys included) are all strings.
    pub fn load_locale_file(&mut self, file_name: &str, text: &str) -> (r: bool)
        ensures
            r == translation_file_map(text@) is Some,
            r ==> final(self)@ == old(self)@.insert(
                locale_of_file_name(file_name@),
                translation_file_map(text@).unwrap(),
            ),
            !r ==> final(self)@ == old(self)@,
    {
        match parse_string_map(text) {
            Some(entries) => {
                let locale = locale_from_file_name(file_name);
                self.insert_locale(locale, entries);
                true
            },
            None => false,
        }
    }
}

/// What `serde_json::from_str` yields for a text read as a map from strings to
/// strings (an object whose members are all strings, a later member winning over
/// an earlier one with the same key); `None` where it reports an error.
pub uninterp spec fn spec_parse_string_map(text: Seq<char>) -> Option<Map<Seq<char>, Seq<char>>>;

/// The translations that a translation file's text holds.
pub open spec fn translation_file_map(text: Seq<char>) -> Option<Map<Seq<char>, Seq<char>>> {
    spec_parse_string_map(text)
}

/// Trusted: `serde_json::from_str::<BTreeMap<String, String>>`, which accepts
/// the texts that the same call with a `HashMap<String, String>` accepts and
/// keeps, for a repeated key, the last text; its entries come out as (key, text)
/// pairs, each key once. The contract names the resulting map
/// `spec_parse_string_map` of the text's characters.
#[verifier::external_body]
pub(crate) fn parse_string_map(text: &str) -> (r: Option<Vec<(String, String)>>)
    ensures
        r matches Some(es) ==> spec_parse_string_map(text@) == Some(pairs_map(es@)),
        r is None ==> spec_parse_string_map(text@) is None,
{
    serde_json::from_str::<std::collections::BTreeMap<String, String>>(text).ok().map(|m| m.into_iter().collect())
}

/// The locale that a translation file's name gives: the name without its
/// `.json` endings.
pub open spec fn locale_of_file_name(name: Seq<char>) -> Seq<char> {
    trim_end_matches_seq(name, ".json"@)
}

/// The locale that a translation file's name gives.
pub fn locale_from_file_name(name: &str) -> (r: String)
    ensures
        r@ == locale_of_file_name(name@),
{
    proof {
        reveal_strlit(".json");
    }
    trim_end_matches(name, ".json")
}

/// The locale of a `LANG` value: the value without its `.UTF-8` ending, when it
/// has one.
pub fn locale_from_lang(lang: &str) -> (r: Option<String>)
    ensures
        r matches Some(l) ==> has_suffix(lang@, ".UTF-8"@) && l@ == lang@.subrange(
            0,
            lang@.len() - ".UTF-8"@.len(),
        ),
        r is None ==> !has_suffix(lang@, ".UTF-8"@),
{
    strip_suffix(lang, ".UTF-8")
}

/// A locale's translations, once set, are what lookups give for it; setting
/// another locale leaves them as they were.
pub proof fn lemma_translations_after_insert(
    before: I18nBackend,
    after: I18nBackend,
    locale: Seq<char>,
    entries: Map<Seq<char>, Seq<char>>,
    other: Seq<char>,
)
    requires
        after@ == before@.insert(locale, entries),
    ensures
        after@.dom().contains(locale),
        after@[locale] == entries,
        other != locale ==> (after@.dom().contains(other) == before@.dom().contains(other)),
        other != locale && before@.dom().contains(other) ==> after@[other] == before@[other],
{
}

} // verus!
