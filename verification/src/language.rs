//! Languages of the patch-notes site, and the addresses and labels by which
//! its patch-notes pages are found.
use vstd::prelude::*;
use vstd::string::*;

use crate::html::{attribute_values, select_attribute, selector_parses};

verus! {

/// The site's address.
pub const BASE_URL: &'static str = "https://www.leagueoflegends.com";

/// What the library needs to know of a language of the site: its code in
/// the site's paths, the label its patch-notes links carry, and the name of
/// the group of changes made to base stats.
#[derive(Debug, Clone, PartialEq, Eq)]
pub struct LanguageInfo {
    pub lang: String,
    pub patch_notes: String,
    pub base_stats: String,
}

/// The abstract value of a [`LanguageInfo`].
pub struct LanguageModel {
    pub lang: Seq<char>,
    pub patch_notes: Seq<char>,
    pub base_stats: Seq<char>,
}

impl View for LanguageInfo {
    type V = LanguageModel;

    open spec fn view(&self) -> LanguageModel {
        LanguageModel { lang: self.lang@, patch_notes: self.patch_notes@, base_stats: self.base_stats@ }
    }
}

/// The languages the library knows; any other code stands for American
/// English.
pub open spec fn language_of(code: Seq<char>) -> LanguageModel {
    if code == "de-de"@ {
        LanguageModel { lang: "de-de"@, patch_notes: "Patchnotes zu Patch"@, base_stats: "Basiswerte"@ }
    } else if code == "pt-br"@ {
        LanguageModel { lang: "pt-br"@, patch_notes: "Notas da Atualização"@, base_stats: "Atributos básicos"@ }
    } else {
        LanguageModel { lang: "en-us"@, patch_notes: "Patch Notes"@, base_stats: "Base Stats"@ }
    }
}

/// The language of the site for the code `lang` (American English for a
/// code the library does not know).
pub fn identify_language(lang: &str) -> (r: LanguageInfo)
    ensures
        r@ == language_of(lang@),
{
    let code = String::from_str(lang);
    if code == String::from_str("de-de") {
        LanguageInfo {
            lang: String::from_str("de-de"),
            patch_notes: String::from_str("Patchnotes zu Patch"),
            base_stats: String::from_str("Basiswerte"),
        }
    } else if code == String::from_str("pt-br") {
        LanguageInfo {
            lang: String::from_str("pt-br"),
            patch_notes: String::from_str("Notas da Atualização"),
            base_stats: String::from_str("Atributos básicos"),
        }
    } else {
        LanguageInfo {
            lang: String::from_str("en-us"),
            patch_notes: String::from_str("Patch Notes"),
            base_stats: String::from_str("Base Stats"),
        }
    }
}

/// Whether the patch-notes links of language `lang` carry a label of their
/// own rather than the English one.
pub open spec fn has_local_label(lang: Seq<char>) -> bool {
    lang == "de-de"@ || lang == "pt-br"@
}

/// The local label of the notes of patch `version` in language `lang`.
pub open spec fn local_label(lang: Seq<char>, version: Seq<char>) -> Seq<char> {
    language_of(lang).patch_notes + " "@ + version
}

/// `language` after it has been set up for the notes of patch `version`:
/// a language with a local label takes that label, with the version.
pub open spec fn localized(language: LanguageModel, version: Seq<char>) -> LanguageModel {
    if has_local_label(language.lang) {
        LanguageModel { patch_notes: local_label(language.lang, version), ..language }
    } else {
        language
    }
}

/// Sets `language` up for the notes of patch `version`: a language with a
/// local label (German, Brazilian Portuguese) takes that label, followed by
/// the version; any other language stays as it is.
pub fn localize(language: &mut LanguageInfo, version: &str)
    ensures
        final(language)@ == localized(old(language)@, version@),
{
    let code = language.lang.clone();
    if code == String::from_str("de-de") || code == String::from_str("pt-br") {
        let mut label = identify_language(code.as_str()).patch_notes;
        label.append(" ");
        label.append(version);
        language.patch_notes = label;
    }
}

/// The English label of the notes of patch `version`.
pub open spec fn english_label(version: Seq<char>) -> Seq<char> {
    "Patch "@ + version + " Notes"@
}

/// The label of the notes of patch `version` when they are looked up for a
/// patch: the local label for a language that has one, the English label
/// otherwise.
pub open spec fn label_for_patch(language: LanguageModel, version: Seq<char>) -> Seq<char> {
    if has_local_label(language.lang) {
        local_label(language.lang, version)
    } else {
        english_label(version)
    }
}

/// The label of the notes of patch `version` for `language` (already
/// localized) when they are looked up for a patch.
pub fn patch_label(language: &LanguageInfo, version: &str) -> (r: String)
    ensures
        r@ == label_for_patch(language@, version@),
{
    let code = language.lang.clone();
    if code == String::from_str("de-de") || code == String::from_str("pt-br") {
        let mut label = identify_language(code.as_str()).patch_notes;
        label.append(" ");
        label.append(version);
        label
    } else {
        let mut label = String::from_str("Patch ");
        label.append(version);
        label.append(" Notes");
        label
    }
}

/// The address of the page that lists the patch notes in language `lang`.
pub open spec fn index_url(lang: Seq<char>) -> Seq<char> {
    BASE_URL@ + "/"@ + lang + "/news/tags/patch-notes/"@
}

/// The address of the page that lists the patch notes in `language`.
pub fn patch_notes_index_url(language: &LanguageInfo) -> (r: String)
    ensures
        r@ == index_url(language@.lang),
{
    let mut url = String::from_str(BASE_URL);
    url.append("/");
    url.append(language.lang.as_str());
    url.append("/news/tags/patch-notes/");
    url
}

/// The selector of the links whose label contains `label`.
pub open spec fn link_selector(label: Seq<char>) -> Seq<char> {
    "a[aria-label*=\""@ + label + "\"]"@
}

/// The addresses that the present `hrefs` point to on the site, in order.
pub open spec fn site_links(hrefs: Seq<Option<Seq<char>>>) -> Seq<Seq<char>>
    decreases hrefs.len(),
{
    if hrefs.len() == 0 {
        Seq::empty()
    } else {
        let rest = site_links(hrefs.drop_last());
        match hrefs.last() {
            Some(href) => rest.push(BASE_URL@ + href),
            None => rest,
        }
    }
}

/// The links of an index page to the notes whose label contains `label`;
/// `None` when the label makes a selector that the HTML parser refuses.
pub open spec fn links_on_index(index_html: Seq<char>, label: Seq<char>) -> Option<Seq<Seq<char>>> {
    if selector_parses(link_selector(label)) {
        Some(site_links(attribute_values(index_html, link_selector(label), "href"@)))
    } else {
        None
    }
}

/// Turns the `href` values of links into addresses on the site, skipping
/// links without one.
pub fn links_from_hrefs(hrefs: &Vec<Option<String>>) -> (r: Vec<String>)
    ensures
        r.deep_view() == site_links(hrefs.deep_view()),
{
    let mut links: Vec<String> = Vec::new();
    let mut i: usize = 0;
    while i < hrefs.len()
        invariant
            i <= hrefs.len(),
            links.deep_view() == site_links(hrefs.deep_view().take(i as int)),
        decreases hrefs.len() - i,
    {
        assert(hrefs.deep_view().take(i + 1).drop_last() =~= hrefs.deep_view().take(i as int));
        match &hrefs[i] {
            Some(href) => {
                let ghost prev = links.deep_view();
                let mut link = String::from_str(BASE_URL);
                link.append(href.as_str());
                links.push(link);
                assert(links.deep_view() =~= prev.push(link@));
            },
            None => {},
        }
        i = i + 1;
    }
    assert(hrefs.deep_view().take(hrefs.len() as int) =~= hrefs.deep_view());
    links
}

/// Reads, from the page that lists the patch notes, the addresses of the
/// notes whose link label contains `label` (`a[aria-label*="label"]`), in
/// the order the HTML query gives them. `None` when the label makes a
/// selector that the HTML parser refuses.
pub fn patch_note_links(index_html: &str, label: &str) -> (r: Option<Vec<String>>)
    ensures
        r.deep_view() == links_on_index(index_html@, label@),
{
    let mut selector = String::from_str("a[aria-label*=\"");
    selector.append(label);
    selector.append("\"]");
    match select_attribute(index_html, selector.as_str(), "href") {
        Some(hrefs) => Some(links_from_hrefs(&hrefs)),
        None => None,
    }
}

} // verus!
