//! Champions: their image URLs, the list read from the champions page, and
//! lookup by name.
use vstd::prelude::*;
use vstd::string::*;

use crate::html::{attribute_values, select_attribute, selector_parses};
use crate::text::{
    alphanumerics, clean_champion_name, clean_champion_name_for_image, lowercase, name_key,
    str_to_lowercase, trim, trim_str,
};

verus! {

/// A champion as listed on the champions page, with two candidate URLs of
/// its portrait.
#[derive(Debug, Clone, PartialEq, Eq)]
pub struct Champion {
    pub name: String,
    pub first_image_url: String,
    pub second_image_url: String,
}

/// The abstract value of a [`Champion`].
pub struct ChampionModel {
    pub name: Seq<char>,
    pub first_image_url: Seq<char>,
    pub second_image_url: Seq<char>,
}

impl View for Champion {
    type V = ChampionModel;

    open spec fn view(&self) -> ChampionModel {
        ChampionModel {
            name: self.name@,
            first_image_url: self.first_image_url@,
            second_image_url: self.second_image_url@,
        }
    }
}

impl DeepView for Champion {
    type V = ChampionModel;

    open spec fn deep_view(&self) -> ChampionModel {
        self@
    }
}

/// Two renderings of a champion's name (or of a URL built from it): `lower`
/// from the key of `clean_champion_name`, `upper` from the alphanumerics kept
/// by `clean_champion_name_for_image`.
#[derive(Debug, Clone, PartialEq, Eq)]
pub struct ChampionNames {
    pub lower: String,
    pub upper: String,
}

/// The abstract value of a [`ChampionNames`].
pub struct ChampionNamesModel {
    pub lower: Seq<char>,
    pub upper: Seq<char>,
}

impl View for ChampionNames {
    type V = ChampionNamesModel;

    open spec fn view(&self) -> ChampionNamesModel {
        ChampionNamesModel { lower: self.lower@, upper: self.upper@ }
    }
}

impl Default for ChampionNames {
    fn default() -> (r: Self)
        ensures
            r.lower@ == Seq::<char>::empty(),
            r.upper@ == Seq::<char>::empty(),
    {
        ChampionNames { lower: String::new(), upper: String::new() }
    }
}

/// Where the image service keeps champion portraits.
pub const IMAGE_URL_PREFIX: &'static str = "https://am-a.akamaihd.net/image?f=https://ddragon.leagueoflegends.com/cdn/15.18.1/img/champion/";

/// The selector of the champion cards on the champions page.
pub const CHAMPION_CARD_SELECTOR: &'static str = "a[role=\"button\"][aria-label]";

/// The URL of the portrait whose key is `key`.
pub open spec fn image_url(key: Seq<char>) -> Seq<char> {
    IMAGE_URL_PREFIX@ + key + ".png"@
}

/// The two keys of a champion's name.
pub open spec fn names_of(name: Seq<char>) -> ChampionNamesModel {
    ChampionNamesModel { lower: name_key(name, false), upper: alphanumerics(name) }
}

/// The two portrait URLs of a champion.
pub open spec fn image_urls_of(name: Seq<char>) -> ChampionNamesModel {
    ChampionNamesModel {
        lower: image_url(name_key(name, false)),
        upper: image_url(alphanumerics(name)),
    }
}

/// The two keys of a champion's name: `lower` as `clean_champion_name` gives
/// it, `upper` as `clean_champion_name_for_image` gives it.
pub fn champion_names(name: &str) -> (r: ChampionNames)
    ensures
        r@ == names_of(name@),
{
    ChampionNames { lower: clean_champion_name(name), upper: clean_champion_name_for_image(name) }
}

/// The portrait URL for `key`.
fn portrait_url(key: &str) -> (r: String)
    ensures
        r@ == image_url(key@),
{
    let mut url = String::from_str(IMAGE_URL_PREFIX);
    url.append(key);
    url.append(".png");
    url
}

/// The two candidate portrait URLs of a champion, one for each key of its
/// name.
pub fn generate_champion_image_url(champion_name: &str) -> (r: ChampionNames)
    ensures
        r@ == image_urls_of(champion_name@),
{
    let names = champion_names(champion_name);
    ChampionNames {
        lower: portrait_url(names.lower.as_str()),
        upper: portrait_url(names.upper.as_str()),
    }
}

/// The champion listed under `name`.
pub open spec fn champion_of(name: Seq<char>) -> ChampionModel {
    ChampionModel {
        name: name,
        first_image_url: image_urls_of(name).lower,
        second_image_url: image_urls_of(name).upper,
    }
}

/// The champions named by `labels`, in order, skipping missing labels.
pub open spec fn champions_of(labels: Seq<Option<Seq<char>>>) -> Seq<ChampionModel>
    decreases labels.len(),
{
    if labels.len() == 0 {
        Seq::empty()
    } else {
        let rest = champions_of(labels.drop_last());
        match labels.last() {
            Some(name) => rest.push(champion_of(name)),
            None => rest,
        }
    }
}

/// Builds the champion list from the labels of the champion cards: one
/// champion per present label, in order.
pub fn champions_from_labels(labels: &Vec<Option<String>>) -> (r: Vec<Champion>)
    ensures
        r.deep_view() == champions_of(labels.deep_view()),
{
    let mut champions: Vec<Champion> = Vec::new();
    let mut i: usize = 0;
    while i < labels.len()
        invariant
            i <= labels.len(),
            champions.deep_view() == champions_of(labels.deep_view().take(i as int)),
        decreases labels.len() - i,
    {
        assert(labels.deep_view().take(i + 1).drop_last() =~= labels.deep_view().take(i as int));
        match &labels[i] {
            Some(name) => {
                let urls = generate_champion_image_url(name.as_str());
                let champion = Champion {
                    name: name.clone(),
                    first_image_url: urls.lower,
                    second_image_url: urls.upper,
                };
                champions.push(champion);
                assert(champions.deep_view() =~= champions_of(labels.deep_view().take(i + 1)));
            },
            None => {},
        }
        i = i + 1;
    }
    assert(labels.deep_view().take(labels.len() as int) =~= labels.deep_view());
    champions
}

/// Reads the champion list from the champions page: the label of every card
/// (`a[role="button"][aria-label]`) becomes a champion with its portrait
/// URLs. `None` when the card selector is not accepted by the HTML parser.
pub fn champions_from_page(html: &str) -> (r: Option<Vec<Champion>>)
    ensures
        r is Some <==> selector_parses(CHAMPION_CARD_SELECTOR@),
        r matches Some(v) ==> v.deep_view() == champions_of(
            attribute_values(html@, CHAMPION_CARD_SELECTOR@, "aria-label"@),
        ),
{
    match select_attribute(html, CHAMPION_CARD_SELECTOR, "aria-label") {
        Some(labels) => Some(champions_from_labels(&labels)),
        None => None,
    }
}

/// The form in which names are compared when a champion is looked up:
/// trimmed, then in lower case.
pub open spec fn lookup_key(name: Seq<char>) -> Seq<char> {
    lowercase(trim(name))
}

/// The index of the first champion from `start` on whose name has lookup
/// key `key`.
pub open spec fn first_named(champions: Seq<ChampionModel>, key: Seq<char>, start: int) -> Option<int>
    decreases champions.len() - start,
{
    if start < 0 || start >= champions.len() {
        None
    } else if lookup_key(champions[start].name) == key {
        Some(start)
    } else {
        first_named(champions, key, start + 1)
    }
}

/// The first champion whose name, trimmed and in lower case, equals
/// `champion_name` trimmed and in lower case.
pub fn champion_by_name(champions: Vec<Champion>, champion_name: &str) -> (r: Option<Champion>)
    ensures
        match first_named(champions.deep_view(), lookup_key(champion_name@), 0) {
            Some(i) => r matches Some(c) && c@ == champions.deep_view()[i],
            None => r is None,
        },
        r matches Some(c) ==> exists|i: int|
            0 <= i < champions@.len() && c@ == #[trigger] champions.deep_view()[i]
            && lowercase(trim(c.name@)) == lowercase(trim(champion_name@))
            && forall|j: int| 0 <= j < i
                ==> lowercase(trim(#[trigger] champions.deep_view()[j].name)) != lowercase(trim(champion_name@)),
        r is None ==> forall|j: int| 0 <= j < champions@.len()
            ==> lowercase(trim(#[trigger] champions.deep_view()[j].name)) != lowercase(trim(champion_name@)),
{
    proof {
        lemma_lookup_finds_first_match(champions.deep_view(), champion_name@);
    }
    let ghost all = champions.deep_view();
    let ghost key = lookup_key(champion_name@);
    let trimmed = trim_str(champion_name);
    let wanted = str_to_lowercase(trimmed.as_str());
    let mut list = champions;
    let mut i: usize = 0;
    while i < list.len()
        invariant
            list.deep_view() == all,
            all == champions.deep_view(),
            key == lookup_key(champion_name@),
            wanted@ == key,
            i <= list.len(),
            first_named(all, key, 0) == first_named(all, key, i as int),
        decreases list.len() - i,
    {
        let t = trim_str(list[i].name.as_str());
        let candidate = str_to_lowercase(t.as_str());
        if candidate == wanted {
            assert(list.deep_view()[i as int] == all[i as int]);
            assert(lookup_key(all[i as int].name) == key);
            assert(first_named(all, key, i as int) == Some(i as int));
            let found = list.remove(i);
            assert(found@ == all[i as int]);
            proof {
                lemma_lookup_finds_first_match(all, champion_name@);
                assert(found@ == champions.deep_view()[i as int]);
            }
            return Some(found);
        }
        i = i + 1;
    }
    None
}

/// Lookup finds the first champion whose name, trimmed and in lower case,
/// equals the query trimmed and in lower case: if any champion of the list,
/// the last one included, has such a name, the answer is the first of them;
/// if none has, there is no answer.
pub proof fn lemma_lookup_finds_first_match(champions: Seq<ChampionModel>, query: Seq<char>)
    ensures
        match first_named(champions, lowercase(trim(query)), 0) {
            Some(i) => 0 <= i < champions.len()
                && lowercase(trim(champions[i].name)) == lowercase(trim(query))
                && forall|j: int| 0 <= j < i ==> lowercase(trim(#[trigger] champions[j].name)) != lowercase(trim(query)),
            None => forall|j: int| 0 <= j < champions.len()
                ==> lowercase(trim(#[trigger] champions[j].name)) != lowercase(trim(query)),
        },
{
    lemma_first_named_from(champions, lowercase(trim(query)), 0);
}

proof fn lemma_first_named_from(champions: Seq<ChampionModel>, key: Seq<char>, start: int)
    requires
        0 <= start,
    ensures
        match first_named(champions, key, start) {
            Some(i) => start <= i < champions.len() && lowercase(trim(champions[i].name)) == key
                && forall|j: int| start <= j < i ==> lowercase(trim(#[trigger] champions[j].name)) != key,
            None => forall|j: int| start <= j < champions.len() ==> lowercase(trim(#[trigger] champions[j].name)) != key,
        },
    decreases champions.len() - start,
{
    if start < champions.len() && lowercase(trim(champions[start].name)) != key {
        lemma_first_named_from(champions, key, start + 1);
    }
}

/// The two portrait URLs of a champion are the service's prefix, then the
/// key of the name (`clean_champion_name`, for `lower`) or its alphanumerics
/// (`clean_champion_name_for_image`, for `upper`), then `.png`.
pub proof fn lemma_portrait_urls(name: Seq<char>)
    ensures
        image_urls_of(name).lower == IMAGE_URL_PREFIX@ + name_key(name, false) + ".png"@,
        image_urls_of(name).upper == IMAGE_URL_PREFIX@ + alphanumerics(name) + ".png"@,
{
}

} // verus!
