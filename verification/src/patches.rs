//! The patches the service knows, and which of them is the current one.
use vstd::prelude::*;
use vstd::string::*;
use chrono::{Datelike, NaiveDate, Utc};

use crate::notes::NotesError;
use crate::patch::{PatchCard, PatchCardModel};

verus! {

/// A patch: its version and the day its notes came out (`YYYY-MM-DD`).
#[derive(Debug, Clone, PartialEq, Eq)]
pub struct PatchNote {
    pub version: String,
    pub release_date: String,
}

impl DeepView for PatchNote {
    type V = (Seq<char>, Seq<char>);

    open spec fn deep_view(&self) -> (Seq<char>, Seq<char>) {
        (self.version@, self.release_date@)
    }
}

/// The patches whose notes the service searches, newest first.
pub open spec fn known_patches() -> Seq<(Seq<char>, Seq<char>)> {
    seq![
        ("25.19"@, "2025-09-24"@),
        ("25.18"@, "2025-09-10"@),
        ("25.17"@, "2025-08-27"@),
        ("25.16"@, "2025-08-13"@),
        ("25.15"@, "2025-07-29"@),
        ("25.14"@, "2025-07-15"@),
        ("25.13"@, "2025-06-24"@),
        ("25.12"@, "2025-06-10"@),
        ("25.11"@, "2025-05-27"@),
        ("25.10"@, "2025-05-13"@),
        ("25.09"@, "2025-04-29"@),
        ("25.08"@, "2025-04-15"@),
        ("25.07"@, "2025-04-01"@),
    ]
}

fn patch_note(version: &str, release_date: &str) -> (r: PatchNote)
    ensures
        r.deep_view() == (version@, release_date@),
{
    PatchNote { version: String::from_str(version), release_date: String::from_str(release_date) }
}

/// The patches whose notes the service searches, newest first.
pub fn patch_notes_list() -> (r: Vec<PatchNote>)
    ensures
        r.deep_view() == known_patches(),
{
    let list = vec![
        patch_note("25.19", "2025-09-24"),
        patch_note("25.18", "2025-09-10"),
        patch_note("25.17", "2025-08-27"),
        patch_note("25.16", "2025-08-13"),
        patch_note("25.15", "2025-07-29"),
        patch_note("25.14", "2025-07-15"),
        patch_note("25.13", "2025-06-24"),
        patch_note("25.12", "2025-06-10"),
        patch_note("25.11", "2025-05-27"),
        patch_note("25.10", "2025-05-13"),
        patch_note("25.09", "2025-04-29"),
        patch_note("25.08", "2025-04-15"),
        patch_note("25.07", "2025-04-01"),
    ];
    assert(list.deep_view() =~= known_patches());
    list
}

// ---------------------------------------------------------------------------
// Collecting the cards of several patches
// ---------------------------------------------------------------------------

/// What the outcome of one search adds to the collected cards: the card
/// found, if it names a champion.
pub open spec fn kept(outcome: Result<PatchCardModel, NotesError>) -> Seq<PatchCardModel> {
    match outcome {
        Ok(card) => if card.champion_name.len() > 0 { seq![card] } else { Seq::empty() },
        Err(_) => Seq::empty(),
    }
}

/// Adds the outcome of one search to the collected cards: a card that
/// names a champion is kept; an empty card or a failed search adds
/// nothing.
pub fn keep_card(cards: &mut Vec<PatchCard>, outcome: Result<PatchCard, NotesError>)
    ensures
        final(cards).deep_view() == old(cards).deep_view() + kept(match outcome {
            Ok(card) => Ok(card@),
            Err(e) => Err(e),
        }),
{
    let ghost before = cards.deep_view();
    match outcome {
        Ok(card) => {
            if !card.champion_name.as_str().is_empty() {
                let ghost model = card@;
                cards.push(card);
                assert(cards.deep_view() =~= before + seq![model]);
            } else {
                assert(cards.deep_view() =~= before + Seq::<PatchCardModel>::empty());
            }
        },
        Err(_) => {
            assert(cards.deep_view() =~= before + Seq::<PatchCardModel>::empty());
        },
    }
}

/// The model of an outcome of a search.
pub open spec fn outcome_model(outcome: Result<PatchCard, NotesError>) -> Result<PatchCardModel, NotesError> {
    match outcome {
        Ok(card) => Ok(card@),
        Err(e) => Err(e),
    }
}

/// The cards kept from a series of search outcomes, in order.
pub open spec fn kept_all(outcomes: Seq<Result<PatchCardModel, NotesError>>) -> Seq<PatchCardModel>
    decreases outcomes.len(),
{
    if outcomes.len() == 0 {
        Seq::empty()
    } else {
        kept_all(outcomes.drop_last()) + kept(outcomes.last())
    }
}

/// What the caller is to do next while cards are collected.
#[derive(Debug, PartialEq, Eq)]
pub enum CollectAction {
    /// Search the notes of this patch version and report the outcome.
    Search(String),
    /// Every version has been searched; the cards are ready.
    Finish,
}

/// The abstract value of a [`CollectAction`].
pub enum CollectActionModel {
    Search(Seq<char>),
    Finish,
}

impl View for CollectAction {
    type V = CollectActionModel;

    open spec fn view(&self) -> CollectActionModel {
        match self {
            CollectAction::Search(v) => CollectActionModel::Search(v@),
            CollectAction::Finish => CollectActionModel::Finish,
        }
    }
}

/// The collection of a champion's cards over several patches: one search
/// per patch, in the order of the list, keeping the cards that name a
/// champion.
pub struct CardsCollection {
    versions: Vec<String>,
    next: usize,
    cards: Vec<PatchCard>,
    done: bool,
}

/// The abstract value of a [`CardsCollection`].
pub struct CollectionModel {
    pub versions: Seq<Seq<char>>,
    pub next: int,
    pub cards: Seq<PatchCardModel>,
    pub done: bool,
}

impl View for CardsCollection {
    type V = CollectionModel;

    closed spec fn view(&self) -> CollectionModel {
        CollectionModel {
            versions: self.versions.deep_view(),
            next: self.next as int,
            cards: self.cards.deep_view(),
            done: self.done,
        }
    }
}

/// The versions of `patches`, in order.
pub open spec fn versions_of(patches: Seq<(Seq<char>, Seq<char>)>) -> Seq<Seq<char>> {
    patches.map_values(|p: (Seq<char>, Seq<char>)| p.0)
}

/// The next state of a collection, and what the caller is to do, after the
/// search of the version last asked for ended with `outcome`: the card is
/// kept if it names a champion, and the next version is searched, or, after
/// the last one, the collection is over.
pub open spec fn after_outcome(c: CollectionModel, outcome: Result<PatchCardModel, NotesError>) -> (CollectionModel, CollectActionModel) {
    let cards = c.cards + kept(outcome);
    if 0 <= c.next < c.versions.len() {
        (CollectionModel { next: c.next + 1, cards, ..c }, CollectActionModel::Search(c.versions[c.next]))
    } else {
        (CollectionModel { cards, done: true, ..c }, CollectActionModel::Finish)
    }
}

impl CardsCollection {
    /// Begins collecting over `patches`: the first version is searched
    /// first; with no patches the collection is over at once.
    pub fn start(patches: &Vec<PatchNote>) -> (r: (CardsCollection, CollectAction))
        ensures
            r.0@.versions == versions_of(patches.deep_view()),
            r.0@.cards == Seq::<PatchCardModel>::empty(),
            patches@.len() > 0 ==> r.0@.next == 1 && !r.0@.done
                && r.1@ == CollectActionModel::Search(patches@[0].version@),
            patches@.len() == 0 ==> r.0@.done && r.1@ == CollectActionModel::Finish,
    {
        let mut versions: Vec<String> = Vec::new();
        let mut i: usize = 0;
        while i < patches.len()
            invariant
                i <= patches.len(),
                versions.deep_view() == versions_of(patches.deep_view()).take(i as int),
            decreases patches.len() - i,
        {
            let ghost prev = versions.deep_view();
            let v = patches[i].version.clone();
            versions.push(v);
            assert(versions.deep_view() =~= prev.push(v@));
            assert(versions_of(patches.deep_view()).take(i + 1)
                =~= versions_of(patches.deep_view()).take(i as int).push(patches@[i as int].version@));
            i = i + 1;
        }
        assert(versions_of(patches.deep_view()).take(patches.len() as int) =~= versions_of(patches.deep_view()));
        let cards: Vec<PatchCard> = Vec::new();
        assert(cards.deep_view() =~= Seq::<PatchCardModel>::empty());
        if versions.len() > 0 {
            let first = versions[0].clone();
            assert(versions.deep_view()[0] == versions[0]@);
            assert(versions_of(patches.deep_view())[0] == patches@[0].version@);
            (CardsCollection { versions, next: 1, cards, done: false }, CollectAction::Search(first))
        } else {
            (CardsCollection { versions, next: 0, cards, done: true }, CollectAction::Finish)
        }
    }

    /// Whether every version has been searched.
    pub fn is_done(&self) -> (r: bool)
        ensures
            r == self@.done,
    {
        self.done
    }

    /// Takes in the outcome of the search last asked for and says what to do
    /// next (see [`after_outcome`]).
    pub fn step(&mut self, outcome: Result<PatchCard, NotesError>) -> (r: CollectAction)
        requires
            !old(self)@.done,
        ensures
            (final(self)@, r@) == after_outcome(old(self)@, outcome_model(outcome)),
    {
        keep_card(&mut self.cards, outcome);
        if self.next < self.versions.len() {
            let version = self.versions[self.next].clone();
            self.next = self.next + 1;
            CollectAction::Search(version)
        } else {
            self.done = true;
            CollectAction::Finish
        }
    }

    /// The cards collected.
    pub fn into_cards(self) -> (r: Vec<PatchCard>)
        ensures
            r.deep_view() == self@.cards,
    {
        self.cards
    }
}

/// The collection keeps, in order, exactly the cards that name a champion:
/// if the cards so far are those kept from `outcomes`, then after one more
/// outcome they are those kept from `outcomes` followed by it.
pub proof fn lemma_collection_keeps_outcomes_in_order(
    c: CollectionModel,
    outcomes: Seq<Result<PatchCardModel, NotesError>>,
    outcome: Result<PatchCardModel, NotesError>,
)
    requires
        c.cards == kept_all(outcomes),
    ensures
        after_outcome(c, outcome).0.cards == kept_all(outcomes.push(outcome)),
{
    assert(outcomes.push(outcome).drop_last() =~= outcomes);
}

/// The collection searches each version once, in the order of the list:
/// after the outcome of the search of version `next - 1`, it asks for
/// version `next`, or, after the last, it is over.
pub proof fn lemma_collection_searches_in_order(c: CollectionModel, outcome: Result<PatchCardModel, NotesError>)
    requires
        1 <= c.next <= c.versions.len(),
        !c.done,
    ensures
        ({
            let (d, action) = after_outcome(c, outcome);
            &&& d.versions == c.versions
            &&& c.next < c.versions.len() ==> d.next == c.next + 1 && !d.done
                && action == CollectActionModel::Search(c.versions[c.next])
            &&& c.next == c.versions.len() ==> d.done && action == CollectActionModel::Finish
        }),
{
}

// ---------------------------------------------------------------------------
// The current patch
// ---------------------------------------------------------------------------

/// The format of release dates: `YYYY-MM-DD`.
pub const RELEASE_DATE_FORMAT: &'static str = "%Y-%m-%d";

/// The day (counted from the first day of the common era, as
/// `Datelike::num_days_from_ce` counts it) that `text` names in the date
/// format `format`, if it names one.
pub uninterp spec fn release_day(text: Seq<char>, format: Seq<char>) -> Option<int>;

/// Parses a date, by `NaiveDate::parse_from_str` with the format `format`,
/// and counts its day by `Datelike::num_days_from_ce`.
///
/// Trusted: the result is a function of `text` and `format` alone, named
/// `release_day`; the date grammar itself is not stated.
#[verifier::external_body]
pub(crate) fn parse_release_day(text: &str, format: &str) -> (r: Option<i32>)
    ensures
        r is Some <==> release_day(text@, format@) is Some,
        r matches Some(d) ==> release_day(text@, format@) == Some(d as int),
{
    NaiveDate::parse_from_str(text, format).ok().map(|d| d.num_days_from_ce())
}

/// Today's date in UTC (`Utc::now`), counted in days as
/// `Datelike::num_days_from_ce` counts them.
///
/// Trusted: nothing is stated of the result, which depends on the clock.
#[verifier::external_body]
pub(crate) fn today() -> (r: i32) {
    Utc::now().naive_utc().date().num_days_from_ce()
}

/// The abstract values of `patches`.
pub open spec fn patch_models(patches: Seq<PatchNote>) -> Seq<(Seq<char>, Seq<char>)> {
    patches.map_values(|p: PatchNote| p.deep_view())
}

/// Whether patch `p` came out on a day that `today` is not before.
pub open spec fn released_by(p: (Seq<char>, Seq<char>), today: int) -> bool {
    match release_day(p.1, RELEASE_DATE_FORMAT@) {
        Some(d) => d <= today,
        None => false,
    }
}

/// The number of days from the release of patch `p` to `today`.
pub open spec fn days_since(p: (Seq<char>, Seq<char>), today: int) -> int {
    match release_day(p.1, RELEASE_DATE_FORMAT@) {
        Some(d) => today - d,
        None => 0,
    }
}

/// Whether `i` is the index of the current patch on day `today`: among the
/// patches released by then, the one released last, and the first such in
/// the list.
pub open spec fn is_current_patch(patches: Seq<(Seq<char>, Seq<char>)>, today: int, i: int) -> bool {
    &&& 0 <= i < patches.len()
    &&& released_by(patches[i], today)
    &&& forall|j: int| 0 <= j < patches.len() && released_by(patches[j], today)
        ==> days_since(patches[i], today) <= days_since(#[trigger] patches[j], today)
    &&& forall|j: int| 0 <= j < i && released_by(patches[j], today)
        ==> days_since(patches[i], today) < days_since(#[trigger] patches[j], today)
}

/// Whether none of `patches` with a readable date had come out by `today`.
pub open spec fn no_patch_released(patches: Seq<(Seq<char>, Seq<char>)>, today: int) -> bool {
    forall|j: int| 0 <= j < patches.len() ==> !released_by(#[trigger] patches[j], today)
}

/// The index of the current patch on day `today` (see
/// [`is_current_patch`]); `None` when no patch with a readable date had
/// come out by then.
pub fn current_patch_index(patches: &[PatchNote], today: i32) -> (r: Option<usize>)
    ensures
        match r {
            Some(i) => is_current_patch(patch_models(patches@), today as int, i as int),
            None => no_patch_released(patch_models(patches@), today as int),
        },
{
    let ghost ps = patch_models(patches@);
    let mut best: Option<usize> = None;
    let mut best_gap: i64 = 0;
    let mut i: usize = 0;
    while i < patches.len()
        invariant
            ps == patch_models(patches@),
            i <= patches.len(),
            match best {
                Some(b) => {
                    &&& b < i
                    &&& released_by(ps[b as int], today as int)
                    &&& best_gap == days_since(ps[b as int], today as int)
                    &&& forall|j: int| 0 <= j < i && released_by(ps[j], today as int)
                        ==> best_gap <= days_since(#[trigger] ps[j], today as int)
                    &&& forall|j: int| 0 <= j < b && released_by(ps[j], today as int)
                        ==> best_gap < days_since(#[trigger] ps[j], today as int)
                },
                None => forall|j: int| 0 <= j < i ==> !released_by(#[trigger] ps[j], today as int),
            },
        decreases patches.len() - i,
    {
        assert(ps[i as int] == patches@[i as int].deep_view());
        match parse_release_day(patches[i].release_date.as_str(), RELEASE_DATE_FORMAT) {
            Some(day) => {
                if day <= today {
                    let gap: i64 = (today as i64) - (day as i64);
                    let better = match best {
                        Some(_) => gap < best_gap,
                        None => true,
                    };
                    if better {
                        best = Some(i);
                        best_gap = gap;
                    }
                }
            },
            None => {},
        }
        i = i + 1;
    }
    proof {
        if let Some(b) = best {
            assert(is_current_patch(ps, today as int, b as int));
        }
    }
    best
}

/// The current patch: among the patches whose release date has come, the
/// one released last (the first such in the list). Today's date comes from
/// the clock, so the contract says that the answer is the current patch on
/// some day, not on which.
pub fn find_closest_patch(patches: &[PatchNote]) -> (r: Option<&PatchNote>)
    ensures
        r matches Some(p) ==> exists|day: int, i: int|
            #[trigger] is_current_patch(patch_models(patches@), day, i) && patches@[i] == *p,
        r is None ==> exists|day: int| #[trigger] no_patch_released(patch_models(patches@), day),
{
    let now = today();
    match current_patch_index(patches, now) {
        Some(i) => {
            assert(is_current_patch(patch_models(patches@), now as int, i as int) && patches@[i as int] == patches@[i as int]);
            Some(&patches[i])
        },
        None => {
            assert(no_patch_released(patch_models(patches@), now as int));
            None
        },
    }
}

/// Collected cards always name a champion: if every card collected so far
/// does, so does every card after one more outcome is kept.
pub proof fn lemma_kept_cards_name_champions(cards: Seq<PatchCardModel>, outcome: Result<PatchCardModel, NotesError>)
    requires
        forall|k: int| 0 <= k < cards.len() ==> (#[trigger] cards[k]).champion_name.len() > 0,
    ensures
        forall|k: int| 0 <= k < (cards + kept(outcome)).len() ==> (#[trigger] (cards + kept(outcome))[k]).champion_name.len() > 0,
{
    let all = cards + kept(outcome);
    assert forall|k: int| 0 <= k < all.len() implies (#[trigger] all[k]).champion_name.len() > 0 by {
        if k < cards.len() {
            assert(all[k] == cards[k]);
        } else {
            assert(all[k] == kept(outcome)[k - cards.len()]);
        }
    }
}

} // verus!
