//! Looking a champion up in the notes of a patch.
//!
//! The search alternates between fetching pages, which the caller does, and
//! deciding what to fetch next, which [`NotesSearch`] does: first the page
//! that lists the patch notes, then the notes it links to, one after the
//! other, until one of them has a block about the champion.
use vstd::prelude::*;

use crate::language::{
    has_local_label, local_label, index_url, label_for_patch, links_on_index, localize, localized, patch_label, patch_note_links,
    patch_notes_index_url, LanguageInfo, LanguageModel,
};
use crate::patch::{card_on_page, empty_card, patch_card_from_page, PatchCard, PatchCardModel};

verus! {

/// The two ways in which the service looks notes up. They differ
/// in the label the links must carry, in the version recorded on the card,
/// and in what is answered when no page has the champion.
#[derive(Debug, Clone, Copy, PartialEq, Eq, Structural)]
pub enum NotesVariant {
    /// Notes of one patch version: links labelled for that version, cards
    /// carrying the version, and an empty card when nothing is found.
    ForPatch,
    /// Notes under the language's own label: cards carrying that label,
    /// and `NotFound` when nothing is found.
    SelectPage,
}

/// Why a search gave no card.
#[derive(Debug, Clone, Copy, PartialEq, Eq, Structural)]
pub enum NotesError {
    /// A page could not be fetched, or the link label made a selector the
    /// HTML parser refuses.
    Internal,
    /// No linked page had the champion.
    NotFound,
    /// The HTML parser refused one of the fixed selectors of change blocks.
    BadSelector,
}

/// The HTTP status with which the service answers `e`: 500 (internal
/// error) or 404 (not found); `None` for a refused fixed selector, on which
/// the service stops rather than answers.
pub open spec fn status_of(e: NotesError) -> Option<u16> {
    match e {
        NotesError::Internal => Some(500u16),
        NotesError::NotFound => Some(404u16),
        NotesError::BadSelector => None,
    }
}

/// The HTTP status with which the service answers `e` (see [`status_of`]).
pub fn status_code(e: NotesError) -> (r: Option<u16>)
    ensures
        r == status_of(e),
{
    match e {
        NotesError::Internal => Some(500),
        NotesError::NotFound => Some(404),
        NotesError::BadSelector => None,
    }
}

/// What the caller reports after a fetch.
pub enum NotesEvent {
    /// The page was fetched; its text.
    Fetched(String),
    /// The page could not be fetched.
    FetchFailed,
}

/// The abstract value of a [`NotesEvent`].
pub enum EventModel {
    Fetched(Seq<char>),
    FetchFailed,
}

impl View for NotesEvent {
    type V = EventModel;

    open spec fn view(&self) -> EventModel {
        match self {
            NotesEvent::Fetched(page) => EventModel::Fetched(page@),
            NotesEvent::FetchFailed => EventModel::FetchFailed,
        }
    }
}

/// What the caller is to do next.
pub enum NotesAction {
    /// Fetch the page at this address and report it.
    Fetch(String),
    /// The search is over, with this outcome.
    Finish(Result<PatchCard, NotesError>),
}

/// The abstract value of a [`NotesAction`].
pub enum ActionModel {
    Fetch(Seq<char>),
    Finish(Result<PatchCardModel, NotesError>),
}

impl DeepView for NotesAction {
    type V = ActionModel;

    open spec fn deep_view(&self) -> ActionModel {
        match self {
            NotesAction::Fetch(url) => ActionModel::Fetch(url@),
            NotesAction::Finish(Ok(card)) => ActionModel::Finish(Ok(card@)),
            NotesAction::Finish(Err(e)) => ActionModel::Finish(Err(*e)),
        }
    }
}

/// Where a search stands.
#[derive(Debug, Clone, Copy, PartialEq, Eq, Structural)]
pub enum SearchPhase {
    /// Waiting for the page that lists the patch notes.
    AwaitingIndex,
    /// Waiting for the linked page `next - 1`.
    AwaitingPage,
    /// Over.
    Done,
}

/// The state of a search for a champion in the notes of a patch.
pub struct NotesSearch {
    variant: NotesVariant,
    desired: String,
    version: String,
    language: LanguageInfo,
    links: Vec<String>,
    next: usize,
    phase: SearchPhase,
}

/// The abstract value of a [`NotesSearch`].
pub struct SearchModel {
    pub variant: NotesVariant,
    pub desired: Seq<char>,
    pub version: Seq<char>,
    pub language: LanguageModel,
    pub links: Seq<Seq<char>>,
    pub next: int,
    pub phase: SearchPhase,
}

impl View for NotesSearch {
    type V = SearchModel;

    closed spec fn view(&self) -> SearchModel {
        SearchModel {
            variant: self.variant,
            desired: self.desired@,
            version: self.version@,
            language: self.language@,
            links: self.links.deep_view(),
            next: self.next as int,
            phase: self.phase,
        }
    }
}

/// A search that has just begun.
pub open spec fn initial_search(
    variant: NotesVariant,
    desired: Seq<char>,
    version: Seq<char>,
    language: LanguageModel,
) -> SearchModel {
    SearchModel {
        variant,
        desired,
        version,
        language,
        links: Seq::empty(),
        next: 0,
        phase: SearchPhase::AwaitingIndex,
    }
}

/// The label the links of the searched notes carry, for `language` once
/// localized.
pub open spec fn search_label(variant: NotesVariant, language: LanguageModel, version: Seq<char>) -> Seq<char> {
    match variant {
        NotesVariant::ForPatch => label_for_patch(language, version),
        NotesVariant::SelectPage => language.patch_notes,
    }
}

/// The version recorded on the card found.
pub open spec fn card_version(s: SearchModel) -> Seq<char> {
    match s.variant {
        NotesVariant::ForPatch => s.version,
        NotesVariant::SelectPage => s.language.patch_notes,
    }
}

/// The outcome when no linked page has the champion.
pub open spec fn nothing_found(variant: NotesVariant) -> Result<PatchCardModel, NotesError> {
    match variant {
        NotesVariant::ForPatch => Ok(empty_card()),
        NotesVariant::SelectPage => Err(NotesError::NotFound),
    }
}

/// `s`, over.
pub open spec fn finished(s: SearchModel) -> SearchModel {
    SearchModel { phase: SearchPhase::Done, ..s }
}

/// The next state of a search, and what the caller is to do, after `event`.
///
/// While waiting for the index: a failed fetch ends the search with
/// `Internal`; otherwise the language is localized for the version, the
/// links with the search label are read from the index (a refused label
/// ends the search with `Internal`), and the first link is fetched, or, if
/// there is none, the search ends as when nothing is found.
///
/// While waiting for a linked page: a failed fetch ends the search with
/// `Internal`; a refused block selector ends it with `BadSelector`; a page
/// with a block about the champion ends it with that card; otherwise the
/// next link is fetched, or, after the last one, the search ends as when
/// nothing is found.
pub open spec fn after_event(s: SearchModel, event: EventModel) -> (SearchModel, ActionModel) {
    match event {
        EventModel::FetchFailed => (finished(s), ActionModel::Finish(Err(NotesError::Internal))),
        EventModel::Fetched(page) => {
            if s.phase == SearchPhase::AwaitingIndex {
                let language = localized(s.language, s.version);
                let s1 = SearchModel { language, ..s };
                match links_on_index(page, search_label(s.variant, language, s.version)) {
                    None => (finished(s1), ActionModel::Finish(Err(NotesError::Internal))),
                    Some(links) => {
                        if links.len() > 0 {
                            (
                                SearchModel { links, next: 1, phase: SearchPhase::AwaitingPage, ..s1 },
                                ActionModel::Fetch(links[0]),
                            )
                        } else {
                            (
                                SearchModel { links, next: 0, phase: SearchPhase::Done, ..s1 },
                                ActionModel::Finish(nothing_found(s.variant)),
                            )
                        }
                    },
                }
            } else {
                match card_on_page(page, s.desired, s.language.base_stats, card_version(s)) {
                    None => (finished(s), ActionModel::Finish(Err(NotesError::BadSelector))),
                    Some(Some(card)) => (finished(s), ActionModel::Finish(Ok(card))),
                    Some(None) => {
                        if 0 <= s.next < s.links.len() {
                            (SearchModel { next: s.next + 1, ..s }, ActionModel::Fetch(s.links[s.next]))
                        } else {
                            (finished(s), ActionModel::Finish(nothing_found(s.variant)))
                        }
                    },
                }
            }
        },
    }
}

impl NotesSearch {
    /// Begins a search for `desired` in the notes of patch `version`, in
    /// `language`: the first thing to fetch is the page that lists the
    /// patch notes in that language.
    pub fn start(variant: NotesVariant, desired: &str, version: &str, language: LanguageInfo) -> (r: (
        NotesSearch,
        NotesAction,
    ))
        ensures
            r.0@ == initial_search(variant, desired@, version@, language@),
            r.1.deep_view() == ActionModel::Fetch(index_url(language@.lang)),
    {
        let url = patch_notes_index_url(&language);
        let search = NotesSearch {
            variant,
            desired: String::from_str(desired),
            version: String::from_str(version),
            language,
            links: Vec::new(),
            next: 0,
            phase: SearchPhase::AwaitingIndex,
        };
        assert(search.links.deep_view() =~= Seq::<Seq<char>>::empty());
        (search, NotesAction::Fetch(url))
    }

    /// Whether the search is over.
    pub fn is_done(&self) -> (r: bool)
        ensures
            r == (self@.phase == SearchPhase::Done),
    {
        self.phase == SearchPhase::Done
    }

    /// The language of the search (localized once the index has come).
    pub fn into_language(self) -> (r: LanguageInfo)
        ensures
            r@ == self@.language,
    {
        self.language
    }

    /// Takes in what the last fetch gave and says what to do next (see
    /// [`after_event`]).
    pub fn step(&mut self, event: NotesEvent) -> (r: NotesAction)
        requires
            old(self)@.phase != SearchPhase::Done,
        ensures
            (final(self)@, r.deep_view()) == after_event(old(self)@, event@),
    {
        match event {
            NotesEvent::FetchFailed => {
                self.phase = SearchPhase::Done;
                NotesAction::Finish(Err(NotesError::Internal))
            },
            NotesEvent::Fetched(page) => {
                if self.phase == SearchPhase::AwaitingIndex {
                    localize(&mut self.language, self.version.as_str());
                    let label = match self.variant {
                        NotesVariant::ForPatch => patch_label(&self.language, self.version.as_str()),
                        NotesVariant::SelectPage => self.language.patch_notes.clone(),
                    };
                    match patch_note_links(page.as_str(), label.as_str()) {
                        None => {
                            self.phase = SearchPhase::Done;
                            NotesAction::Finish(Err(NotesError::Internal))
                        },
                        Some(links) => {
                            self.links = links;
                            if self.links.len() > 0 {
                                self.next = 1;
                                self.phase = SearchPhase::AwaitingPage;
                                NotesAction::Fetch(self.links[0].clone())
                            } else {
                                self.next = 0;
                                self.phase = SearchPhase::Done;
                                self.nothing_found()
                            }
                        },
                    }
                } else {
                    let version = match self.variant {
                        NotesVariant::ForPatch => self.version.clone(),
                        NotesVariant::SelectPage => self.language.patch_notes.clone(),
                    };
                    let found = patch_card_from_page(
                        page.as_str(),
                        self.desired.as_str(),
                        self.language.base_stats.as_str(),
                        version.as_str(),
                    );
                    match found {
                        None => {
                            self.phase = SearchPhase::Done;
                            NotesAction::Finish(Err(NotesError::BadSelector))
                        },
                        Some(Some(card)) => {
                            self.phase = SearchPhase::Done;
                            NotesAction::Finish(Ok(card))
                        },
                        Some(None) => {
                            if self.next < self.links.len() {
                                let url = self.links[self.next].clone();
                                self.next = self.next + 1;
                                NotesAction::Fetch(url)
                            } else {
                                self.phase = SearchPhase::Done;
                                self.nothing_found()
                            }
                        },
                    }
                }
            },
        }
    }

    /// The outcome when no linked page has the champion.
    fn nothing_found(&self) -> (r: NotesAction)
        ensures
            r.deep_view() == ActionModel::Finish(nothing_found(self@.variant)),
    {
        match self.variant {
            NotesVariant::ForPatch => NotesAction::Finish(Ok(PatchCard::default())),
            NotesVariant::SelectPage => NotesAction::Finish(Err(NotesError::NotFound)),
        }
    }
}

/// A search moves on one link at a time: after any event, either it is over,
/// or it waits for a linked page, having asked for the link just after the
/// ones asked for before, and the links it asks for come in the order in
/// which they were read from the index.
pub proof fn lemma_search_moves_on(s: SearchModel, event: EventModel)
    requires
        s.phase != SearchPhase::Done,
        s.phase == SearchPhase::AwaitingPage ==> 1 <= s.next <= s.links.len(),
    ensures
        ({
            let (t, action) = after_event(s, event);
            ||| (t.phase == SearchPhase::Done && action is Finish)
            ||| (t.phase == SearchPhase::AwaitingPage && 1 <= t.next <= t.links.len()
                && action == ActionModel::Fetch(t.links[t.next - 1])
                && (s.phase == SearchPhase::AwaitingPage ==> t.links == s.links && t.next == s.next + 1)
                && (s.phase == SearchPhase::AwaitingIndex ==> t.next == 1))
        }),
{
}

/// Every search ends: a search that waits for a linked page has at most as
/// many events ahead as links it has not asked for yet, plus one.
pub proof fn lemma_search_ends(s: SearchModel, event: EventModel)
    requires
        s.phase == SearchPhase::AwaitingPage,
        1 <= s.next <= s.links.len(),
    ensures
        ({
            let (t, action) = after_event(s, event);
            t.phase == SearchPhase::Done || t.links.len() - t.next < s.links.len() - s.next
        }),
{
}

/// Whether `b`, an answer of a search under the language's own label,
/// corresponds to `a`, the answer of the search for a patch from the same
/// state: the same fetch, the same failure, not-found where the other
/// answers the empty card, or the same card recording `label` as its
/// version.
pub open spec fn answers_correspond(a: ActionModel, b: ActionModel, label: Seq<char>) -> bool {
    match (a, b) {
        (ActionModel::Fetch(u), ActionModel::Fetch(v)) => u == v,
        (ActionModel::Finish(Err(e)), ActionModel::Finish(Err(f))) => e == f && e != NotesError::NotFound,
        (ActionModel::Finish(Ok(c)), ActionModel::Finish(Err(f))) => c == empty_card() && f == NotesError::NotFound,
        (ActionModel::Finish(Ok(c)), ActionModel::Finish(Ok(d))) => d == PatchCardModel { patch_version: label, ..c },
        _ => false,
    }
}

proof fn lemma_card_on_page_versions(
    page: Seq<char>,
    desired: Seq<char>,
    base_stats: Seq<char>,
    v1: Seq<char>,
    v2: Seq<char>,
)
    ensures
        match (card_on_page(page, desired, base_stats, v1), card_on_page(page, desired, base_stats, v2)) {
            (None, None) => true,
            (Some(None), Some(None)) => true,
            (Some(Some(c)), Some(Some(d))) => d == PatchCardModel { patch_version: v2, ..c },
            _ => false,
        },
{
}

/// For a language with a local label (German, Brazilian Portuguese), the
/// two ways of looking notes up go through the same pages and agree: from
/// states that differ only in the variant, the same event leads to states
/// that differ only in the variant (so the language ends the same), and to
/// corresponding answers; a card found under the language's label records
/// that label, `local_label(lang, version)`, as its version, where the
/// search for a patch records the version. The search for a patch answers
/// the empty card exactly where the other answers not-found.
pub proof fn lemma_variants_agree_for_local_labels(s: SearchModel, event: EventModel)
    requires
        s.variant == NotesVariant::ForPatch,
        has_local_label(s.language.lang),
        s.phase != SearchPhase::Done,
        s.phase == SearchPhase::AwaitingPage ==> s.language.patch_notes == local_label(s.language.lang, s.version),
    ensures
        ({
            let t = SearchModel { variant: NotesVariant::SelectPage, ..s };
            let (s2, a) = after_event(s, event);
            let (t2, b) = after_event(t, event);
            &&& t2 == SearchModel { variant: NotesVariant::SelectPage, ..s2 }
            &&& s2.phase == SearchPhase::AwaitingPage
                ==> s2.language.patch_notes == local_label(s2.language.lang, s2.version)
            &&& answers_correspond(a, b, local_label(s.language.lang, s.version))
        }),
{
    let t = SearchModel { variant: NotesVariant::SelectPage, ..s };
    if let EventModel::Fetched(page) = event {
        if s.phase == SearchPhase::AwaitingPage {
            lemma_card_on_page_versions(page, s.desired, s.language.base_stats, s.version, s.language.patch_notes);
        }
    }
}

} // verus!
