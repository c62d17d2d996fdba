use patch_notes::language::{
    identify_language, localize, patch_label, patch_note_links, patch_notes_index_url, BASE_URL,
};
use patch_notes::notes::{status_code, NotesAction, NotesError, NotesEvent, NotesSearch, NotesVariant};
use patch_notes::patch::PatchCard;

#[test]
fn identify_known_and_unknown_languages() {
    let de = identify_language("de-de");
    assert_eq!(de.lang, "de-de");
    assert_eq!(de.patch_notes, "Patchnotes zu Patch");
    assert_eq!(de.base_stats, "Basiswerte");
    let pt = identify_language("pt-br");
    assert_eq!(pt.lang, "pt-br");
    let other = identify_language("xx-yy");
    assert_eq!(other.lang, "en-us");
    assert_eq!(other.base_stats, "Base Stats");
    assert_eq!(identify_language("en-us"), other);
}

#[test]
fn index_url_of_a_language() {
    assert_eq!(
        patch_notes_index_url(&identify_language("de-de")),
        "https://www.leagueoflegends.com/de-de/news/tags/patch-notes/"
    );
}

#[test]
fn labels_of_patch_notes() {
    let mut en = identify_language("en-us");
    localize(&mut en, "25.19");
    assert_eq!(en.patch_notes, "Patch Notes");
    assert_eq!(patch_label(&en, "25.19"), "Patch 25.19 Notes");
    let mut de = identify_language("de-de");
    localize(&mut de, "25.19");
    assert_eq!(de.patch_notes, "Patchnotes zu Patch 25.19");
    assert_eq!(patch_label(&de, "25.19"), "Patchnotes zu Patch 25.19");
}

const INDEX: &str = r#"<html><body>
<a aria-label="Patch 25.19 Notes" href="/en-us/news/game-updates/patch-25-19-notes/">x</a>
<a aria-label="Patch 25.18 Notes" href="/en-us/news/game-updates/patch-25-18-notes/">y</a>
<a aria-label="Read the Patch 25.19 Notes now">no link</a>
<a aria-label="Patch 25.19 Notes (TFT)" href="/en-us/news/game-updates/tft-25-19/">z</a>
</body></html>"#;

#[test]
fn links_with_a_label() {
    let links = patch_note_links(INDEX, "Patch 25.19 Notes").expect("selector parses");
    assert_eq!(
        links,
        vec![
            format!("{}/en-us/news/game-updates/patch-25-19-notes/", BASE_URL),
            format!("{}/en-us/news/game-updates/tft-25-19/", BASE_URL),
        ]
    );
    assert_eq!(patch_note_links(INDEX, "Patch 99.1 Notes").unwrap(), Vec::<String>::new());
}

#[test]
fn a_label_that_breaks_the_selector() {
    assert_eq!(patch_note_links(INDEX, "Patch \"25.19"), None);
}

const NOTES_PAGE: &str = r#"<div class="patch-change-block">
  <h3 class="change-title"><a>Ahri</a></h3>
  <p class="summary">Ahri summary</p>
  <ul><li>Mana: 418 => 400</li></ul>
</div>"#;

fn fetched(s: &str) -> NotesEvent {
    NotesEvent::Fetched(s.to_string())
}

fn fetch_url(action: &NotesAction) -> String {
    match action {
        NotesAction::Fetch(url) => url.clone(),
        NotesAction::Finish(_) => panic!("expected a fetch"),
    }
}

fn outcome(action: NotesAction) -> Result<PatchCard, NotesError> {
    match action {
        NotesAction::Finish(outcome) => outcome,
        NotesAction::Fetch(url) => panic!("expected the end, got a fetch of {}", url),
    }
}

#[test]
fn search_finds_the_champion_on_the_second_page() {
    let (mut search, action) =
        NotesSearch::start(NotesVariant::ForPatch, "Ahri", "25.19", identify_language("en-us"));
    assert_eq!(fetch_url(&action), "https://www.leagueoflegends.com/en-us/news/tags/patch-notes/");
    let action = search.step(fetched(INDEX));
    assert_eq!(fetch_url(&action), format!("{}/en-us/news/game-updates/patch-25-19-notes/", BASE_URL));
    let action = search.step(fetched("<p>nothing here</p>"));
    assert_eq!(fetch_url(&action), format!("{}/en-us/news/game-updates/tft-25-19/", BASE_URL));
    let card = outcome(search.step(fetched(NOTES_PAGE))).expect("found");
    assert_eq!(card.champion_name, "Ahri");
    assert_eq!(card.patch_version, "25.19");
    assert_eq!(card.abilities[0].name, "Base Stats");
    assert!(search.is_done());
}

#[test]
fn search_for_patch_answers_an_empty_card_when_nothing_is_found() {
    let (mut search, _) =
        NotesSearch::start(NotesVariant::ForPatch, "Zed", "25.19", identify_language("en-us"));
    let action = search.step(fetched(INDEX));
    assert!(matches!(action, NotesAction::Fetch(_)));
    let action = search.step(fetched(NOTES_PAGE));
    assert!(matches!(action, NotesAction::Fetch(_)));
    let result = outcome(search.step(fetched(NOTES_PAGE)));
    assert_eq!(result, Ok(PatchCard::default()));
}

#[test]
fn search_under_the_language_label_answers_not_found() {
    let (mut search, _) =
        NotesSearch::start(NotesVariant::SelectPage, "Ahri", "25.19", identify_language("en-us"));
    // The English label "Patch Notes" is not part of "Patch 25.19 Notes".
    let result = outcome(search.step(fetched(INDEX)));
    assert_eq!(result, Err(NotesError::NotFound));
}

#[test]
fn search_under_a_local_label_records_it_on_the_card() {
    let index = r#"<a aria-label="Patchnotes zu Patch 25.19" href="/de-de/news/p/">p</a>"#;
    let (mut search, action) =
        NotesSearch::start(NotesVariant::SelectPage, "Ahri", "25.19", identify_language("de-de"));
    assert_eq!(fetch_url(&action), "https://www.leagueoflegends.com/de-de/news/tags/patch-notes/");
    let action = search.step(fetched(index));
    assert_eq!(fetch_url(&action), "https://www.leagueoflegends.com/de-de/news/p/");
    let card = outcome(search.step(fetched(NOTES_PAGE))).unwrap();
    assert_eq!(card.patch_version, "Patchnotes zu Patch 25.19");
    assert_eq!(card.abilities[0].name, "Basiswerte");
    assert_eq!(search.into_language().patch_notes, "Patchnotes zu Patch 25.19");
}

#[test]
fn failed_fetches_end_the_search() {
    let (mut search, _) =
        NotesSearch::start(NotesVariant::ForPatch, "Ahri", "25.19", identify_language("en-us"));
    assert_eq!(outcome(search.step(NotesEvent::FetchFailed)), Err(NotesError::Internal));

    let (mut search, _) =
        NotesSearch::start(NotesVariant::ForPatch, "Ahri", "25.19", identify_language("en-us"));
    search.step(fetched(INDEX));
    assert_eq!(outcome(search.step(NotesEvent::FetchFailed)), Err(NotesError::Internal));
}

#[test]
fn a_language_without_local_label_stays_as_it_is() {
    let (mut search, _) =
        NotesSearch::start(NotesVariant::ForPatch, "Ahri", "25.19", identify_language("en-us"));
    search.step(NotesEvent::FetchFailed);
    assert_eq!(search.into_language(), identify_language("en-us"));
}

#[test]
fn portuguese_label() {
    let mut pt = identify_language("pt-br");
    localize(&mut pt, "25.18");
    assert_eq!(pt.patch_notes, "Notas da Atualização 25.18");
    assert_eq!(pt.base_stats, "Atributos básicos");
}

#[test]
fn status_codes_of_failed_searches() {
    assert_eq!(status_code(NotesError::Internal), Some(500));
    assert_eq!(status_code(NotesError::NotFound), Some(404));
    assert_eq!(status_code(NotesError::BadSelector), None);
}

fn run(variant: NotesVariant, language: &str, pages: &[&str]) -> (Vec<String>, Result<PatchCard, NotesError>) {
    let (mut search, mut action) = NotesSearch::start(variant, "Ahri", "25.19", identify_language(language));
    let mut fetched_urls = Vec::new();
    let mut pages = pages.iter();
    loop {
        match action {
            NotesAction::Fetch(url) => {
                fetched_urls.push(url);
                let event = match pages.next() {
                    Some(p) => fetched(p),
                    None => NotesEvent::FetchFailed,
                };
                action = search.step(event);
            }
            NotesAction::Finish(outcome) => return (fetched_urls, outcome),
        }
    }
}

#[test]
fn both_variants_agree_for_a_local_label() {
    let index = r#"<a aria-label="Patchnotes zu Patch 25.19" href="/de-de/news/a/">a</a>
                   <a aria-label="Patchnotes zu Patch 25.19 (2)" href="/de-de/news/b/">b</a>"#;
    let (urls1, found1) = run(NotesVariant::ForPatch, "de-de", &[index, "<p></p>", NOTES_PAGE]);
    let (urls2, found2) = run(NotesVariant::SelectPage, "de-de", &[index, "<p></p>", NOTES_PAGE]);
    assert_eq!(urls1, urls2);
    let (c1, c2) = (found1.unwrap(), found2.unwrap());
    assert_eq!(c1.patch_version, "25.19");
    assert_eq!(c2.patch_version, "Patchnotes zu Patch 25.19");
    assert_eq!(PatchCard { patch_version: c2.patch_version.clone(), ..c1 }, c2);

    let (_, none1) = run(NotesVariant::ForPatch, "pt-br", &["<p></p>"]);
    let (_, none2) = run(NotesVariant::SelectPage, "pt-br", &["<p></p>"]);
    assert_eq!(none1, Ok(PatchCard::default()));
    assert_eq!(none2, Err(NotesError::NotFound));
}
