use chrono::{Datelike, NaiveDate};
use patch_notes::champions::generate_champion_image_url;
use patch_notes::notes::NotesError;
use patch_notes::patch::PatchCard;
use patch_notes::patches::{
    current_patch_index, find_closest_patch, keep_card, patch_notes_list, CardsCollection, CollectAction,
    PatchNote,
};
use patch_notes::requests::champion_notes_response;

fn day(y: i32, m: u32, d: u32) -> i32 {
    NaiveDate::from_ymd_opt(y, m, d).unwrap().num_days_from_ce()
}

fn note(version: &str, date: &str) -> PatchNote {
    PatchNote { version: version.to_string(), release_date: date.to_string() }
}

#[test]
fn the_known_patches() {
    let list = patch_notes_list();
    assert_eq!(list.len(), 13);
    assert_eq!(list[0], note("25.19", "2025-09-24"));
    assert_eq!(list[12], note("25.07", "2025-04-01"));
}

#[test]
fn current_patch_is_the_last_released() {
    let list = patch_notes_list();
    assert_eq!(current_patch_index(&list, day(2025, 9, 1)), Some(2));
    assert_eq!(current_patch_index(&list, day(2025, 9, 10)), Some(1));
    assert_eq!(current_patch_index(&list, day(2030, 1, 1)), Some(0));
    assert_eq!(current_patch_index(&list, day(2025, 3, 1)), None);
}

#[test]
fn current_patch_skips_unreadable_dates_and_takes_the_first_of_ties() {
    let list = vec![
        note("a", "not a date"),
        note("b", "2025-01-10"),
        note("c", "2025-01-20"),
        note("d", "2025-01-20"),
        note("e", "2025-02-01"),
    ];
    assert_eq!(current_patch_index(&list, day(2025, 1, 25)), Some(2));
    assert_eq!(current_patch_index(&[note("a", "2025/01/01")], day(2026, 1, 1)), None);
}

#[test]
fn closest_patch_today() {
    let list = patch_notes_list();
    // Every known patch is in the past by now.
    assert_eq!(find_closest_patch(&list), Some(&list[0]));
    assert_eq!(find_closest_patch(&[note("x", "2999-01-01")]), None);
    assert_eq!(find_closest_patch(&[]), None);
}

fn named(name: &str) -> PatchCard {
    PatchCard { champion_name: name.to_string(), ..PatchCard::default() }
}

#[test]
fn only_cards_that_name_a_champion_are_kept() {
    let mut cards = Vec::new();
    keep_card(&mut cards, Ok(named("Ahri")));
    keep_card(&mut cards, Ok(PatchCard::default()));
    keep_card(&mut cards, Err(NotesError::Internal));
    keep_card(&mut cards, Err(NotesError::NotFound));
    keep_card(&mut cards, Ok(named("Annie")));
    let names: Vec<&str> = cards.iter().map(|c| c.champion_name.as_str()).collect();
    assert_eq!(names, vec!["Ahri", "Annie"]);
}

#[test]
fn notes_response_sets_the_first_portrait() {
    let cards = vec![named("Kai'Sa"), named("Kai'Sa")];
    let answer = champion_notes_response(cards, "Kai'Sa").unwrap();
    assert_eq!(answer[0].champion_image, generate_champion_image_url("Kai'Sa"));
    assert_eq!(answer[1].champion_image.lower, "");
    assert_eq!(answer[0].champion_name, "Kai'Sa");
}

#[test]
fn notes_response_without_cards_is_an_error() {
    assert_eq!(champion_notes_response(Vec::new(), "Ahri"), Err(NotesError::Internal));
}

#[test]
fn collection_searches_each_version_in_order() {
    let patches = vec![note("25.19", "2025-09-24"), note("25.18", "2025-09-10"), note("25.17", "2025-08-27")];
    let (mut collection, first) = CardsCollection::start(&patches);
    assert_eq!(first, CollectAction::Search("25.19".to_string()));
    assert_eq!(collection.step(Ok(named("Ahri"))), CollectAction::Search("25.18".to_string()));
    assert!(!collection.is_done());
    assert_eq!(collection.step(Err(NotesError::Internal)), CollectAction::Search("25.17".to_string()));
    assert_eq!(collection.step(Ok(named("Ahri 2"))), CollectAction::Finish);
    assert!(collection.is_done());
    let names: Vec<String> = collection.into_cards().into_iter().map(|c| c.champion_name).collect();
    assert_eq!(names, vec!["Ahri", "Ahri 2"]);
}

#[test]
fn collection_over_no_patches_is_over_at_once() {
    let (collection, first) = CardsCollection::start(&Vec::new());
    assert_eq!(first, CollectAction::Finish);
    assert!(collection.is_done());
    assert!(collection.into_cards().is_empty());
}
