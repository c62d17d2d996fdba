use patch_notes::champions::generate_champion_image_url;
use patch_notes::html::ElementRecord;
use patch_notes::patch::{
    card_from_blocks, group_ability_changes, patch_card_from_page, AbilityChange, PatchCard,
};

const PAGE: &str = r##"<html><body>
<div class="patch-change-block">
  <h3 class="change-title"><a href="#ahri">Ahri</a></h3>
  <p class="summary">Nerfs.</p>
  <ul><li>Mana: 418 => 400</li></ul>
</div>
<div class="patch-change-block">
  <h3 class="change-title"><a href="#kaisa">Kai'Sa</a></h3>
  <p class="summary">Buffs to W.</p>
  <p class="summary">Ignored second summary.</p>
  <blockquote class="blockquote context">Kai'Sa has been
     struggling	lately.</blockquote>
  <ul><li> Health growth: 90 => 95 </li></ul>
  <h4 class="change-detail-title">W - Void Seeker</h4>
  <ul><li>Damage: 30 => 40</li><li> Cooldown: 22s => 20s</li></ul>
  <h4 class="change-detail-title">E - Supercharge</h4>
  <h4 class="change-detail-title"> R - Killer Instinct </h4>
  <ul><li>Shield: 70 => 80</li></ul>
</div>
<div class="patch-change-block">
  <h3 class="change-title"><a href="#kaisa2">Kai Sa</a></h3>
  <p class="summary">A later block about the same key.</p>
</div>
</body></html>"##;

fn ability(name: &str, changes: &[&str]) -> AbilityChange {
    AbilityChange { name: name.to_string(), changes: changes.iter().map(|c| c.to_string()).collect() }
}

#[test]
fn card_of_a_champion_on_a_page() {
    let card = patch_card_from_page(PAGE, "Kai'Sa", "Base Stats", "25.19")
        .expect("the block selectors parse")
        .expect("the page has a block about Kai'Sa");
    let expected = PatchCard {
        champion_name: "Kai'Sa".to_string(),
        champion_image: generate_champion_image_url("Kai'Sa"),
        summary: "Buffs to W.".to_string(),
        context: "Kai'Sa has been struggling lately.".to_string(),
        abilities: vec![
            ability("Base Stats", &["Health growth: 90 => 95"]),
            ability("W - Void Seeker", &["Damage: 30 => 40", "Cooldown: 22s => 20s"]),
            ability("R - Killer Instinct", &["Shield: 70 => 80"]),
        ],
        patch_version: "25.19".to_string(),
    };
    assert_eq!(card, expected);
}

#[test]
fn champion_is_matched_by_name_key() {
    // "Kai Sa" has the key "Kaisa", as "Kai'Sa" has: the first block wins.
    let card = patch_card_from_page(PAGE, "Kai Sa", "Base Stats", "v").unwrap().unwrap();
    assert_eq!(card.champion_name, "Kai'Sa");
    // The key is case sensitive.
    assert_eq!(patch_card_from_page(PAGE, "kaisa", "Base Stats", "v").unwrap(), None);
}

#[test]
fn block_without_context_or_headings() {
    let card = patch_card_from_page(PAGE, "Ahri", "Grundwerte", "25.18").unwrap().unwrap();
    assert_eq!(card.summary, "Nerfs.");
    assert_eq!(card.context, "");
    assert_eq!(card.abilities, vec![ability("Grundwerte", &["Mana: 418 => 400"])]);
}

#[test]
fn no_block_about_the_champion() {
    assert_eq!(patch_card_from_page(PAGE, "Zed", "Base Stats", "25.19").unwrap(), None);
    assert_eq!(patch_card_from_page("", "Zed", "Base Stats", "25.19").unwrap(), None);
}

fn record(name: &str, text: &str, items: &[&str]) -> ElementRecord {
    ElementRecord {
        name: name.to_string(),
        text: text.to_string(),
        items: items.iter().map(|i| i.to_string()).collect(),
    }
}

#[test]
fn grouping_drops_headings_without_changes() {
    let details = vec![
        record("h4", "Q", &[]),
        record("h4", " W ", &[]),
        record("ul", "", &[" a ", "b"]),
        record("h4", "E", &[]),
    ];
    assert_eq!(group_ability_changes(&details, "Base"), vec![ability("W", &["a", "b"])]);
}

#[test]
fn grouping_keeps_every_item_in_order() {
    let details = vec![
        record("ul", "", &["1"]),
        record("ul", "", &["2", "3"]),
        record("h4", "Q", &[]),
        record("p", "ignored", &["not a change"]),
        record("ul", "", &["4"]),
    ];
    let groups = group_ability_changes(&details, "Base");
    let all: Vec<String> = groups.iter().flat_map(|g| g.changes.clone()).collect();
    assert_eq!(all, vec!["1", "2", "3", "4"]);
    assert!(groups.iter().all(|g| !g.changes.is_empty()));
    assert_eq!(groups[0].name, "Base");
    assert_eq!(groups[1].name, "Q");
}

#[test]
fn grouping_of_nothing_is_empty() {
    assert_eq!(group_ability_changes(&Vec::new(), "Base"), Vec::<AbilityChange>::new());
}

#[test]
fn card_from_blocks_with_missing_parts() {
    let blocks = vec![vec![vec![record("a", "Annie", &[])]]];
    let card = card_from_blocks(&blocks, "Annie", "Base", "1.0").unwrap();
    assert_eq!(card.summary, "");
    assert_eq!(card.context, "");
    assert!(card.abilities.is_empty());
    assert_eq!(card.patch_version, "1.0");
    assert_eq!(card_from_blocks(&Vec::new(), "Annie", "Base", "1.0"), None);
}

#[test]
fn default_card_is_empty() {
    let card = PatchCard::default();
    assert_eq!(card.champion_name, "");
    assert_eq!(card.champion_image.lower, "");
    assert!(card.abilities.is_empty());
}
