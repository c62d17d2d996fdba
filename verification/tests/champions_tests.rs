use patch_notes::champions::{
    champion_by_name, champion_names, champions_from_labels, champions_from_page,
    generate_champion_image_url, Champion, IMAGE_URL_PREFIX,
};

fn url(key: &str) -> String {
    format!("{}{}.png", IMAGE_URL_PREFIX, key)
}

#[test]
fn image_urls_use_both_keys() {
    let urls = generate_champion_image_url("Kai'Sa");
    assert_eq!(
        urls.lower,
        "https://am-a.akamaihd.net/image?f=https://ddragon.leagueoflegends.com/cdn/15.18.1/img/champion/Kaisa.png"
    );
    assert_eq!(urls.upper, url("KaiSa"));
}

#[test]
fn champion_names_are_the_two_keys() {
    let names = champion_names("Dr. Mundo");
    assert_eq!(names.lower, "Drmundo");
    assert_eq!(names.upper, "DrMundo");
}

#[test]
fn champions_from_labels_skips_missing_labels() {
    let labels = vec![Some("Ahri".to_string()), None, Some("Kai'Sa".to_string())];
    let champions = champions_from_labels(&labels);
    assert_eq!(champions.len(), 2);
    assert_eq!(champions[0].name, "Ahri");
    assert_eq!(champions[0].first_image_url, url("Ahri"));
    assert_eq!(champions[1].name, "Kai'Sa");
    assert_eq!(champions[1].first_image_url, url("Kaisa"));
    assert_eq!(champions[1].second_image_url, url("KaiSa"));
}

#[test]
fn champions_from_page_reads_card_labels() {
    let html = r#"<html><body>
        <a role="button" aria-label="Ahri" href="/ahri">Ahri</a>
        <a href="/other" aria-label="Not a card">x</a>
        <a role="button" aria-label="Dr. Mundo" href="/mundo">Dr. Mundo</a>
        <a role="button" href="/nolabel">?</a>
    </body></html>"#;
    let champions = champions_from_page(html).expect("the card selector parses");
    let names: Vec<&str> = champions.iter().map(|c| c.name.as_str()).collect();
    assert_eq!(names, vec!["Ahri", "Dr. Mundo"]);
    assert_eq!(champions[1].first_image_url, url("Drmundo"));
    assert_eq!(champions[1].second_image_url, url("DrMundo"));
}

#[test]
fn champions_from_empty_page_is_empty() {
    assert_eq!(champions_from_page("").unwrap(), Vec::<Champion>::new());
}

fn champion(name: &str) -> Champion {
    Champion { name: name.to_string(), first_image_url: String::new(), second_image_url: String::new() }
}

#[test]
fn champion_by_name_ignores_case_and_surrounding_space() {
    let list = vec![champion("Ahri"), champion(" Kai'Sa "), champion("kai'sa")];
    let found = champion_by_name(list, "  KAI'SA\n").expect("found");
    assert_eq!(found.name, " Kai'Sa ");
}

#[test]
fn champion_by_name_misses() {
    let list = vec![champion("Ahri"), champion("Annie")];
    assert_eq!(champion_by_name(list, "Zed"), None);
    assert_eq!(champion_by_name(Vec::new(), "Ahri"), None);
}
