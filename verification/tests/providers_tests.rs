use health_services::errors::AppError;
use health_services::geo::Coordinates;
use health_services::json::{parse_json, Json};
use health_services::providers::{
    find_health_providers, nearby_search_url, parse_npi_data, photo_url, read_provider,
    read_providers, registry_url, SearchStep, Service,
};

const PLACES: &str = "{\"results\": [
    {
        \"name\": \"General Hospital\",
        \"vicinity\": \"1001 Potrero Ave, San Francisco\",
        \"geometry\": {\"location\": {\"lat\": 37.7557, \"lng\": -122.4047}},
        \"types\": [\"hospital\", \"health\"],
        \"formatted_phone_number\": \"(628) 206-8000\",
        \"rating\": 3.9,
        \"photos\": [{\"photo_reference\": \"REF1\"}, {\"photo_reference\": \"REF2\"}],
        \"opening_hours\": {\"open_now\": true}
    },
    {
        \"name\": \"No Geometry Clinic\",
        \"vicinity\": \"nowhere\"
    },
    {
        \"geometry\": {\"location\": {\"lat\": 37.8, \"lng\": -122.4}}
    }
]}";

#[test]
fn nearby_search_url_spells_out_every_parameter() {
    let origin = Coordinates { lat: 377_946_000, lng: -1_223_999_000 };
    assert_eq!(
        nearby_search_url(&origin, 10000, "KEY", "hospital"),
        "https://maps.googleapis.com/maps/api/place/nearbysearch/json?location=37.7946000,-122.3999000&radius=10000&type=hospital&key=KEY"
    );
}

#[test]
fn photo_url_embeds_the_reference_and_the_credential() {
    assert_eq!(
        photo_url("REF1", "KEY"),
        "https://maps.googleapis.com/maps/api/place/photo?maxwidth=400&photoreference=REF1&key=KEY"
    );
}

#[test]
fn registry_url_carries_the_term() {
    assert_eq!(
        registry_url("1001 Potrero Ave"),
        "https://clinicaltables.nlm.nih.gov/api/npi_org/v3/search?terms=1001 Potrero Ave"
    );
}

#[test]
fn read_provider_extracts_every_field() {
    let response = parse_json(PLACES).unwrap();
    let first = response.member("results").unwrap().item(0).unwrap();
    let provider = read_provider(first, "KEY").unwrap();
    assert_eq!(provider.name, "General Hospital");
    assert_eq!(provider.address, "1001 Potrero Ave, San Francisco");
    assert_eq!(provider.location, Coordinates { lat: 377_557_000, lng: -1_224_047_000 });
    assert_eq!(provider.provider_type, "hospital");
    assert_eq!(provider.phone.as_deref(), Some("(628) 206-8000"));
    assert_eq!(provider.rating, Some(39_000_000));
    assert_eq!(
        provider.photo_url.as_deref(),
        Some("https://maps.googleapis.com/maps/api/place/photo?maxwidth=400&photoreference=REF1&key=KEY")
    );
    assert!(provider.open_now);
    assert!(provider.services.is_empty());
}

#[test]
fn read_provider_leaves_missing_fields_absent() {
    let response = parse_json(PLACES).unwrap();
    let bare = response.member("results").unwrap().item(2).unwrap();
    let provider = read_provider(bare, "KEY").unwrap();
    assert_eq!(provider.name, "");
    assert_eq!(provider.address, "");
    assert_eq!(provider.provider_type, "");
    assert_eq!(provider.phone, None);
    assert_eq!(provider.rating, None);
    assert_eq!(provider.photo_url, None);
    assert!(!provider.open_now);
}

#[test]
fn read_provider_gives_none_without_a_point() {
    let response = parse_json(PLACES).unwrap();
    let broken = response.member("results").unwrap().item(1).unwrap();
    assert_eq!(read_provider(broken, "KEY"), None);
}

#[test]
fn read_providers_skips_a_malformed_entry_and_keeps_the_rest() {
    let response = parse_json(PLACES).unwrap();
    let providers = read_providers(&response, "KEY").unwrap();
    assert_eq!(providers.len(), 2);
    assert_eq!(providers[0].name, "General Hospital");
    assert_eq!(providers[1].location, Coordinates { lat: 378_000_000, lng: -1_224_000_000 });
}

#[test]
fn read_providers_needs_a_list_of_results() {
    assert_eq!(read_providers(&parse_json("{}").unwrap(), "KEY"), Err(AppError::Upstream));
    assert_eq!(
        read_providers(&parse_json("{\"results\": {}}").unwrap(), "KEY"),
        Err(AppError::Upstream)
    );
    assert_eq!(read_providers(&parse_json("{\"results\": []}").unwrap(), "KEY"), Ok(vec![]));
}

#[test]
fn parse_npi_data_reads_the_rows_at_index_three() {
    let answer = "[2, [\"1\", \"2\"], null, [
        [\"GENERAL HOSPITAL\", \"1234567890\", \"General Acute Care Hospital\", \"1001 Potrero Ave\"],
        [\"TOO\", \"SHORT\", \"ROW\"],
        \"not a row\",
        [\"CLINIC\", 42, null, \"x\", \"y\"]
    ]]";
    let services = parse_npi_data(&parse_json(answer).unwrap());
    assert_eq!(
        services,
        vec![
            Service {
                name: "GENERAL HOSPITAL".to_string(),
                npi: "1234567890".to_string(),
                taxonomy: "General Acute Care Hospital".to_string(),
            },
            Service { name: "CLINIC".to_string(), npi: "".to_string(), taxonomy: "".to_string() },
        ]
    );
}

#[test]
fn parse_npi_data_of_another_shape_is_empty() {
    assert_eq!(parse_npi_data(&parse_json("[0, [], null]").unwrap()), vec![]);
    assert_eq!(parse_npi_data(&parse_json("[0, [], null, 5]").unwrap()), vec![]);
    assert_eq!(parse_npi_data(&parse_json("{\"3\": []}").unwrap()), vec![]);
    assert_eq!(parse_npi_data(&Json::Null), vec![]);
}

#[test]
fn a_search_asks_the_registry_for_each_provider_in_turn() {
    let mut search = find_health_providers(PLACES, "KEY").unwrap();
    assert_eq!(
        search.step(),
        SearchStep::Lookup(
            "https://clinicaltables.nlm.nih.gov/api/npi_org/v3/search?terms=1001 Potrero Ave, San Francisco"
                .to_string()
        )
    );
    assert_eq!(
        search.supply("[1, [\"1\"], null, [[\"GENERAL HOSPITAL\", \"1234567890\", \"Hospital\", \"a\"]]]"),
        Ok(())
    );
    assert_eq!(
        search.step(),
        SearchStep::Lookup(
            "https://clinicaltables.nlm.nih.gov/api/npi_org/v3/search?terms=".to_string()
        )
    );
    assert_eq!(search.supply("[0, [], null, []]"), Ok(()));
    assert_eq!(search.step(), SearchStep::Done);
    let providers = search.finish();
    assert_eq!(providers.len(), 2);
    assert_eq!(providers[0].services.len(), 1);
    assert_eq!(providers[0].services[0].npi, "1234567890");
    assert!(providers[1].services.is_empty());
}

#[test]
fn a_search_keeps_its_place_when_the_registry_answer_is_no_json() {
    let mut search = find_health_providers(PLACES, "KEY").unwrap();
    let before = search.step();
    assert_eq!(search.supply("<html>"), Err(AppError::Upstream));
    assert_eq!(search.step(), before);
}

#[test]
fn a_finished_search_takes_no_more_answers() {
    let mut search = find_health_providers("{\"results\": []}", "KEY").unwrap();
    assert_eq!(search.step(), SearchStep::Done);
    assert_eq!(search.supply("[0, [], null, []]"), Err(AppError::Upstream));
    assert_eq!(search.finish(), vec![]);
}

#[test]
fn find_health_providers_fails_on_an_unusable_answer() {
    assert!(matches!(find_health_providers("oops", "KEY"), Err(AppError::Upstream)));
    assert!(matches!(find_health_providers("{\"status\": \"OK\"}", "KEY"), Err(AppError::Upstream)));
}
