use health_services::geo::Coordinates;
use health_services::http::{Body, Reply};
use health_services::services::{
    category, plan_origin, services_advance, services_handler, Action, Origin, QueryParams,
    ServicesFlow, ServicesRequest,
};

fn request(zip: Option<&str>, lat: Option<i64>, lng: Option<i64>) -> ServicesRequest {
    ServicesRequest {
        query: QueryParams { zip: zip.map(String::from), lat, lng, service_type: None },
        api_key: "KEY".to_string(),
        username_cookie: None,
    }
}

fn failure(status: u16, text: &str) -> Action {
    Action::Respond(Reply {
        status,
        location: None,
        cookies: vec![],
        body: Body::Text(text.to_string()),
    })
}

const GEOCODED: &str =
    "{\"results\": [{\"geometry\": {\"location\": {\"lat\": 37.7946, \"lng\": -122.3999}}}]}";

const ONE_PLACE: &str = "{\"results\": [{
    \"name\": \"General Hospital\",
    \"vicinity\": \"1 Market St\",
    \"geometry\": {\"location\": {\"lat\": 37.7946, \"lng\": -122.3999}},
    \"types\": [\"hospital\"]
}]}";

#[test]
fn a_point_in_the_request_is_the_origin_as_it_stands() {
    for (lat, lng) in [
        (377_946_000, -1_223_999_000),
        (0, 0),
        (900_000_000, 1_800_000_000),
        (-900_000_000, -1_800_000_000),
        (i64::MAX, i64::MIN),
    ] {
        for zip in [None, Some("94105".to_string())] {
            let query = QueryParams { zip, lat: Some(lat), lng: Some(lng), service_type: None };
            assert_eq!(plan_origin(&query), Origin::Direct(Coordinates { lat, lng }));
        }
    }
}

#[test]
fn half_a_point_is_no_point() {
    let query =
        QueryParams { zip: Some("94105".to_string()), lat: Some(1), lng: None, service_type: None };
    assert_eq!(plan_origin(&query), Origin::Geocode("94105".to_string()));
    let query = QueryParams { zip: None, lat: None, lng: Some(1), service_type: None };
    assert_eq!(plan_origin(&query), Origin::Missing);
}

#[test]
fn the_category_defaults_to_hospital() {
    let mut query = QueryParams { zip: None, lat: None, lng: None, service_type: None };
    assert_eq!(category(&query), "hospital");
    query.service_type = Some("pharmacy".to_string());
    assert_eq!(category(&query), "pharmacy");
}

#[test]
fn a_request_with_a_point_bypasses_the_geocoder() {
    let request = request(Some("94105"), Some(377_946_000), Some(-1_223_999_000));
    let (flow, action) = services_handler(&request);
    assert!(matches!(
        flow,
        ServicesFlow::Searching { origin: Coordinates { lat: 377_946_000, lng: -1_223_999_000 } }
    ));
    assert_eq!(
        action,
        Action::Fetch(
            "https://maps.googleapis.com/maps/api/place/nearbysearch/json?location=37.7946000,-122.3999000&radius=10000&type=hospital&key=KEY"
                .to_string()
        )
    );
}

#[test]
fn a_request_without_zip_and_point_is_a_bad_request() {
    let (flow, action) = services_handler(&request(None, None, None));
    assert!(matches!(flow, ServicesFlow::Closed));
    assert_eq!(action, failure(400, "Please provide either a ZIP code or lat/lng"));
}

#[test]
fn a_search_by_zip_yields_the_provider_at_the_origin() {
    let request = request(Some("94105"), None, None);
    let (flow, action) = services_handler(&request);
    assert!(matches!(flow, ServicesFlow::Geocoding));
    assert_eq!(
        action,
        Action::Fetch(
            "https://maps.googleapis.com/maps/api/geocode/json?address=94105&key=KEY".to_string()
        )
    );
    let (flow, action) = services_advance(&request, flow, Some(GEOCODED));
    assert_eq!(
        action,
        Action::Fetch(
            "https://maps.googleapis.com/maps/api/place/nearbysearch/json?location=37.7946000,-122.3999000&radius=10000&type=hospital&key=KEY"
                .to_string()
        )
    );
    let (flow, action) = services_advance(&request, flow, Some(ONE_PLACE));
    assert_eq!(
        action,
        Action::Fetch(
            "https://clinicaltables.nlm.nih.gov/api/npi_org/v3/search?terms=1 Market St".to_string()
        )
    );
    let (flow, action) = services_advance(&request, flow, Some("[0, [], null, []]"));
    assert!(matches!(flow, ServicesFlow::Closed));
    match action {
        Action::Respond(Reply {
            status: 200,
            body: Body::Search { coordinates, providers, is_logged_in },
            ..
        }) => {
            assert_eq!(coordinates, Coordinates { lat: 377_946_000, lng: -1_223_999_000 });
            assert!(!is_logged_in);
            assert_eq!(providers.len(), 1);
            assert_eq!(providers[0].name, "General Hospital");
            assert_eq!(providers[0].location, coordinates);
        },
        other => panic!("unexpected action {:?}", other),
    }
}

#[test]
fn the_reply_tells_whether_the_client_is_logged_in() {
    let mut request = request(None, Some(1), Some(2));
    request.username_cookie = Some("ann".to_string());
    request.query.service_type = Some("pharmacy".to_string());
    let (flow, action) = services_handler(&request);
    assert!(matches!(&action, Action::Fetch(url) if url.contains("&type=pharmacy&")));
    let (_, action) = services_advance(&request, flow, Some("{\"results\": []}"));
    assert_eq!(
        action,
        Action::Respond(Reply {
            status: 200,
            location: None,
            cookies: vec![],
            body: Body::Search {
                coordinates: Coordinates { lat: 1, lng: 2 },
                providers: vec![],
                is_logged_in: true,
            },
        })
    );
    request.username_cookie = Some("".to_string());
    let (flow, _) = services_handler(&request);
    let (_, action) = services_advance(&request, flow, Some("{\"results\": []}"));
    assert!(matches!(
        action,
        Action::Respond(Reply { body: Body::Search { is_logged_in: false, .. }, .. })
    ));
}

#[test]
fn a_geocoder_failure_ends_the_request() {
    let request = request(Some("00000"), None, None);
    let (flow, _) = services_handler(&request);
    let (flow, action) = services_advance(&request, flow, None);
    assert!(matches!(flow, ServicesFlow::Closed));
    assert_eq!(action, failure(500, "Failed to geocode zip code"));
    let (flow, _) = services_handler(&request);
    let (_, action) = services_advance(&request, flow, Some("<html>"));
    assert_eq!(action, failure(500, "Failed to geocode zip code"));
    let (flow, _) = services_handler(&request);
    let (_, action) = services_advance(&request, flow, Some("{\"results\": [{}]}"));
    assert_eq!(action, failure(500, "Failed to geocode zip code"));
    let (flow, _) = services_handler(&request);
    let (_, action) = services_advance(&request, flow, Some("{\"results\": []}"));
    assert_eq!(action, failure(400, "Failed to geocode zip code"));
}

#[test]
fn a_search_failure_ends_the_request() {
    let request = request(None, Some(1), Some(2));
    let (flow, _) = services_handler(&request);
    let (flow, action) = services_advance(&request, flow, None);
    assert!(matches!(flow, ServicesFlow::Closed));
    assert_eq!(action, failure(500, "Failed to fetch health services"));
    let (flow, _) = services_handler(&request);
    let (_, action) = services_advance(&request, flow, Some("{}"));
    assert_eq!(action, failure(500, "Failed to fetch health services"));
}

#[test]
fn a_registry_failure_ends_the_request() {
    let request = request(None, Some(1), Some(2));
    let (flow, _) = services_handler(&request);
    let (flow, _) = services_advance(&request, flow, Some(ONE_PLACE));
    assert!(matches!(flow, ServicesFlow::Listing { .. }));
    let (flow, action) = services_advance(&request, flow, None);
    assert!(matches!(flow, ServicesFlow::Closed));
    assert_eq!(action, failure(500, "Failed to fetch health services"));
    let (flow, action) = services_advance(&request, flow, Some("[]"));
    assert!(matches!(flow, ServicesFlow::Closed));
    assert_eq!(action, failure(500, "Failed to fetch health services"));
}
