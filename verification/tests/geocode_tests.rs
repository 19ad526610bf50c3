use health_services::errors::AppError;
use health_services::geo::Coordinates;
use health_services::geocode::{geocode_address, geocode_url, read_geocoding};
use health_services::json::Json;

#[test]
fn geocode_url_percent_encodes_the_address() {
    assert_eq!(
        geocode_url("94105", "KEY"),
        "https://maps.googleapis.com/maps/api/geocode/json?address=94105&key=KEY"
    );
    assert_eq!(
        geocode_url("1 Main St, San José & Co.", "KEY"),
        "https://maps.googleapis.com/maps/api/geocode/json?address=1%20Main%20St%2C%20San%20Jos%C3%A9%20%26%20Co.&key=KEY"
    );
    assert_eq!(
        geocode_url("a-b_c.d~e/f", "k"),
        "https://maps.googleapis.com/maps/api/geocode/json?address=a-b_c.d~e%2Ff&key=k"
    );
}

#[test]
fn geocode_address_takes_the_first_result() {
    let answer = "{\"results\": [
        {\"geometry\": {\"location\": {\"lat\": 37.7946, \"lng\": -122.3999}}},
        {\"geometry\": {\"location\": {\"lat\": 1.0, \"lng\": 2.0}}}
    ], \"status\": \"OK\"}";
    assert_eq!(geocode_address(answer), Ok(Coordinates { lat: 377_946_000, lng: -1_223_999_000 }));
}

#[test]
fn geocode_address_reads_whole_numbers() {
    let answer = "{\"results\": [{\"geometry\": {\"location\": {\"lat\": 51, \"lng\": -1}}}]}";
    assert_eq!(geocode_address(answer), Ok(Coordinates { lat: 510_000_000, lng: -10_000_000 }));
}

#[test]
fn geocode_address_without_a_match_is_not_found() {
    assert_eq!(
        geocode_address("{\"results\": [], \"status\": \"ZERO_RESULTS\"}"),
        Err(AppError::NotFound)
    );
}

#[test]
fn geocode_address_with_an_unexpected_shape_is_an_upstream_error() {
    assert_eq!(geocode_address("not json"), Err(AppError::Upstream));
    assert_eq!(geocode_address("{}"), Err(AppError::Upstream));
    assert_eq!(geocode_address("{\"results\": 3}"), Err(AppError::Upstream));
    assert_eq!(geocode_address("{\"results\": [{}]}"), Err(AppError::Upstream));
    assert_eq!(
        geocode_address("{\"results\": [{\"geometry\": {\"location\": {\"lat\": 1.5}}}]}"),
        Err(AppError::Upstream)
    );
    assert_eq!(
        geocode_address(
            "{\"results\": [{\"geometry\": {\"location\": {\"lat\": \"1.5\", \"lng\": 2}}}]}"
        ),
        Err(AppError::Upstream)
    );
}

#[test]
fn read_geocoding_works_on_a_tree_built_by_hand() {
    let location = Json::Object(vec![
        ("lat".to_string(), Json::Number("48.8566".to_string())),
        ("lng".to_string(), Json::Number("2.3522".to_string())),
    ]);
    let geometry = Json::Object(vec![("location".to_string(), location)]);
    let result = Json::Object(vec![("geometry".to_string(), geometry)]);
    let response = Json::Object(vec![("results".to_string(), Json::Array(vec![result]))]);
    assert_eq!(read_geocoding(&response), Ok(Coordinates { lat: 488_566_000, lng: 23_522_000 }));
}

/// Percent-encoding as the contract of `geocode_url` states it: byte by
/// byte, unreserved bytes as they are, the others as `%` and two upper-case
/// hexadecimal digits.
fn encoded_by_the_rule(text: &str) -> String {
    let mut out = String::new();
    for b in text.bytes() {
        let unreserved = b.is_ascii_alphanumeric() || b == b'-' || b == b'.' || b == b'_' || b == b'~';
        if unreserved {
            out.push(b as char);
        } else {
            let hex = |d: u8| if d < 10 { (48 + d) as char } else { (55 + d) as char };
            out.push('%');
            out.push(hex(b / 16));
            out.push(hex(b % 16));
        }
    }
    out
}

#[test]
fn geocode_url_encodes_every_text_by_the_rule() {
    let alphabet: Vec<char> =
        "abzAZ059-._~ !\"#$%&'()*+,/:;<=>?@[\\]^`{|}\t\n\u{0}\u{7f}éß€日本🙂".chars().collect();
    let mut state = 5u64;
    let mut next = move || {
        state = state.wrapping_mul(6364136223846793005).wrapping_add(1442695040888963407);
        state >> 33
    };
    for _ in 0..5000 {
        let len = (next() % 12) as usize;
        let text: String = (0..len).map(|_| alphabet[(next() % alphabet.len() as u64) as usize]).collect();
        assert_eq!(
            geocode_url(&text, "KEY"),
            format!(
                "https://maps.googleapis.com/maps/api/geocode/json?address={}&key=KEY",
                encoded_by_the_rule(&text)
            ),
            "for {:?}",
            text
        );
    }
}

#[test]
fn geocode_address_reads_numbers_however_they_are_written() {
    let point = |lat: &str, lng: &str| {
        geocode_address(&format!(
            "{{\"results\": [{{\"geometry\": {{\"location\": {{\"lat\": {}, \"lng\": {}}}}}}}]}}",
            lat, lng
        ))
    };
    assert_eq!(point("0.000001", "-0.000001"), Ok(Coordinates { lat: 10, lng: -10 }));
    assert_eq!(point("1e-7", "-1E-7"), Ok(Coordinates { lat: 1, lng: -1 }));
    assert_eq!(point("3.77946e1", "-1223999e-4"), Ok(Coordinates { lat: 377_946_000, lng: -1_223_999_000 }));
    assert_eq!(point("0.0", "-0.0"), Ok(Coordinates { lat: 0, lng: 0 }));
    assert_eq!(point("90", "180"), Ok(Coordinates { lat: 900_000_000, lng: 1_800_000_000 }));
    assert_eq!(point("1e300", "0"), Err(AppError::Upstream));
    assert_eq!(point("1e400", "0"), Err(AppError::Upstream));
}
