use vstd::prelude::*;
use vstd::string::*;
use crate::encoding::{percent_encode, percent_encoded};
use crate::errors::AppError;
use crate::geo::{result_point, spec_result_point, Coordinates};
use crate::json::{json_of_text, parse_json, Json};

verus! {

/// The address of the geocoding endpoint for `address`: the address
/// percent-encoded, the credential as it is.
pub open spec fn spec_geocode_url(address: Seq<u8>, api_key: Seq<char>) -> Seq<char> {
    "https://maps.googleapis.com/maps/api/geocode/json?address="@ + percent_encoded(address)
        + "&key="@ + api_key
}

/// Builds the address of the geocoding endpoint for `address`.
pub fn geocode_url(address: &str, api_key: &str) -> (url: String)
    ensures
        url@ == spec_geocode_url(address.spec_bytes(), api_key@),
{
    let mut url = String::from_str("https://maps.googleapis.com/maps/api/geocode/json?address=");
    let encoded = percent_encode(address);
    url.append(encoded.as_str());
    url.append("&key=");
    url.append(api_key);
    url
}

/// What a geocoding answer resolves to: the point of its first result.
/// `NotFound` where the list of results is empty; `Upstream` where the answer
/// has no list of results, or the first result has no point.
pub open spec fn spec_geocoded(response: Json) -> Result<Coordinates, AppError> {
    match response.spec_member("results"@) {
        Some(Json::Array(results)) => if results@.len() == 0 {
            Err(AppError::NotFound)
        } else {
            match spec_result_point(results@[0]) {
                Some(point) => Ok(point),
                None => Err(AppError::Upstream),
            }
        },
        _ => Err(AppError::Upstream),
    }
}

/// Resolves a geocoding answer that has been read as JSON.
pub fn read_geocoding(response: &Json) -> (resolved: Result<Coordinates, AppError>)
    ensures
        resolved == spec_geocoded(*response),
{
    match response.member("results") {
        Some(list) => match list.items() {
            Some(results) => if results.len() == 0 {
                Err(AppError::NotFound)
            } else {
                match result_point(&results[0]) {
                    Some(point) => Ok(point),
                    None => Err(AppError::Upstream),
                }
            },
            None => Err(AppError::Upstream),
        },
        None => Err(AppError::Upstream),
    }
}

/// Resolves the text that the geocoding endpoint answered with: `Upstream`
/// where it is no JSON, else as `spec_geocoded` says.
pub fn geocode_address(answer: &str) -> (resolved: Result<Coordinates, AppError>)
    ensures
        resolved == match json_of_text(answer@) {
            Some(response) => spec_geocoded(response),
            None => Err(AppError::Upstream),
        },
{
    match parse_json(answer) {
        Ok(response) => read_geocoding(&response),
        Err(_) => Err(AppError::Upstream),
    }
}

} // verus!
