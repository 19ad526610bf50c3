use vstd::prelude::*;
use vstd::string::*;
use crate::decimal::{decimal_digits, format_u64};
use crate::errors::AppError;
use crate::fixed::{fixed_text, format_fixed};
use crate::text::text_view;
use crate::geo::{fixed_number, result_point, spec_fixed_number, spec_result_point, Coordinates};
use crate::json::{
    item_of, json_of_text, member_of, parse_json, spec_item_of, spec_member_of,
    spec_text_of, spec_text_or_empty, spec_truth_of, text_of, text_or_empty, truth_of, Json,
};

verus! {

/// One listing that the registry holds for a provider.
#[derive(Debug, PartialEq, Eq)]
pub struct Service {
    pub name: String,
    pub npi: String,
    pub taxonomy: String,
}

/// A listing as its contract sees it.
pub struct ServiceView {
    pub name: Seq<char>,
    pub npi: Seq<char>,
    pub taxonomy: Seq<char>,
}

impl View for Service {
    type V = ServiceView;

    open spec fn view(&self) -> ServiceView {
        ServiceView { name: self.name@, npi: self.npi@, taxonomy: self.taxonomy@ }
    }
}

/// A provider near the origin of a search. `location` is where it lies; the
/// distance from the origin is derived from it and not kept. `rating` is a
/// fixed-point number.
#[derive(Debug, PartialEq, Eq)]
pub struct HealthProvider {
    pub name: String,
    pub address: String,
    pub location: Coordinates,
    pub provider_type: String,
    pub phone: Option<String>,
    pub rating: Option<i64>,
    pub photo_url: Option<String>,
    pub open_now: bool,
    pub services: Vec<Service>,
}

/// A provider as its contract sees it.
pub struct HealthProviderView {
    pub name: Seq<char>,
    pub address: Seq<char>,
    pub location: Coordinates,
    pub provider_type: Seq<char>,
    pub phone: Option<Seq<char>>,
    pub rating: Option<i64>,
    pub photo_url: Option<Seq<char>>,
    pub open_now: bool,
    pub services: Seq<ServiceView>,
}

/// The listings of a list as their contracts see them.
pub open spec fn service_views(services: Seq<Service>) -> Seq<ServiceView> {
    services.map_values(|s: Service| s@)
}

impl View for HealthProvider {
    type V = HealthProviderView;

    open spec fn view(&self) -> HealthProviderView {
        HealthProviderView {
            name: self.name@,
            address: self.address@,
            location: self.location,
            provider_type: self.provider_type@,
            phone: text_view(self.phone),
            rating: self.rating,
            photo_url: text_view(self.photo_url),
            open_now: self.open_now,
            services: service_views(self.services@),
        }
    }
}

/// The providers of a list as their contracts see them.
pub open spec fn provider_views(providers: Seq<HealthProvider>) -> Seq<HealthProviderView> {
    providers.map_values(|p: HealthProvider| p@)
}

/// The address of the nearby-search endpoint: the origin as two fixed-point
/// literals, the radius in metres, the category and the credential as they
/// are.
pub open spec fn spec_nearby_search_url(
    origin: Coordinates,
    radius_meters: u32,
    api_key: Seq<char>,
    service_type: Seq<char>,
) -> Seq<char> {
    "https://maps.googleapis.com/maps/api/place/nearbysearch/json?location="@ + fixed_text(
        origin.lat as int,
    ) + ","@ + fixed_text(origin.lng as int) + "&radius="@ + decimal_digits(radius_meters as nat)
        + "&type="@ + service_type + "&key="@ + api_key
}

/// Builds the address of the nearby-search endpoint.
pub fn nearby_search_url(
    origin: &Coordinates,
    radius_meters: u32,
    api_key: &str,
    service_type: &str,
) -> (url: String)
    ensures
        url@ == spec_nearby_search_url(*origin, radius_meters, api_key@, service_type@),
{
    let mut url = String::from_str(
        "https://maps.googleapis.com/maps/api/place/nearbysearch/json?location=",
    );
    let lat = format_fixed(origin.lat);
    let lng = format_fixed(origin.lng);
    let radius = format_u64(radius_meters as u64);
    url.append(lat.as_str());
    url.append(",");
    url.append(lng.as_str());
    url.append("&radius=");
    url.append(radius.as_str());
    url.append("&type=");
    url.append(service_type);
    url.append("&key=");
    url.append(api_key);
    url
}

/// The address from which the photo with the reference `reference` is
/// fetched; it embeds the credential.
pub open spec fn spec_photo_url(reference: Seq<char>, api_key: Seq<char>) -> Seq<char> {
    "https://maps.googleapis.com/maps/api/place/photo?maxwidth=400&photoreference="@ + reference
        + "&key="@ + api_key
}

/// Builds the address from which a photo is fetched.
pub fn photo_url(reference: &str, api_key: &str) -> (url: String)
    ensures
        url@ == spec_photo_url(reference@, api_key@),
{
    let mut url = String::from_str(
        "https://maps.googleapis.com/maps/api/place/photo?maxwidth=400&photoreference=",
    );
    url.append(reference);
    url.append("&key=");
    url.append(api_key);
    url
}

/// The address of the registry lookup for a free-text term.
pub open spec fn spec_registry_url(term: Seq<char>) -> Seq<char> {
    "https://clinicaltables.nlm.nih.gov/api/npi_org/v3/search?terms="@ + term
}

/// Builds the address of the registry lookup for a term.
pub fn registry_url(term: &str) -> (url: String)
    ensures
        url@ == spec_registry_url(term@),
{
    let mut url = String::from_str(
        "https://clinicaltables.nlm.nih.gov/api/npi_org/v3/search?terms=",
    );
    url.append(term);
    url
}

/// The photo address of a places result: that of the reference of its first
/// photo, or none where it has no such reference.
pub open spec fn spec_result_photo(result: Json, api_key: Seq<char>) -> Option<Seq<char>> {
    match spec_text_of(
        spec_member_of(spec_item_of(result.spec_member("photos"@), 0), "photo_reference"@),
    ) {
        Some(reference) => Some(spec_photo_url(reference, api_key)),
        None => None,
    }
}

/// Whether a places result says that the provider is open now; `false` where
/// it does not say.
pub open spec fn spec_result_open(result: Json) -> bool {
    match spec_truth_of(spec_member_of(result.spec_member("opening_hours"@), "open_now"@)) {
        Some(open) => open,
        None => false,
    }
}

/// The provider that a places result describes, without services. A result
/// without a point under `geometry.location` describes none. A missing name,
/// address or category is the empty text; a missing phone, rating or photo
/// is absent.
pub open spec fn spec_provider(result: Json, api_key: Seq<char>) -> Option<HealthProviderView> {
    match spec_result_point(result) {
        Some(location) => Some(
            HealthProviderView {
                name: spec_text_or_empty(result.spec_member("name"@)),
                address: spec_text_or_empty(result.spec_member("vicinity"@)),
                location,
                provider_type: spec_text_or_empty(spec_item_of(result.spec_member("types"@), 0)),
                phone: spec_text_of(result.spec_member("formatted_phone_number"@)),
                rating: spec_fixed_number(result.spec_member("rating"@)),
                photo_url: spec_result_photo(result, api_key),
                open_now: spec_result_open(result),
                services: Seq::<ServiceView>::empty(),
            },
        ),
        None => None,
    }
}

/// Reads one places result.
pub fn read_provider(result: &Json, api_key: &str) -> (provider: Option<HealthProvider>)
    ensures
        match provider {
            Some(p) => spec_provider(*result, api_key@) == Some(p@),
            None => spec_provider(*result, api_key@) is None,
        },
{
    let location = match result_point(result) {
        Some(point) => point,
        None => {
            return None;
        },
    };
    let photo = match text_of(member_of(item_of(result.member("photos"), 0), "photo_reference")) {
        Some(reference) => Some(photo_url(reference, api_key)),
        None => None,
    };
    let phone = match text_of(result.member("formatted_phone_number")) {
        Some(number) => Some(String::from_str(number)),
        None => None,
    };
    let open_now = match truth_of(member_of(result.member("opening_hours"), "open_now")) {
        Some(open) => open,
        None => false,
    };
    let provider = HealthProvider {
        name: text_or_empty(result.member("name")),
        address: text_or_empty(result.member("vicinity")),
        location,
        provider_type: text_or_empty(item_of(result.member("types"), 0)),
        phone,
        rating: fixed_number(result.member("rating")),
        photo_url: photo,
        open_now,
        services: Vec::new(),
    };
    assert(provider@.services =~= Seq::<ServiceView>::empty());
    Some(provider)
}

/// The providers that a list of places results describes, in the order of
/// the list; a result that describes none is left out.
pub open spec fn spec_providers(results: Seq<Json>, api_key: Seq<char>) -> Seq<HealthProviderView>
    decreases results.len(),
{
    if results.len() == 0 {
        Seq::<HealthProviderView>::empty()
    } else {
        let front = spec_providers(results.drop_last(), api_key);
        match spec_provider(results.last(), api_key) {
            Some(provider) => front.push(provider),
            None => front,
        }
    }
}

/// The providers of a nearby-search answer; `Upstream` where the answer has
/// no list of results.
pub open spec fn spec_found(response: Json, api_key: Seq<char>) -> Result<
    Seq<HealthProviderView>,
    AppError,
> {
    match response.spec_member("results"@) {
        Some(Json::Array(results)) => Ok(spec_providers(results@, api_key)),
        _ => Err(AppError::Upstream),
    }
}

/// Reads the providers of a nearby-search answer, each without services.
pub fn read_providers(response: &Json, api_key: &str) -> (found: Result<Vec<HealthProvider>, AppError>)
    ensures
        match found {
            Ok(providers) => spec_found(*response, api_key@) == Ok::<
                Seq<HealthProviderView>,
                AppError,
            >(provider_views(providers@)),
            Err(e) => spec_found(*response, api_key@) == Err::<Seq<HealthProviderView>, AppError>(
                e,
            ),
        },
{
    let results = match member_of(Some(response), "results") {
        Some(list) => match list.items() {
            Some(results) => results,
            None => {
                return Err(AppError::Upstream);
            },
        },
        None => {
            return Err(AppError::Upstream);
        },
    };
    let mut providers: Vec<HealthProvider> = Vec::new();
    let mut i: usize = 0;
    assert(results@.take(0) =~= Seq::<Json>::empty());
    assert(provider_views(providers@) =~= Seq::<HealthProviderView>::empty());
    while i < results.len()
        invariant
            i <= results.len(),
            provider_views(providers@) == spec_providers(results@.take(i as int), api_key@),
        decreases results.len() - i,
    {
        let ghost before = providers@;
        proof {
            assert(results@.take(i + 1).drop_last() =~= results@.take(i as int));
            assert(results@.take(i + 1).last() == results@[i as int]);
        }
        match read_provider(&results[i], api_key) {
            Some(provider) => {
                providers.push(provider);
                assert(provider_views(providers@) =~= provider_views(before).push(provider@));
            },
            None => {},
        }
        i += 1;
    }
    assert(results@.take(results.len() as int) =~= results@);
    Ok(providers)
}

/// The listing that one registry row gives: its first three cells as name,
/// identifier and taxonomy, each the empty text where the cell is no string.
/// A row that is no list, or has fewer than four cells, gives none.
pub open spec fn spec_service(row: Json) -> Option<ServiceView> {
    match row {
        Json::Array(cells) => if cells@.len() >= 4 {
            Some(
                ServiceView {
                    name: spec_text_or_empty(Some(cells@[0])),
                    npi: spec_text_or_empty(Some(cells@[1])),
                    taxonomy: spec_text_or_empty(Some(cells@[2])),
                },
            )
        } else {
            None
        },
        _ => None,
    }
}

/// The listings of a list of registry rows, in the order of the rows.
pub open spec fn spec_services(rows: Seq<Json>) -> Seq<ServiceView>
    decreases rows.len(),
{
    if rows.len() == 0 {
        Seq::<ServiceView>::empty()
    } else {
        let front = spec_services(rows.drop_last());
        match spec_service(rows.last()) {
            Some(service) => front.push(service),
            None => front,
        }
    }
}

/// The listings of a registry answer: those of the rows at index 3 of the
/// answer; none where the answer has no list of rows there.
pub open spec fn spec_npi_services(npi_data: Json) -> Seq<ServiceView> {
    match npi_data.spec_item(3) {
        Some(Json::Array(rows)) => spec_services(rows@),
        _ => Seq::<ServiceView>::empty(),
    }
}

/// Reads the listings of a registry answer.
pub fn parse_npi_data(npi_data: &Json) -> (services: Vec<Service>)
    ensures
        service_views(services@) == spec_npi_services(*npi_data),
{
    let mut services: Vec<Service> = Vec::new();
    assert(service_views(services@) =~= Seq::<ServiceView>::empty());
    let rows = match item_of(Some(npi_data), 3) {
        Some(list) => match list.items() {
            Some(rows) => rows,
            None => {
                return services;
            },
        },
        None => {
            return services;
        },
    };
    let mut i: usize = 0;
    assert(rows@.take(0) =~= Seq::<Json>::empty());
    while i < rows.len()
        invariant
            i <= rows.len(),
            service_views(services@) == spec_services(rows@.take(i as int)),
        decreases rows.len() - i,
    {
        let ghost before = services@;
        proof {
            assert(rows@.take(i + 1).drop_last() =~= rows@.take(i as int));
            assert(rows@.take(i + 1).last() == rows@[i as int]);
        }
        match rows[i].items() {
            Some(cells) => {
                if cells.len() >= 4 {
                    let service = Service {
                        name: text_or_empty(Some(&cells[0])),
                        npi: text_or_empty(Some(&cells[1])),
                        taxonomy: text_or_empty(Some(&cells[2])),
                    };
                    services.push(service);
                    assert(service_views(services@) =~= service_views(before).push(service@));
                }
            },
            None => {},
        }
        i += 1;
    }
    assert(rows@.take(rows.len() as int) =~= rows@);
    services
}

/// A provider search under way. The places directory has answered; the
/// registry is asked once for each provider, in order, and each answer fills
/// in that provider's services.
#[derive(Debug)]
pub struct ProviderSearch {
    providers: Vec<HealthProvider>,
    next: usize,
}

/// What the caller of a search does next.
#[derive(Debug, PartialEq, Eq)]
pub enum SearchStep {
    /// Fetch this address and hand the answer to `supply`.
    Lookup(String),
    /// Nothing is left to fetch: take the providers with `finish`.
    Done,
}

impl ProviderSearch {
    #[verifier::type_invariant]
    spec fn well_formed(self) -> bool {
        self.next <= self.providers@.len()
    }

    /// The providers of the search, in the order of the directory's answer.
    pub closed spec fn providers(self) -> Seq<HealthProviderView> {
        provider_views(self.providers@)
    }

    /// How many providers have their registry answer.
    pub closed spec fn supplied(self) -> nat {
        self.next as nat
    }

    /// What to do next: look up the first provider that has no registry
    /// answer yet, by its address, or stop where every provider has one.
    pub fn step(&self) -> (step: SearchStep)
        ensures
            self.supplied() <= self.providers().len(),
            match step {
                SearchStep::Lookup(url) => self.supplied() < self.providers().len() && url@
                    == spec_registry_url(self.providers()[self.supplied() as int].address),
                SearchStep::Done => self.supplied() == self.providers().len(),
            },
    {
        proof {
            use_type_invariant(self);
        }
        if self.next < self.providers.len() {
            SearchStep::Lookup(registry_url(self.providers[self.next].address.as_str()))
        } else {
            SearchStep::Done
        }
    }

    /// Takes the text that the registry answered with for the provider that
    /// `step` named. The provider gets the listings of the answer and the
    /// search moves on; the other providers stay as they are. An answer that
    /// is no JSON is an `Upstream` error and changes nothing, and so does an
    /// answer that comes when no provider is waiting for one.
    pub fn supply(&mut self, answer: &str) -> (taken: Result<(), AppError>)
        ensures
            match json_of_text(answer@) {
                Some(npi_data) => if old(self).supplied() < old(self).providers().len() {
                    &&& taken is Ok
                    &&& final(self).supplied() == old(self).supplied() + 1
                    &&& final(self).providers() == old(self).providers().update(
                        old(self).supplied() as int,
                        HealthProviderView {
                            services: spec_npi_services(npi_data),
                            ..old(self).providers()[old(self).supplied() as int]
                        },
                    )
                } else {
                    &&& taken == Err::<(), AppError>(AppError::Upstream)
                    &&& final(self).supplied() == old(self).supplied()
                    &&& final(self).providers() == old(self).providers()
                },
                None => {
                    &&& taken == Err::<(), AppError>(AppError::Upstream)
                    &&& final(self).supplied() == old(self).supplied()
                    &&& final(self).providers() == old(self).providers()
                },
            },
    {
        proof {
            use_type_invariant(&*self);
        }
        if self.next >= self.providers.len() {
            return Err(AppError::Upstream);
        }
        match parse_json(answer) {
            Ok(npi_data) => {
                let services = parse_npi_data(&npi_data);
                let i = self.next;
                let ghost before = self.providers@;
                self.providers[i].services = services;
                self.next = i + 1;
                proof {
                    assert(provider_views(self.providers@) =~= provider_views(before).update(
                        i as int,
                        HealthProviderView {
                            services: spec_npi_services(npi_data),
                            ..provider_views(before)[i as int]
                        },
                    ));
                }
                Ok(())
            },
            Err(_) => Err(AppError::Upstream),
        }
    }

    /// Ends the search and hands out its providers.
    pub fn finish(self) -> (providers: Vec<HealthProvider>)
        ensures
            provider_views(providers@) == self.providers(),
    {
        self.providers
    }
}

/// Starts a provider search on the text that the nearby-search endpoint
/// answered with. `Upstream` where the text is no JSON or has no list of
/// results; else the search holds the providers that `spec_providers` reads
/// from the results, and none of them has its registry answer yet.
pub fn find_health_providers(answer: &str, api_key: &str) -> (started: Result<
    ProviderSearch,
    AppError,
>)
    ensures
        match json_of_text(answer@) {
            Some(response) => match spec_found(response, api_key@) {
                Ok(providers) => {
                    &&& started matches Ok(search)
                    &&& search.providers() == providers
                    &&& search.supplied() == 0
                },
                Err(e) => started matches Err(f) && f == e,
            },
            None => started matches Err(f) && f == AppError::Upstream,
        },
{
    match parse_json(answer) {
        Ok(response) => match read_providers(&response, api_key) {
            Ok(providers) => Ok(ProviderSearch { providers, next: 0 }),
            Err(_) => Err(AppError::Upstream),
        },
        Err(_) => Err(AppError::Upstream),
    }
}

} // verus!
