use vstd::prelude::*;
use vstd::string::*;
use crate::errors::{AppError, Endpoint};
use crate::geo::Coordinates;
use crate::geocode::{geocode_address, geocode_url, spec_geocode_url, spec_geocoded};
use crate::handlers::{logged_in, spec_logged_in};
use crate::text::{str_view, text_view};
use crate::http::{
    spec_text_reply, text_reply, Body, BodyView, CookieView, Reply, ReplyView,
};
use crate::json::json_of_text;
use crate::providers::{
    find_health_providers, nearby_search_url, spec_found, spec_nearby_search_url,
    spec_npi_services, spec_registry_url, HealthProviderView, ProviderSearch, SearchStep,
};

verus! {

/// The radius of a provider search, in metres.
pub const SEARCH_RADIUS_METERS: u32 = 10000;

/// The parameters of a search request: a postal code or address, a point as
/// two fixed-point numbers, and the category asked for.
#[derive(Debug, PartialEq, Eq)]
pub struct QueryParams {
    pub zip: Option<String>,
    pub lat: Option<i64>,
    pub lng: Option<i64>,
    pub service_type: Option<String>,
}

/// Where a search starts from.
#[derive(Debug, PartialEq, Eq)]
pub enum Origin {
    /// The request gave the point itself.
    Direct(Coordinates),
    /// The request gave a text for the geocoder.
    Geocode(String),
    /// The request gave neither.
    Missing,
}

/// An origin as its contract sees it.
pub enum OriginView {
    Direct(Coordinates),
    Geocode(Seq<char>),
    Missing,
}

impl View for Origin {
    type V = OriginView;

    open spec fn view(&self) -> OriginView {
        match *self {
            Origin::Direct(point) => OriginView::Direct(point),
            Origin::Geocode(text) => OriginView::Geocode(text@),
            Origin::Missing => OriginView::Missing,
        }
    }
}

/// Where a search with these parameters starts from. A latitude together
/// with a longitude is the origin as it stands, whether or not a postal code
/// came along; else the postal code goes to the geocoder.
pub open spec fn spec_origin(lat: Option<i64>, lng: Option<i64>, zip: Option<Seq<char>>)
    -> OriginView {
    match (lat, lng) {
        (Some(lat), Some(lng)) => OriginView::Direct(Coordinates { lat, lng }),
        _ => match zip {
            Some(text) => OriginView::Geocode(text),
            None => OriginView::Missing,
        },
    }
}

/// Decides where a search starts from.
pub fn plan_origin(query: &QueryParams) -> (origin: Origin)
    ensures
        origin@ == spec_origin(query.lat, query.lng, text_view(query.zip)),
        query.lat is Some && query.lng is Some ==> origin@ == OriginView::Direct(
            Coordinates { lat: query.lat.unwrap(), lng: query.lng.unwrap() },
        ),
{
    match (query.lat, query.lng) {
        (Some(lat), Some(lng)) => Origin::Direct(Coordinates { lat, lng }),
        _ => match &query.zip {
            Some(text) => Origin::Geocode(text.clone()),
            None => Origin::Missing,
        },
    }
}

/// The category of a search: the one asked for, or `hospital`.
pub open spec fn spec_category(service_type: Option<Seq<char>>) -> Seq<char> {
    match service_type {
        Some(category) => category,
        None => "hospital"@,
    }
}

/// The category of a search: the one asked for, or `hospital`.
pub fn category(query: &QueryParams) -> (chosen: &str)
    ensures
        chosen@ == spec_category(text_view(query.service_type)),
{
    match &query.service_type {
        Some(category) => category.as_str(),
        None => "hospital",
    }
}

/// How far the handling of a search request has come.
#[derive(Debug)]
pub enum ServicesFlow {
    /// The geocoder has been asked for the origin.
    Geocoding,
    /// The places directory has been asked for the providers round the
    /// origin.
    Searching { origin: Coordinates },
    /// The registry is being asked about one provider after the other.
    Listing { origin: Coordinates, search: ProviderSearch },
    /// The request has its reply.
    Closed,
}

/// A flow as its contract sees it.
pub enum ServicesFlowView {
    Geocoding,
    Searching { origin: Coordinates },
    Listing { origin: Coordinates, providers: Seq<HealthProviderView>, supplied: nat },
    Closed,
}

impl View for ServicesFlow {
    type V = ServicesFlowView;

    open spec fn view(&self) -> ServicesFlowView {
        match *self {
            ServicesFlow::Geocoding => ServicesFlowView::Geocoding,
            ServicesFlow::Searching { origin } => ServicesFlowView::Searching { origin },
            ServicesFlow::Listing { origin, search } => ServicesFlowView::Listing {
                origin,
                providers: search.providers(),
                supplied: search.supplied(),
            },
            ServicesFlow::Closed => ServicesFlowView::Closed,
        }
    }
}

/// What the caller does next for a search request.
#[derive(Debug, PartialEq, Eq)]
pub enum Action {
    /// Fetch this address and hand the body of the answer, or its failure,
    /// to `services_advance`.
    Fetch(String),
    /// Send this reply; the request is done.
    Respond(Reply),
}

/// An action as its contract sees it.
pub enum ActionView {
    Fetch(Seq<char>),
    Respond(ReplyView),
}

impl View for Action {
    type V = ActionView;

    open spec fn view(&self) -> ActionView {
        match *self {
            Action::Fetch(url) => ActionView::Fetch(url@),
            Action::Respond(reply) => ActionView::Respond(reply@),
        }
    }
}

/// What stays the same through the handling of one search request.
#[derive(Debug, PartialEq, Eq)]
pub struct ServicesRequest {
    pub query: QueryParams,
    pub api_key: String,
    pub username_cookie: Option<String>,
}

/// A search request as its contract sees it.
pub struct ServicesRequestView {
    pub lat: Option<i64>,
    pub lng: Option<i64>,
    pub zip: Option<Seq<char>>,
    pub service_type: Option<Seq<char>>,
    pub api_key: Seq<char>,
    pub username_cookie: Option<Seq<char>>,
}

impl View for ServicesRequest {
    type V = ServicesRequestView;

    open spec fn view(&self) -> ServicesRequestView {
        ServicesRequestView {
            lat: self.query.lat,
            lng: self.query.lng,
            zip: text_view(self.query.zip),
            service_type: text_view(self.query.service_type),
            api_key: self.api_key@,
            username_cookie: text_view(self.username_cookie),
        }
    }
}

/// The reply that ends a search request in failure.
pub open spec fn spec_failure(status: u16, text: Seq<char>) -> (ServicesFlowView, ActionView) {
    (ServicesFlowView::Closed, ActionView::Respond(spec_text_reply(status, text)))
}

/// The reply that carries the providers of a search.
pub open spec fn spec_search_reply(
    origin: Coordinates,
    providers: Seq<HealthProviderView>,
    is_logged_in: bool,
) -> ReplyView {
    ReplyView {
        status: 200,
        location: None,
        cookies: Seq::<CookieView>::empty(),
        body: BodyView::Search { coordinates: origin, providers, is_logged_in },
    }
}

/// Asking the places directory for the providers round `origin`.
pub open spec fn spec_search_from(request: ServicesRequestView, origin: Coordinates) -> (
    ServicesFlowView,
    ActionView,
) {
    (
        ServicesFlowView::Searching { origin },
        ActionView::Fetch(
            spec_nearby_search_url(
                origin,
                SEARCH_RADIUS_METERS,
                request.api_key,
                spec_category(request.service_type),
            ),
        ),
    )
}

/// Going on with a search of which `supplied` providers have their registry
/// answer: the registry is asked about the next one, by its address; where
/// none is left, the reply goes out with all of them.
pub open spec fn spec_listing(
    request: ServicesRequestView,
    origin: Coordinates,
    providers: Seq<HealthProviderView>,
    supplied: nat,
) -> (ServicesFlowView, ActionView) {
    if supplied < providers.len() {
        (
            ServicesFlowView::Listing { origin, providers, supplied },
            ActionView::Fetch(spec_registry_url(providers[supplied as int].address)),
        )
    } else {
        (
            ServicesFlowView::Closed,
            ActionView::Respond(
                spec_search_reply(origin, providers, spec_logged_in(request.username_cookie)),
            ),
        )
    }
}

/// The first step of a search request. With a point in the request the
/// places directory is asked at once and the geocoder is not; with a postal
/// code the geocoder is asked; with neither the reply is 400.
pub open spec fn spec_services_begin(request: ServicesRequestView) -> (
    ServicesFlowView,
    ActionView,
) {
    match spec_origin(request.lat, request.lng, request.zip) {
        OriginView::Direct(origin) => spec_search_from(request, origin),
        OriginView::Geocode(text) => (
            ServicesFlowView::Geocoding,
            ActionView::Fetch(spec_geocode_url(vstd::utf8::encode_utf8(text), request.api_key)),
        ),
        OriginView::Missing => spec_failure(
            AppError::Validation.spec_status(Endpoint::Services),
            "Please provide either a ZIP code or lat/lng"@,
        ),
    }
}

/// The step after an answer. `answer` is the body that the last fetch
/// brought, or `None` where the fetch failed.
///
/// From the geocoder: a failed fetch or an unusable answer is 500, no match
/// is 400, else the places directory is asked for the providers round the
/// point. From the places directory: a failed fetch or an unusable answer is
/// 500, else the listing starts. From the registry: a failed fetch or an
/// answer that is no JSON is 500, else the provider in turn gets the
/// listings of the answer and the listing goes on. A closed flow stays
/// closed and answers 500.
pub open spec fn spec_services_advance(
    request: ServicesRequestView,
    flow: ServicesFlowView,
    answer: Option<Seq<char>>,
) -> (ServicesFlowView, ActionView) {
    match flow {
        ServicesFlowView::Geocoding => match answer {
            Some(text) => match json_of_text(text) {
                Some(response) => match spec_geocoded(response) {
                    Ok(origin) => spec_search_from(request, origin),
                    Err(e) => spec_failure(
                        e.spec_status(Endpoint::Services),
                        "Failed to geocode zip code"@,
                    ),
                },
                None => spec_failure(
                    AppError::Upstream.spec_status(Endpoint::Services),
                    "Failed to geocode zip code"@,
                ),
            },
            None => spec_failure(
                AppError::Upstream.spec_status(Endpoint::Services),
                "Failed to geocode zip code"@,
            ),
        },
        ServicesFlowView::Searching { origin } => match answer {
            Some(text) => match json_of_text(text) {
                Some(response) => match spec_found(response, request.api_key) {
                    Ok(providers) => spec_listing(request, origin, providers, 0),
                    Err(_) => spec_search_failure(),
                },
                None => spec_search_failure(),
            },
            None => spec_search_failure(),
        },
        ServicesFlowView::Listing { origin, providers, supplied } => match answer {
            Some(text) => match json_of_text(text) {
                Some(npi_data) => if supplied < providers.len() {
                    spec_listing(
                        request,
                        origin,
                        providers.update(
                            supplied as int,
                            HealthProviderView {
                                services: spec_npi_services(npi_data),
                                ..providers[supplied as int]
                            },
                        ),
                        supplied + 1,
                    )
                } else {
                    spec_search_failure()
                },
                None => spec_search_failure(),
            },
            None => spec_search_failure(),
        },
        ServicesFlowView::Closed => spec_search_failure(),
    }
}

/// The reply that ends a search request when the places directory or the
/// registry failed: the status of an `Upstream` error, which is 500.
pub open spec fn spec_search_failure() -> (ServicesFlowView, ActionView) {
    spec_failure(
        AppError::Upstream.spec_status(Endpoint::Services),
        "Failed to fetch health services"@,
    )
}

fn search_failure() -> (next: (ServicesFlow, Action))
    ensures
        (next.0@, next.1@) == spec_search_failure(),
{
    failure(AppError::Upstream.status(Endpoint::Services), "Failed to fetch health services")
}

fn failure(status: u16, text: &str) -> (next: (ServicesFlow, Action))
    ensures
        (next.0@, next.1@) == spec_failure(status, text@),
{
    (ServicesFlow::Closed, Action::Respond(text_reply(status, text)))
}

fn search_from(request: &ServicesRequest, origin: Coordinates) -> (next: (ServicesFlow, Action))
    ensures
        (next.0@, next.1@) == spec_search_from(request@, origin),
{
    let url = nearby_search_url(
        &origin,
        SEARCH_RADIUS_METERS,
        request.api_key.as_str(),
        category(&request.query),
    );
    (ServicesFlow::Searching { origin }, Action::Fetch(url))
}

fn listing(request: &ServicesRequest, origin: Coordinates, search: ProviderSearch) -> (next: (
    ServicesFlow,
    Action,
))
    ensures
        (next.0@, next.1@) == spec_listing(request@, origin, search.providers(), search.supplied()),
{
    match search.step() {
        SearchStep::Lookup(url) => (ServicesFlow::Listing { origin, search }, Action::Fetch(url)),
        SearchStep::Done => {
            let is_logged_in = match &request.username_cookie {
                Some(name) => logged_in(Some(name.as_str())),
                None => logged_in(None),
            };
            let providers = search.finish();
            let reply = Reply {
                status: 200,
                location: None,
                cookies: Vec::new(),
                body: Body::Search { coordinates: origin, providers, is_logged_in },
            };
            assert(reply@.cookies =~= Seq::<CookieView>::empty());
            (ServicesFlow::Closed, Action::Respond(reply))
        },
    }
}

/// Starts the handling of a search request.
pub fn services_handler(request: &ServicesRequest) -> (next: (ServicesFlow, Action))
    ensures
        (next.0@, next.1@) == spec_services_begin(request@),
{
    match plan_origin(&request.query) {
        Origin::Direct(origin) => search_from(request, origin),
        Origin::Geocode(text) => {
            let url = geocode_url(text.as_str(), request.api_key.as_str());
            (ServicesFlow::Geocoding, Action::Fetch(url))
        },
        Origin::Missing => failure(
            AppError::Validation.status(Endpoint::Services),
            "Please provide either a ZIP code or lat/lng",
        ),
    }
}

/// Takes the handling of a search request one step on, with the answer to
/// the fetch that the step before asked for.
pub fn services_advance(request: &ServicesRequest, flow: ServicesFlow, answer: Option<&str>) -> (next:
    (ServicesFlow, Action))
    ensures
        (next.0@, next.1@) == spec_services_advance(request@, flow@, str_view(answer)),
{
    match flow {
        ServicesFlow::Geocoding => match answer {
            Some(text) => match geocode_address(text) {
                Ok(origin) => search_from(request, origin),
                Err(e) => failure(e.status(Endpoint::Services), "Failed to geocode zip code"),
            },
            None => failure(
                AppError::Upstream.status(Endpoint::Services),
                "Failed to geocode zip code",
            ),
        },
        ServicesFlow::Searching { origin } => match answer {
            Some(text) => match find_health_providers(text, request.api_key.as_str()) {
                Ok(search) => listing(request, origin, search),
                Err(_) => search_failure(),
            },
            None => search_failure(),
        },
        ServicesFlow::Listing { origin, search } => match answer {
            Some(text) => {
                let mut search = search;
                match search.supply(text) {
                    Ok(_) => listing(request, origin, search),
                    Err(_) => search_failure(),
                }
            },
            None => search_failure(),
        },
        ServicesFlow::Closed => search_failure(),
    }
}

/// A request that gives a latitude and a longitude starts from that point
/// as it stands, whatever else it gives: the first fetch goes to the places
/// directory, for the providers round that very point, and the geocoder is
/// not asked.
pub proof fn law_point_is_used_verbatim(request: ServicesRequestView, lat: i64, lng: i64)
    requires
        request.lat == Some(lat),
        request.lng == Some(lng),
    ensures
        spec_origin(request.lat, request.lng, request.zip) == OriginView::Direct(
            Coordinates { lat, lng },
        ),
        spec_services_begin(request) == spec_search_from(request, Coordinates { lat, lng }),
        spec_services_begin(request).0 == (ServicesFlowView::Searching {
            origin: Coordinates { lat, lng },
        }),
{
}

/// Feeding a flow the answers to its fetches, one after the other: the
/// state after the last answer, or the state that replied, whichever comes
/// first.
pub open spec fn spec_feed(
    request: ServicesRequestView,
    state: (ServicesFlowView, ActionView),
    answers: Seq<Option<Seq<char>>>,
) -> (ServicesFlowView, ActionView)
    decreases answers.len(),
{
    if answers.len() == 0 || state.1 is Respond {
        state
    } else {
        spec_feed(
            request,
            spec_services_advance(request, state.0, answers[0]),
            answers.drop_first(),
        )
    }
}

/// Every answer arrived and is JSON.
pub open spec fn all_json(answers: Seq<Option<Seq<char>>>) -> bool {
    forall|i: int|
        0 <= i < answers.len() ==> (#[trigger] answers[i]) is Some && json_of_text(
            answers[i].unwrap(),
        ) is Some
}

/// The providers after the registry answered for those from `from` on: each
/// of them carries the listings of its own answer.
pub open spec fn spec_filled(
    providers: Seq<HealthProviderView>,
    from: nat,
    answers: Seq<Option<Seq<char>>>,
) -> Seq<HealthProviderView>
    decreases answers.len(),
{
    if answers.len() == 0 || from >= providers.len() {
        providers
    } else {
        spec_filled(
            providers.update(
                from as int,
                HealthProviderView {
                    services: spec_npi_services(json_of_text(answers[0].unwrap()).unwrap()),
                    ..providers[from as int]
                },
            ),
            from + 1,
            answers.drop_first(),
        )
    }
}

/// What `spec_filled` does to each provider: those before `from` stay as
/// they are; the one at `from + i` keeps everything but its services, which
/// are the listings of answer `i`.
pub proof fn lemma_filled(
    providers: Seq<HealthProviderView>,
    from: nat,
    answers: Seq<Option<Seq<char>>>,
)
    requires
        from + answers.len() <= providers.len(),
    ensures
        spec_filled(providers, from, answers).len() == providers.len(),
        forall|k: int|
            0 <= k < from ==> spec_filled(providers, from, answers)[k] == providers[k],
        forall|k: int|
            from + answers.len() <= k < providers.len() ==> spec_filled(
                providers,
                from,
                answers,
            )[k] == providers[k],
        forall|i: int|
            0 <= i < answers.len() ==> spec_filled(providers, from, answers)[from + i] == (
            HealthProviderView {
                services: spec_npi_services(json_of_text((#[trigger] answers[i]).unwrap()).unwrap()),
                ..providers[from + i]
            }),
    decreases answers.len(),
{
    if answers.len() > 0 {
        let next = providers.update(
            from as int,
            HealthProviderView {
                services: spec_npi_services(json_of_text(answers[0].unwrap()).unwrap()),
                ..providers[from as int]
            },
        );
        let rest = answers.drop_first();
        lemma_filled(next, from + 1, rest);
        let filled = spec_filled(providers, from, answers);
        assert(filled == spec_filled(next, from + 1, rest));
        assert forall|k: int| 0 <= k < from implies filled[k] == providers[k] by {
            assert(filled[k] == next[k]);
        }
        assert forall|k: int| from + answers.len() <= k < providers.len() implies filled[k]
            == providers[k] by {
            assert(filled[k] == next[k]);
        }
        assert forall|i: int| 0 <= i < answers.len() implies filled[from + i] == (
        HealthProviderView {
            services: spec_npi_services(json_of_text((#[trigger] answers[i]).unwrap()).unwrap()),
            ..providers[from + i]
        }) by {
            if i > 0 {
                assert(rest[i - 1] == answers[i]);
                assert(filled[(from + 1) + (i - 1)] == (HealthProviderView {
                    services: spec_npi_services(json_of_text(rest[i - 1].unwrap()).unwrap()),
                    ..next[(from + 1) + (i - 1)]
                }));
            }
        }
    }
}

/// A listing that gets a JSON answer for each provider that waits for one
/// ends in the reply 200, with the origin and with every provider of the
/// search, in order, each with the listings of its own answer.
pub proof fn law_listing_runs_to_the_reply(
    request: ServicesRequestView,
    origin: Coordinates,
    providers: Seq<HealthProviderView>,
    supplied: nat,
    answers: Seq<Option<Seq<char>>>,
)
    requires
        supplied + answers.len() == providers.len(),
        all_json(answers),
    ensures
        spec_feed(request, spec_listing(request, origin, providers, supplied), answers) == (
            ServicesFlowView::Closed,
            ActionView::Respond(
                spec_search_reply(
                    origin,
                    spec_filled(providers, supplied, answers),
                    spec_logged_in(request.username_cookie),
                ),
            ),
        ),
    decreases answers.len(),
{
    if answers.len() > 0 {
        let rest = answers.drop_first();
        let next = providers.update(
            supplied as int,
            HealthProviderView {
                services: spec_npi_services(json_of_text(answers[0].unwrap()).unwrap()),
                ..providers[supplied as int]
            },
        );
        assert(answers[0] is Some);
        assert forall|i: int| 0 <= i < rest.len() implies (#[trigger] rest[i]) is Some
            && json_of_text(rest[i].unwrap()) is Some by {
            assert(rest[i] == answers[i + 1]);
        }
        law_listing_runs_to_the_reply(request, origin, next, supplied + 1, rest);
        let state = spec_listing(request, origin, providers, supplied);
        assert(state.0 == (ServicesFlowView::Listing { origin, providers, supplied }));
        assert(spec_services_advance(request, state.0, answers[0]) == spec_listing(
            request,
            origin,
            next,
            supplied + 1,
        ));
    }
}

/// A search by postal code, from the first step to the reply. Where the
/// geocoder's answer resolves to a point, the directory's answer holds a
/// list of results, and the registry answers with JSON for each provider of
/// the list, the reply is 200 and carries that point as the origin and the
/// providers of the list, each with the listings of its own registry
/// answer. A provider that lies at the point resolved has the origin as its
/// location.
pub proof fn law_search_by_zip_runs_to_the_reply(
    request: ServicesRequestView,
    geocoded: Seq<char>,
    found: Seq<char>,
    answers: Seq<Option<Seq<char>>>,
)
    requires
        request.lat is None || request.lng is None,
        request.zip is Some,
        json_of_text(geocoded) is Some,
        spec_geocoded(json_of_text(geocoded).unwrap()) is Ok,
        json_of_text(found) is Some,
        spec_found(json_of_text(found).unwrap(), request.api_key) is Ok,
        answers.len() == spec_found(json_of_text(found).unwrap(), request.api_key).unwrap().len(),
        all_json(answers),
    ensures
        spec_feed(
            request,
            spec_services_begin(request),
            seq![Some(geocoded), Some(found)] + answers,
        ) == (
            ServicesFlowView::Closed,
            ActionView::Respond(
                spec_search_reply(
                    spec_geocoded(json_of_text(geocoded).unwrap()).unwrap(),
                    spec_filled(
                        spec_found(json_of_text(found).unwrap(), request.api_key).unwrap(),
                        0,
                        answers,
                    ),
                    spec_logged_in(request.username_cookie),
                ),
            ),
        ),
{
    let origin = spec_geocoded(json_of_text(geocoded).unwrap()).unwrap();
    let providers = spec_found(json_of_text(found).unwrap(), request.api_key).unwrap();
    let all = seq![Some(geocoded), Some(found)] + answers;
    let begun = spec_services_begin(request);
    assert(begun.0 == ServicesFlowView::Geocoding);
    assert(begun.1 is Fetch);
    let searching = spec_services_advance(request, begun.0, all[0]);
    assert(searching == spec_search_from(request, origin));
    assert(all.drop_first() =~= seq![Some(found)] + answers);
    let listing = spec_services_advance(request, searching.0, all.drop_first()[0]);
    assert(listing == spec_listing(request, origin, providers, 0));
    assert(all.drop_first().drop_first() =~= answers);
    law_listing_runs_to_the_reply(request, origin, providers, 0, answers);
    assert(spec_feed(request, begun, all) == spec_feed(request, searching, all.drop_first()));
    if listing.1 is Respond {
        assert(answers.len() == 0);
    }
    assert(spec_feed(request, searching, all.drop_first()) == spec_feed(
        request,
        listing,
        answers,
    ));
}

} // verus!
