//! Geocoding decisions: query preparation, reading provider responses into
//! a place name and address, errors, API key requirements, and the cache of
//! resolved queries.
use vstd::prelude::*;

use crate::config::{opt_text, GeocoderProvider};
use crate::text::{
    ascii_lower, concat, is_ascii_text, is_blank, lemma_trim_ascii, lowercase, owned, same_text,
    split_on, split_text, to_lowercase, trim, trim_text, views,
};

verus! {

/// Errors of geocoding. The network, I/O and JSON variants carry the message
/// of the failure that the caller met; `InvalidCoordinate` carries the
/// message of the coordinate validation that failed.
#[derive(Debug)]
pub enum GeocodeError {
    NotFound(String),
    Network(String),
    InvalidCoordinate(String),
    RateLimited,
    ParseError(String),
    Io(String),
    Json(String),
    MissingApiKey(String),
    Service(String),
}

/// The message that a geocoding error shows.
pub open spec fn geocode_error_text(e: GeocodeError) -> Seq<char> {
    match e {
        GeocodeError::NotFound(q) => "Location not found for query: '"@ + q@ + "'"@,
        GeocodeError::Network(m) => "Network error: "@ + m@,
        GeocodeError::InvalidCoordinate(m) => "Invalid coordinate returned: "@ + m@,
        GeocodeError::RateLimited => "Rate limit exceeded by geocoding provider (HTTP 429). Please wait a moment."@,
        GeocodeError::ParseError(m) => "Failed to parse geocoding response: "@ + m@,
        GeocodeError::Io(m) => "I/O error with cache: "@ + m@,
        GeocodeError::Json(m) => "JSON serialization error: "@ + m@,
        GeocodeError::MissingApiKey(p) => "API key required for provider '"@ + p@
            + "'. Pass --api-key <KEY> or set environment variable."@,
        GeocodeError::Service(m) => "Geocoding service error: "@ + m@,
    }
}

impl GeocodeError {
    /// The message that the error shows.
    pub fn to_string(&self) -> (r: String)
        ensures
            r@ == geocode_error_text(*self),
    {
        match self {
            GeocodeError::NotFound(q) => {
                let mut r = concat("Location not found for query: '", q.as_str());
                r.append("'");
                r
            },
            GeocodeError::Network(m) => concat("Network error: ", m.as_str()),
            GeocodeError::InvalidCoordinate(m) => concat("Invalid coordinate returned: ", m.as_str()),
            GeocodeError::RateLimited => owned(
                "Rate limit exceeded by geocoding provider (HTTP 429). Please wait a moment.",
            ),
            GeocodeError::ParseError(m) => concat("Failed to parse geocoding response: ", m.as_str()),
            GeocodeError::Io(m) => concat("I/O error with cache: ", m.as_str()),
            GeocodeError::Json(m) => concat("JSON serialization error: ", m.as_str()),
            GeocodeError::MissingApiKey(p) => {
                let mut r = concat("API key required for provider '", p.as_str());
                r.append("'. Pass --api-key <KEY> or set environment variable.");
                r
            },
            GeocodeError::Service(m) => concat("Geocoding service error: ", m.as_str()),
        }
    }
}

/// A place as a geocoder names it.
pub struct Place {
    pub name: String,
    pub address: String,
}

/// The first comma-separated part of a text, trimmed.
pub open spec fn first_segment(text: Seq<char>) -> Seq<char> {
    trim(split_on(text, ',')[0])
}

/// The first comma-separated part of a text, trimmed.
pub fn first_segment_of(text: &str) -> (r: String)
    ensures
        r@ == first_segment(text@),
{
    let parts = split_text(text, ',');
    proof {
        crate::text::lemma_split_on_nonempty(text@, ',');
        assert(views(parts@)[0] == parts@[0]@);
    }
    trim_text(parts[0].as_str())
}

/// The query to send: the trimmed text; a blank query finds nothing.
pub fn prepare_query(query: &str) -> (r: Result<String, GeocodeError>)
    ensures
        is_blank(query@) ==> (r matches Err(GeocodeError::NotFound(m)) && m@ == "Empty query provided"@),
        !is_blank(query@) ==> (r matches Ok(q) && q@ == trim(query@)),
{
    let t = trim_text(query);
    if t.as_str().is_empty() {
        Err(GeocodeError::NotFound(owned("Empty query provided")))
    } else {
        Ok(t)
    }
}

/// Whether an HTTP status code means success (200 to 299).
pub open spec fn is_success_code(code: u16) -> bool {
    200 <= code <= 299
}

/// Checks an HTTP status with rate-limit detection.
pub fn check_status(code: u16, status_text: &str, context: &str) -> (r: Result<(), GeocodeError>)
    ensures
        code == 429 ==> r matches Err(GeocodeError::RateLimited),
        code != 429 && !is_success_code(code) ==> (r matches Err(GeocodeError::Service(m)) && m@
            == context@ + status_text@),
        is_success_code(code) ==> r is Ok,
{
    if code == 429 {
        Err(GeocodeError::RateLimited)
    } else {
        check_success(code, status_text, context)
    }
}

/// Checks that an HTTP status is a success.
pub fn check_success(code: u16, status_text: &str, context: &str) -> (r: Result<(), GeocodeError>)
    ensures
        !is_success_code(code) ==> (r matches Err(GeocodeError::Service(m)) && m@ == context@
            + status_text@),
        is_success_code(code) ==> r is Ok,
{
    if 200 <= code && code <= 299 {
        Ok(())
    } else {
        Err(GeocodeError::Service(concat(context, status_text)))
    }
}

/// The text before the status in a service error, per provider and direction.
pub open spec fn status_context_text(provider: GeocoderProvider, reverse: bool) -> Seq<char> {
    match (provider, reverse) {
        (GeocoderProvider::Nominatim, false) => "HTTP status: "@,
        (GeocoderProvider::Nominatim, true) => "Reverse geocode HTTP status: "@,
        (GeocoderProvider::Locationiq, false) => "LocationIQ HTTP status: "@,
        (GeocoderProvider::Locationiq, true) => "LocationIQ reverse HTTP status: "@,
        (GeocoderProvider::Mapbox, false) => "Mapbox HTTP status: "@,
        (GeocoderProvider::Mapbox, true) => "Mapbox reverse HTTP status: "@,
        (GeocoderProvider::Opencage, false) => "OpenCage HTTP status: "@,
        (GeocoderProvider::Opencage, true) => "OpenCage reverse HTTP status: "@,
        (GeocoderProvider::Google, false) => "Google Maps HTTP status: "@,
        (GeocoderProvider::Google, true) => "Google Maps reverse HTTP status: "@,
    }
}

/// The text before the status in a service error, per provider and direction.
pub fn status_context(provider: GeocoderProvider, reverse: bool) -> (r: &'static str)
    ensures
        r@ == status_context_text(provider, reverse),
{
    match (provider, reverse) {
        (GeocoderProvider::Nominatim, false) => "HTTP status: ",
        (GeocoderProvider::Nominatim, true) => "Reverse geocode HTTP status: ",
        (GeocoderProvider::Locationiq, false) => "LocationIQ HTTP status: ",
        (GeocoderProvider::Locationiq, true) => "LocationIQ reverse HTTP status: ",
        (GeocoderProvider::Mapbox, false) => "Mapbox HTTP status: ",
        (GeocoderProvider::Mapbox, true) => "Mapbox reverse HTTP status: ",
        (GeocoderProvider::Opencage, false) => "OpenCage HTTP status: ",
        (GeocoderProvider::Opencage, true) => "OpenCage reverse HTTP status: ",
        (GeocoderProvider::Google, false) => "Google Maps HTTP status: ",
        (GeocoderProvider::Google, true) => "Google Maps reverse HTTP status: ",
    }
}

/// The error for a coordinate text that does not parse as a number.
pub fn coordinate_parse_error(provider: GeocoderProvider, latitude: bool, text: &str) -> (r:
    GeocodeError)
    ensures
        r matches GeocodeError::ParseError(m) && m@ == match (provider, latitude) {
            (GeocoderProvider::Locationiq, true) => "Invalid latitude: "@,
            (GeocoderProvider::Locationiq, false) => "Invalid longitude: "@,
            (_, true) => "Invalid latitude string: "@,
            (_, false) => "Invalid longitude string: "@,
        } + text@,
{
    let prefix = match (provider, latitude) {
        (GeocoderProvider::Locationiq, true) => "Invalid latitude: ",
        (GeocoderProvider::Locationiq, false) => "Invalid longitude: ",
        (_, true) => "Invalid latitude string: ",
        (_, false) => "Invalid longitude string: ",
    };
    GeocodeError::ParseError(concat(prefix, text))
}

/// The address details of a Nominatim-style result.
pub struct NominatimAddress {
    pub road: Option<String>,
    pub suburb: Option<String>,
    pub city: Option<String>,
    pub town: Option<String>,
    pub village: Option<String>,
    pub county: Option<String>,
    pub state: Option<String>,
    pub country: Option<String>,
    pub postcode: Option<String>,
}

/// A Nominatim-style search or reverse result; coordinates stay text.
pub struct NominatimItem {
    pub name: Option<String>,
    pub display_name: Option<String>,
    pub lat: String,
    pub lon: String,
    pub address: Option<NominatimAddress>,
}

/// A place name from an optional name: the name unless it is missing or
/// blank, otherwise the first part of the display text.
pub open spec fn name_or_first_segment(name: Option<Seq<char>>, display: Seq<char>) -> Seq<char> {
    match name {
        Some(n) => if is_blank(n) {
            first_segment(display)
        } else {
            n
        },
        None => first_segment(display),
    }
}

/// A place name from an optional name and a display text.
pub fn name_or_first_part(name: &Option<String>, display: &str) -> (r: String)
    ensures
        r@ == name_or_first_segment(opt_text(*name), display@),
{
    match name {
        Some(n) => {
            let t = trim_text(n.as_str());
            if t.as_str().is_empty() {
                first_segment_of(display)
            } else {
                n.clone()
            }
        },
        None => first_segment_of(display),
    }
}

/// The parts of a detailed address, in order: road, suburb, the first of
/// city, town, village and county, state, and country (with " - " and the
/// postcode when there is one).
pub open spec fn address_parts(
    road: Option<Seq<char>>,
    suburb: Option<Seq<char>>,
    city: Option<Seq<char>>,
    town: Option<Seq<char>>,
    village: Option<Seq<char>>,
    county: Option<Seq<char>>,
    state: Option<Seq<char>>,
    country: Option<Seq<char>>,
    postcode: Option<Seq<char>>,
) -> Seq<Seq<char>> {
    let place = if city is Some {
        city
    } else if town is Some {
        town
    } else if village is Some {
        village
    } else {
        county
    };
    opt_seq(road) + opt_seq(suburb) + opt_seq(place) + opt_seq(state) + match country {
        Some(c) => match postcode {
            Some(p) => seq![c + " - "@ + p],
            None => seq![c],
        },
        None => Seq::<Seq<char>>::empty(),
    }
}

/// The element of an optional value, as a sequence of zero or one.
pub open spec fn opt_seq(o: Option<Seq<char>>) -> Seq<Seq<char>> {
    match o {
        Some(x) => seq![x],
        None => Seq::empty(),
    }
}

/// Parts joined with ", ".
pub open spec fn join_comma(parts: Seq<Seq<char>>) -> Seq<char>
    decreases parts.len(),
{
    if parts.len() == 0 {
        Seq::empty()
    } else if parts.len() == 1 {
        parts[0]
    } else {
        join_comma(parts.drop_last()) + ", "@ + parts.last()
    }
}

/// The address that a detailed Nominatim result shows: its parts joined by
/// ", ", or the display text when it has none.
pub open spec fn detailed_address(a: NominatimAddress, display: Seq<char>) -> Seq<char> {
    let parts = address_parts(
        opt_text(a.road),
        opt_text(a.suburb),
        opt_text(a.city),
        opt_text(a.town),
        opt_text(a.village),
        opt_text(a.county),
        opt_text(a.state),
        opt_text(a.country),
        opt_text(a.postcode),
    );
    if parts.len() == 0 {
        display
    } else {
        join_comma(parts)
    }
}

/// Appends the value of an option, if it holds one.
fn push_opt(parts: &mut Vec<String>, o: &Option<String>)
    ensures
        views(final(parts)@) == views(old(parts)@) + opt_seq(opt_text(*o)),
{
    let ghost before = views(parts@);
    if let Some(x) = o {
        parts.push(x.clone());
        assert(views(parts@) =~= before + seq![x@]);
    } else {
        assert(views(parts@) =~= before + Seq::<Seq<char>>::empty());
    }
}

/// Parts joined with ", ".
pub fn join_with_comma(parts: &Vec<String>) -> (r: String)
    ensures
        r@ == join_comma(views(parts@)),
{
    let ghost ps = views(parts@);
    if parts.len() == 0 {
        return String::new();
    }
    let mut out = parts[0].clone();
    assert(ps.take(1) =~= seq![ps[0]]);
    let mut j: usize = 1;
    while j < parts.len()
        invariant
            ps == views(parts@),
            1 <= j <= parts.len(),
            out@ == join_comma(ps.take(j as int)),
        decreases parts.len() - j,
    {
        out.append(", ");
        out.append(parts[j].as_str());
        assert(ps.take(j + 1).drop_last() =~= ps.take(j as int));
        j = j + 1;
    }
    assert(ps.take(parts.len() as int) =~= ps);
    out
}

/// The address that a detailed Nominatim result shows.
pub fn detailed_address_of(a: &NominatimAddress, display: String) -> (r: String)
    ensures
        r@ == detailed_address(*a, display@),
{
    let mut parts: Vec<String> = Vec::new();
    assert(views(parts@) =~= Seq::<Seq<char>>::empty());
    push_opt(&mut parts, &a.road);
    push_opt(&mut parts, &a.suburb);
    if a.city.is_some() {
        push_opt(&mut parts, &a.city);
    } else if a.town.is_some() {
        push_opt(&mut parts, &a.town);
    } else if a.village.is_some() {
        push_opt(&mut parts, &a.village);
    } else {
        push_opt(&mut parts, &a.county);
    }
    push_opt(&mut parts, &a.state);
    if let Some(country) = &a.country {
        let ghost before = views(parts@);
        if let Some(p) = &a.postcode {
            let mut c = country.clone();
            c.append(" - ");
            c.append(p.as_str());
            parts.push(c);
        } else {
            parts.push(country.clone());
        }
        assert(views(parts@) =~= before + match opt_text(a.postcode) {
            Some(p) => seq![country@ + " - "@ + p],
            None => seq![country@],
        });
    } else {
        assert(views(parts@) =~= views(parts@) + Seq::<Seq<char>>::empty());
    }
    if parts.len() == 0 {
        display
    } else {
        join_with_comma(&parts)
    }
}

/// The display text of a result, or the fallback.
pub open spec fn display_or(item: NominatimItem, fallback: Seq<char>) -> Seq<char> {
    match item.display_name {
        Some(d) => d@,
        None => fallback,
    }
}

/// A place from a forward Nominatim search: the first result, named by its
/// name or the first part of its display text (the query when it has none),
/// with its detailed address when there is one.
pub open spec fn nominatim_place(items: Seq<NominatimItem>, query: Seq<char>) -> Result<
    (Seq<char>, Seq<char>),
    Seq<char>,
> {
    if items.len() == 0 {
        Err(query)
    } else {
        let first = items[0];
        let display = display_or(first, query);
        Ok(
            (
                name_or_first_segment(opt_text(first.name), display),
                match first.address {
                    Some(a) => detailed_address(a, display),
                    None => display,
                },
            ),
        )
    }
}

/// A place from a forward LocationIQ search: as Nominatim, with the display
/// text as the address.
pub open spec fn locationiq_place(items: Seq<NominatimItem>, query: Seq<char>) -> Result<
    (Seq<char>, Seq<char>),
    Seq<char>,
> {
    if items.len() == 0 {
        Err(query)
    } else {
        let first = items[0];
        let display = display_or(first, query);
        Ok((name_or_first_segment(opt_text(first.name), display), display))
    }
}

/// The view of a place.
pub open spec fn place_view(p: Place) -> (Seq<char>, Seq<char>) {
    (p.name@, p.address@)
}

/// The view of a geocoding result that is a place or a not-found error.
pub open spec fn found_view(r: Result<Place, GeocodeError>) -> Option<Result<(Seq<char>, Seq<char>), Seq<char>>> {
    match r {
        Ok(p) => Some(Ok(place_view(p))),
        Err(GeocodeError::NotFound(m)) => Some(Err(m@)),
        _ => None,
    }
}

/// The display text of a result, or the fallback.
fn display_of(item: &NominatimItem, fallback: &str) -> (r: String)
    ensures
        r@ == display_or(*item, fallback@),
{
    match &item.display_name {
        Some(d) => d.clone(),
        None => owned(fallback),
    }
}

/// Reads a forward Nominatim search; no result is "not found" for the query.
pub fn nominatim_forward(items: &Vec<NominatimItem>, query: &str) -> (r: Result<Place, GeocodeError>)
    ensures
        found_view(r) == Some(nominatim_place(items@, query@)),
{
    if items.len() == 0 {
        return Err(GeocodeError::NotFound(owned(query)));
    }
    let first = &items[0];
    let display = display_of(first, query);
    let name = name_or_first_part(&first.name, display.as_str());
    let address = match &first.address {
        Some(a) => detailed_address_of(a, display),
        None => display,
    };
    Ok(Place { name, address })
}

/// Reads a forward LocationIQ search; no result is "not found" for the query.
pub fn locationiq_forward(items: &Vec<NominatimItem>, query: &str) -> (r: Result<Place, GeocodeError>)
    ensures
        found_view(r) == Some(locationiq_place(items@, query@)),
{
    if items.len() == 0 {
        return Err(GeocodeError::NotFound(owned(query)));
    }
    let first = &items[0];
    let display = display_of(first, query);
    let name = name_or_first_part(&first.name, display.as_str());
    Ok(Place { name, address: display })
}

/// Reads a reverse Nominatim or LocationIQ result: the display text (or the
/// formatted coordinates) as address, named by the result's name or the first
/// part of that text.
pub fn nominatim_reverse(item: &NominatimItem, coordinates: &str) -> (r: Place)
    ensures
        r.address@ == display_or(*item, coordinates@),
        r.name@ == name_or_first_segment(opt_text(item.name), display_or(*item, coordinates@)),
{
    let display = display_of(item, coordinates);
    let name = name_or_first_part(&item.name, display.as_str());
    Place { name, address: display }
}

/// What a Mapbox feature offers: its text, its place name, and whether it has
/// a center with both coordinates.
pub struct MapboxFeature {
    pub text: Option<String>,
    pub place_name: Option<String>,
    pub has_center: bool,
}

/// The place of a Mapbox feature: named by its text (or the fallback), with
/// its place name (or that name) as address.
pub open spec fn mapbox_place(f: MapboxFeature, fallback: Seq<char>) -> (Seq<char>, Seq<char>) {
    let name = match opt_text(f.text) {
        Some(t) => t,
        None => fallback,
    };
    (name, match opt_text(f.place_name) {
        Some(p) => p,
        None => name,
    })
}

/// The place of a Mapbox feature.
fn mapbox_place_of(f: &MapboxFeature, fallback: &str) -> (r: Place)
    ensures
        place_view(r) == mapbox_place(*f, fallback@),
{
    let name = match &f.text {
        Some(t) => t.clone(),
        None => owned(fallback),
    };
    let address = match &f.place_name {
        Some(p) => p.clone(),
        None => name.clone(),
    };
    Place { name, address }
}

/// Reads a forward Mapbox search: no feature is "not found" for the query; a
/// first feature without a center is a parse error.
pub fn mapbox_forward(features: &Vec<MapboxFeature>, query: &str) -> (r: Result<Place, GeocodeError>)
    ensures
        features.len() == 0 ==> (r matches Err(GeocodeError::NotFound(m)) && m@ == query@),
        features.len() > 0 && !features@[0].has_center ==> (r matches Err(
            GeocodeError::ParseError(m),
        ) && m@ == "Missing center coordinate from Mapbox"@),
        features.len() > 0 && features@[0].has_center ==> (r matches Ok(p) && place_view(p)
            == mapbox_place(features@[0], query@)),
{
    if features.len() == 0 {
        return Err(GeocodeError::NotFound(owned(query)));
    }
    if !features[0].has_center {
        return Err(GeocodeError::ParseError(owned("Missing center coordinate from Mapbox")));
    }
    Ok(mapbox_place_of(&features[0], query))
}

/// Reads a reverse Mapbox search: no feature is "not found" for the
/// coordinates (six decimals); the name falls back to them with five decimals.
pub fn mapbox_reverse(features: &Vec<MapboxFeature>, coordinates6: &str, coordinates5: &str) -> (r:
    Result<Place, GeocodeError>)
    ensures
        features.len() == 0 ==> (r matches Err(GeocodeError::NotFound(m)) && m@ == coordinates6@),
        features.len() > 0 ==> (r matches Ok(p) && place_view(p) == mapbox_place(
            features@[0],
            coordinates5@,
        )),
{
    if features.len() == 0 {
        return Err(GeocodeError::NotFound(owned(coordinates6)));
    }
    Ok(mapbox_place_of(&features[0], coordinates5))
}

/// What an OpenCage or Google result offers: its formatted address and
/// whether it has a geometry location.
pub struct FormattedResult {
    pub formatted: Option<String>,
    pub has_location: bool,
}

/// The place of a formatted result: its formatted address (or the fallback),
/// named by the first part of it.
pub open spec fn formatted_place(f: FormattedResult, fallback: Seq<char>) -> (Seq<char>, Seq<char>) {
    let address = match opt_text(f.formatted) {
        Some(a) => a,
        None => fallback,
    };
    (first_segment(address), address)
}

/// The place of a formatted result.
fn formatted_place_of(f: &FormattedResult, fallback: &str) -> (r: Place)
    ensures
        place_view(r) == formatted_place(*f, fallback@),
{
    let address = match &f.formatted {
        Some(a) => a.clone(),
        None => owned(fallback),
    };
    let name = first_segment_of(address.as_str());
    Place { name, address }
}

/// The parse error for a first result without a location, per provider.
pub open spec fn missing_location_text(provider: GeocoderProvider) -> Seq<char> {
    match provider {
        GeocoderProvider::Google => "Missing geometry location in Google response"@,
        _ => "Missing geometry in OpenCage response"@,
    }
}

/// Reads a forward OpenCage or Google search: no result is "not found" for
/// the query; a first result without a location is a parse error.
pub fn formatted_forward(provider: GeocoderProvider, results: &Vec<FormattedResult>, query: &str) -> (r:
    Result<Place, GeocodeError>)
    ensures
        results.len() == 0 ==> (r matches Err(GeocodeError::NotFound(m)) && m@ == query@),
        results.len() > 0 && !results@[0].has_location ==> (r matches Err(
            GeocodeError::ParseError(m),
        ) && m@ == missing_location_text(provider)),
        results.len() > 0 && results@[0].has_location ==> (r matches Ok(p) && place_view(p)
            == formatted_place(results@[0], query@)),
{
    if results.len() == 0 {
        return Err(GeocodeError::NotFound(owned(query)));
    }
    if !results[0].has_location {
        let m = match provider {
            GeocoderProvider::Google => owned("Missing geometry location in Google response"),
            _ => owned("Missing geometry in OpenCage response"),
        };
        return Err(GeocodeError::ParseError(m));
    }
    Ok(formatted_place_of(&results[0], query))
}

/// Reads a reverse OpenCage or Google search: no result is "not found" for
/// the coordinates (six decimals); the address falls back to them with five.
pub fn formatted_reverse(results: &Vec<FormattedResult>, coordinates6: &str, coordinates5: &str) -> (r:
    Result<Place, GeocodeError>)
    ensures
        results.len() == 0 ==> (r matches Err(GeocodeError::NotFound(m)) && m@ == coordinates6@),
        results.len() > 0 ==> (r matches Ok(p) && place_view(p) == formatted_place(
            results@[0],
            coordinates5@,
        )),
{
    if results.len() == 0 {
        return Err(GeocodeError::NotFound(owned(coordinates6)));
    }
    Ok(formatted_place_of(&results[0], coordinates5))
}

/// Judges the status field of a Google response: `OVER_QUERY_LIMIT` is rate
/// limiting, `ZERO_RESULTS` is "not found" for `subject`, and anything other
/// than `OK` is a service error with the response's message (or the status).
pub fn google_status(status: &str, error_message: &Option<String>, subject: &str) -> (r: Result<
    (),
    GeocodeError,
>)
    ensures
        status@ == "OVER_QUERY_LIMIT"@ ==> r matches Err(GeocodeError::RateLimited),
        status@ == "ZERO_RESULTS"@ ==> (r matches Err(GeocodeError::NotFound(m)) && m@ == subject@),
        status@ != "OVER_QUERY_LIMIT"@ && status@ != "ZERO_RESULTS"@ && status@ != "OK"@ ==> (
        r matches Err(GeocodeError::Service(m)) && m@ == match opt_text(*error_message) {
            Some(e) => e,
            None => status@,
        }),
        status@ == "OK"@ ==> r is Ok,
{
    proof {
        reveal_strlit("OVER_QUERY_LIMIT");
        reveal_strlit("ZERO_RESULTS");
        reveal_strlit("OK");
        assert("OVER_QUERY_LIMIT"@.len() != "ZERO_RESULTS"@.len());
        assert("OVER_QUERY_LIMIT"@.len() != "OK"@.len());
        assert("ZERO_RESULTS"@.len() != "OK"@.len());
    }
    if same_text(status, "OVER_QUERY_LIMIT") {
        return Err(GeocodeError::RateLimited);
    }
    if same_text(status, "ZERO_RESULTS") {
        return Err(GeocodeError::NotFound(owned(subject)));
    }
    if !same_text(status, "OK") {
        let m = match error_message {
            Some(e) => e.clone(),
            None => owned(status),
        };
        return Err(GeocodeError::Service(m));
    }
    Ok(())
}

/// The name under which a provider asks for its API key.
pub open spec fn key_label(provider: GeocoderProvider) -> Seq<char> {
    match provider {
        GeocoderProvider::Nominatim => "Nominatim"@,
        GeocoderProvider::Locationiq => "LocationIQ"@,
        GeocoderProvider::Mapbox => "Mapbox"@,
        GeocoderProvider::Opencage => "OpenCage"@,
        GeocoderProvider::Google => "Google Maps"@,
    }
}

/// The API key that a geocoder backend is built with: Nominatim needs none;
/// the others take the given key, else the configured one, and without
/// either the key is reported missing.
pub fn required_api_key(
    provider: GeocoderProvider,
    api_key: Option<String>,
    config_key: &Option<String>,
) -> (r: Result<Option<String>, GeocodeError>)
    ensures
        provider == GeocoderProvider::Nominatim ==> r matches Ok(None),
        provider != GeocoderProvider::Nominatim && api_key is Some ==> (r matches Ok(Some(k))
            && k@ == api_key->Some_0@),
        provider != GeocoderProvider::Nominatim && api_key is None && config_key is Some ==> (
        r matches Ok(Some(k)) && k@ == config_key->Some_0@),
        provider != GeocoderProvider::Nominatim && api_key is None && config_key is None ==> (
        r matches Err(GeocodeError::MissingApiKey(m)) && m@ == key_label(provider)),
{
    match provider {
        GeocoderProvider::Nominatim => Ok(None),
        _ => {
            let key = match api_key {
                Some(k) => Some(k),
                None => match config_key {
                    Some(k) => Some(k.clone()),
                    None => None,
                },
            };
            match key {
                Some(k) => Ok(Some(k)),
                None => {
                    let label = match provider {
                        GeocoderProvider::Nominatim => owned("Nominatim"),
                        GeocoderProvider::Locationiq => owned("LocationIQ"),
                        GeocoderProvider::Mapbox => owned("Mapbox"),
                        GeocoderProvider::Opencage => owned("OpenCage"),
                        GeocoderProvider::Google => owned("Google Maps"),
                    };
                    Err(GeocodeError::MissingApiKey(label))
                },
            }
        },
    }
}

/// The cache key of a forward query: trimmed, then lower-cased.
pub open spec fn query_key(query: Seq<char>) -> Seq<char> {
    lowercase(trim(query))
}

/// The map that a list of entries with distinct keys holds.
pub open spec fn entries_map<V>(s: Seq<(Seq<char>, V)>) -> Map<Seq<char>, V> {
    Map::new(
        |k: Seq<char>| exists|i: int| 0 <= i < s.len() && #[trigger] s[i].0 == k,
        |k: Seq<char>| s[choose|i: int| 0 <= i < s.len() && #[trigger] s[i].0 == k].1,
    )
}

/// Whether the keys of a list of entries are distinct.
pub open spec fn distinct_keys<V>(s: Seq<(Seq<char>, V)>) -> bool {
    forall|i: int, j: int| 0 <= i < j < s.len() ==> #[trigger] s[i].0 != #[trigger] s[j].0
}

/// With distinct keys, the map of the entries holds each entry.
proof fn lemma_entries_map_at<V>(s: Seq<(Seq<char>, V)>, i: int)
    requires
        distinct_keys(s),
        0 <= i < s.len(),
    ensures
        entries_map(s).contains_key(s[i].0),
        entries_map(s)[s[i].0] == s[i].1,
{
    let k = s[i].0;
    assert(s[i].0 == k);
    let c = choose|j: int| 0 <= j < s.len() && #[trigger] s[j].0 == k;
    if c != i {
        if c < i {
            assert(s[c].0 != s[i].0);
        } else {
            assert(s[i].0 != s[c].0);
        }
    }
}

/// The mathematical content of a [`GeoCache`].
pub struct GeoCacheView<V> {
    pub enabled: bool,
    pub entries: Map<Seq<char>, V>,
}

/// The cache after a resolved value is recorded: stored under its key when
/// caching is enabled, and nothing changes otherwise.
pub open spec fn recorded<V>(c: GeoCacheView<V>, key: Seq<char>, value: V) -> GeoCacheView<V> {
    if c.enabled {
        GeoCacheView { enabled: true, entries: c.entries.insert(key, value) }
    } else {
        c
    }
}

/// What a lookup finds: a stored value when caching is enabled.
pub open spec fn looked_up<V>(c: GeoCacheView<V>, key: Seq<char>) -> Option<V> {
    if c.enabled && c.entries.contains_key(key) {
        Some(c.entries[key])
    } else {
        None
    }
}

/// An in-memory cache of resolved locations keyed by normalized query.
///
/// The entries are a vector whose keys are distinct, in place of a
/// `HashMap<String, _>`: with `String` keys, vstd's specification of `HashMap`
/// proves neither the length nor the keys after an `insert`, so distinct keys
/// are this type's invariant instead.
pub struct GeoCache<V> {
    entries: Vec<(String, V)>,
    enabled: bool,
}

impl<V> View for GeoCache<V> {
    type V = GeoCacheView<V>;

    closed spec fn view(&self) -> GeoCacheView<V> {
        GeoCacheView { enabled: self.enabled, entries: entries_map(crate::bookmarks::entry_views(self.entries@)) }
    }
}

impl<V> GeoCache<V> {
    #[verifier::type_invariant]
    closed spec fn keys_distinct(self) -> bool {
        distinct_keys(crate::bookmarks::entry_views(self.entries@))
    }

    /// An empty cache, enabled or not.
    pub fn new(enabled: bool) -> (r: GeoCache<V>)
        ensures
            r@.enabled == enabled,
            r@.entries == Map::<Seq<char>, V>::empty(),
    {
        let r = GeoCache { entries: Vec::new(), enabled };
        assert(entries_map(crate::bookmarks::entry_views(r.entries@)) =~= Map::<Seq<char>, V>::empty());
        r
    }

    /// The cache key of a forward query.
    pub fn normalize_key(query: &str) -> (r: String)
        ensures
            r@ == query_key(query@),
            is_ascii_text(query@) ==> r@ == ascii_lower(trim(query@)),
    {
        let t = trim_text(query);
        proof {
            if is_ascii_text(query@) {
                lemma_trim_ascii(query@);
            }
        }
        to_lowercase(t.as_str())
    }

    /// Whether caching is enabled.
    pub fn enabled(&self) -> (r: bool)
        ensures
            r == self@.enabled,
    {
        self.enabled
    }

    /// The value stored under a key, when caching is enabled.
    pub fn lookup(&self, key: &str) -> (r: Option<&V>)
        ensures
            match r {
                Some(v) => looked_up(self@, key@) == Some(*v),
                None => looked_up(self@, key@) is None,
            },
    {
        proof {
            use_type_invariant(self);
        }
        if !self.enabled {
            return None;
        }
        let ghost s = crate::bookmarks::entry_views(self.entries@);
        let mut i: usize = 0;
        while i < self.entries.len()
            invariant
                s == crate::bookmarks::entry_views(self.entries@),
                distinct_keys(s),
                self.enabled,
                i <= self.entries.len(),
                forall|j: int| 0 <= j < i ==> #[trigger] s[j].0 != key@,
            decreases self.entries.len() - i,
        {
            if same_text(self.entries[i].0.as_str(), key) {
                proof {
                    assert(s[i as int].0 == key@);
                    lemma_entries_map_at(s, i as int);
                    assert(s[i as int].1 == self.entries@[i as int].1);
                    assert(self@.entries == entries_map(s));
                    assert(self@.enabled);
                }
                return Some(&self.entries[i].1);
            }
            i = i + 1;
        }
        None
    }

    /// Records a resolved value under its key when caching is enabled, and
    /// tells whether the cache should be persisted.
    pub fn record(&mut self, key: String, value: V) -> (persist: bool)
        ensures
            persist == old(self)@.enabled,
            final(self)@ == recorded(old(self)@, key@, value),
    {
        proof {
            use_type_invariant(&*self);
        }
        if !self.enabled {
            return false;
        }
        let ghost s = crate::bookmarks::entry_views(self.entries@);
        let ghost e = (key@, value);
        let mut i: usize = 0;
        while i < self.entries.len() && !same_text(self.entries[i].0.as_str(), key.as_str())
            invariant
                s == crate::bookmarks::entry_views(self.entries@),
                distinct_keys(s),
                i <= self.entries.len(),
                forall|j: int| 0 <= j < i ==> #[trigger] s[j].0 != key@,
            decreases self.entries.len() - i,
        {
            i = i + 1;
        }
        let mut es: Vec<(String, V)> = Vec::new();
        std::mem::swap(&mut es, &mut self.entries);
        let ghost new_s;
        if i < es.len() {
            proof {
                new_s = s.update(i as int, e);
            }
            es.set(i, (key, value));
        } else {
            proof {
                new_s = s.push(e);
            }
            es.push((key, value));
        }
        assert(crate::bookmarks::entry_views(es@) =~= new_s);
        proof {
            if i < s.len() {
                assert(s[i as int].0 == key@);
                assert forall|a: int, b: int| 0 <= a < b < new_s.len() implies #[trigger] new_s[a].0
                    != #[trigger] new_s[b].0 by {
                    assert(new_s[a].0 == s[a].0);
                    assert(new_s[b].0 == s[b].0);
                }
            } else {
                assert forall|a: int, b: int| 0 <= a < b < new_s.len() implies #[trigger] new_s[a].0
                    != #[trigger] new_s[b].0 by {
                    if b < s.len() {
                        assert(s[a].0 != s[b].0);
                    } else {
                        assert(s[a].0 != key@);
                    }
                }
            }
            assert(distinct_keys(new_s));
            let m_old = entries_map(s);
            let m_new = entries_map(new_s);
            assert forall|k: Seq<char>| #[trigger] m_new.contains_key(k) == m_old.insert(
                key@,
                value,
            ).contains_key(k) by {
                if k != key@ {
                    if m_old.contains_key(k) {
                        let c = choose|j: int| 0 <= j < s.len() && #[trigger] s[j].0 == k;
                        assert(new_s[c].0 == k);
                    }
                    if m_new.contains_key(k) {
                        let c = choose|j: int| 0 <= j < new_s.len() && #[trigger] new_s[j].0 == k;
                        assert(s[c].0 == k);
                    }
                } else {
                    if i < s.len() {
                        assert(new_s[i as int].0 == k);
                    } else {
                        assert(new_s[s.len() as int].0 == k);
                    }
                }
            }
            assert forall|k: Seq<char>| #[trigger] m_new.contains_key(k) implies m_new[k] == m_old.insert(
                key@,
                value,
            )[k] by {
                let c = choose|j: int| 0 <= j < new_s.len() && #[trigger] new_s[j].0 == k;
                if k == key@ {
                    let w = if i < s.len() { i as int } else { s.len() as int };
                    assert(new_s[w].0 == k);
                    if c != w {
                        if c < w {
                            assert(new_s[c].0 != new_s[w].0);
                        } else {
                            assert(new_s[w].0 != new_s[c].0);
                        }
                    }
                } else {
                    assert(s[c].0 == k);
                    let d = choose|j: int| 0 <= j < s.len() && #[trigger] s[j].0 == k;
                    if c != d {
                        if c < d {
                            assert(s[c].0 != s[d].0);
                        } else {
                            assert(s[d].0 != s[c].0);
                        }
                    }
                }
            }
            assert(m_new =~= m_old.insert(key@, value));
        }
        self.entries = es;
        true
    }

    /// Settles a query that the cache did not answer, once the geocoder has
    /// answered it: a resolved value is handed back and, when caching is
    /// enabled, a clone of it is recorded under `key`; an error is handed back
    /// unchanged and leaves the cache as it was.
    pub fn settle(&mut self, key: String, outcome: Result<V, GeocodeError>) -> (r: Result<
        V,
        GeocodeError,
    >) where V: Clone
        ensures
            r == outcome,
            outcome is Err ==> final(self)@ == old(self)@,
            outcome is Ok && !old(self)@.enabled ==> final(self)@ == old(self)@,
            outcome matches Ok(v) ==> (old(self)@.enabled ==> exists|w: V|
                cloned(v, w) && final(self)@ == recorded(old(self)@, key@, w)),
    {
        match outcome {
            Ok(v) => {
                if self.enabled {
                    let w = v.clone();
                    assert(cloned(v, w));
                    self.record(key, w);
                }
                Ok(v)
            },
            Err(e) => Err(e),
        }
    }

    /// The stored entries, to persist them.
    pub fn entries(&self) -> (r: &Vec<(String, V)>)
        ensures
            entries_map(crate::bookmarks::entry_views(r@)) == self@.entries,
            distinct_keys(crate::bookmarks::entry_views(r@)),
    {
        proof {
            use_type_invariant(self);
        }
        &self.entries
    }
}

/// What is recorded under a key is what a lookup of that key finds, while
/// caching is enabled; a disabled cache finds nothing.
pub proof fn law_cache_read_after_write<V>(c: GeoCacheView<V>, key: Seq<char>, value: V)
    ensures
        looked_up(recorded(c, key, value), key) == if c.enabled {
            Some(value)
        } else {
            None::<V>
        },
{
}

/// Recording under one key leaves what every other key finds unchanged.
pub proof fn law_cache_other_keys_unchanged<V>(
    c: GeoCacheView<V>,
    key: Seq<char>,
    value: V,
    other: Seq<char>,
)
    requires
        other != key,
    ensures
        looked_up(recorded(c, key, value), other) == looked_up(c, other),
{
}

/// A disabled cache never answers a lookup.
pub proof fn law_disabled_cache_finds_nothing<V>(c: GeoCacheView<V>, key: Seq<char>)
    requires
        !c.enabled,
    ensures
        looked_up(c, key) is None,
{
}

/// A query that was answered is answered again from an enabled cache when
/// it is asked in any case or with other surrounding white space.
pub proof fn law_cached_query_found_again<V>(
    c: GeoCacheView<V>,
    query: Seq<char>,
    again: Seq<char>,
    value: V,
)
    requires
        c.enabled,
        lowercase(trim(again)) == lowercase(trim(query)),
    ensures
        looked_up(recorded(c, query_key(query), value), query_key(again)) == Some(value),
{
}

/// Joining one more part adds ", " and the part.
proof fn lemma_join_comma_push(parts: Seq<Seq<char>>, x: Seq<char>)
    ensures
        join_comma(parts.push(x)) == if parts.len() == 0 {
            x
        } else {
            join_comma(parts) + ", "@ + x
        },
{
    assert(parts.push(x).drop_last() =~= parts);
    if parts.len() == 0 {
        assert(parts.push(x)[0] == x);
    }
}

/// The country part of a detailed address: the country, with " - " and the
/// postcode when there is one.
pub open spec fn country_part(country: Seq<char>, postcode: Option<Seq<char>>) -> Seq<char> {
    match postcode {
        Some(p) => country + " - "@ + p,
        None => country,
    }
}

/// A detailed address that has every part reads road, suburb, city, state
/// and country with its postcode, in that order, separated by ", "; the
/// town, village and county give way to the city.
pub proof fn law_detailed_address_in_order(a: NominatimAddress, display: Seq<char>)
    requires
        a.road is Some,
        a.suburb is Some,
        a.city is Some,
        a.state is Some,
        a.country is Some,
        a.postcode is Some,
    ensures
        detailed_address(a, display) == a.road->Some_0@ + ", "@ + a.suburb->Some_0@ + ", "@
            + a.city->Some_0@ + ", "@ + a.state->Some_0@ + ", "@ + a.country->Some_0@ + " - "@
            + a.postcode->Some_0@,
{
    let r = a.road->Some_0@;
    let sb = a.suburb->Some_0@;
    let c = a.city->Some_0@;
    let st = a.state->Some_0@;
    let k = a.country->Some_0@ + " - "@ + a.postcode->Some_0@;
    let parts = address_parts(
        opt_text(a.road),
        opt_text(a.suburb),
        opt_text(a.city),
        opt_text(a.town),
        opt_text(a.village),
        opt_text(a.county),
        opt_text(a.state),
        opt_text(a.country),
        opt_text(a.postcode),
    );
    let e = Seq::<Seq<char>>::empty();
    assert(parts =~= e.push(r).push(sb).push(c).push(st).push(k));
    lemma_join_comma_push(e, r);
    lemma_join_comma_push(e.push(r), sb);
    lemma_join_comma_push(e.push(r).push(sb), c);
    lemma_join_comma_push(e.push(r).push(sb).push(c), st);
    lemma_join_comma_push(e.push(r).push(sb).push(c).push(st), k);
    assert(detailed_address(a, display) =~= r + ", "@ + sb + ", "@ + c + ", "@ + st + ", "@ + k);
}

/// A state that a detailed address gives stands right before the country:
/// whatever road, suburb and place come first, the address ends with the
/// state, ", " and the country part, after nothing or after ", ".
pub proof fn law_detailed_address_state_before_country(a: NominatimAddress, display: Seq<char>)
    requires
        a.state is Some,
        a.country is Some,
    ensures
        ({
            let addr = detailed_address(a, display);
            let tail = a.state->Some_0@ + ", "@ + country_part(a.country->Some_0@, opt_text(a.postcode));
            addr == tail || (addr.len() >= tail.len() + 2 && addr.subrange(
                addr.len() - tail.len() - 2,
                addr.len() as int,
            ) == ", "@ + tail)
        }),
{
    let st = a.state->Some_0@;
    let k = country_part(a.country->Some_0@, opt_text(a.postcode));
    let place = if a.city is Some {
        opt_text(a.city)
    } else if a.town is Some {
        opt_text(a.town)
    } else if a.village is Some {
        opt_text(a.village)
    } else {
        opt_text(a.county)
    };
    let pre = opt_seq(opt_text(a.road)) + opt_seq(opt_text(a.suburb)) + opt_seq(place);
    let parts = address_parts(
        opt_text(a.road),
        opt_text(a.suburb),
        opt_text(a.city),
        opt_text(a.town),
        opt_text(a.village),
        opt_text(a.county),
        opt_text(a.state),
        opt_text(a.country),
        opt_text(a.postcode),
    );
    assert(parts =~= pre.push(st).push(k));
    lemma_join_comma_push(pre, st);
    lemma_join_comma_push(pre.push(st), k);
    let addr = detailed_address(a, display);
    let tail = st + ", "@ + k;
    reveal_strlit(", ");
    if pre.len() == 0 {
        assert(addr =~= tail);
    } else {
        let j = join_comma(pre);
        assert(addr =~= j + ", "@ + tail);
        assert(addr.subrange(addr.len() - tail.len() - 2, addr.len() as int) =~= ", "@ + tail);
    }
}

/// A result without any address part shows its display text.
pub proof fn law_detailed_address_without_parts(a: NominatimAddress, display: Seq<char>)
    requires
        a.road is None,
        a.suburb is None,
        a.city is None,
        a.town is None,
        a.village is None,
        a.county is None,
        a.state is None,
        a.country is None,
    ensures
        detailed_address(a, display) == display,
{
}

/// A Mapbox feature's place name is the address of its place, and its text is
/// the name; only a feature without a place name is addressed by its name,
/// and only a feature without text is named by the fallback.
pub proof fn law_mapbox_place_name_is_the_address(f: MapboxFeature, fallback: Seq<char>)
    ensures
        f.place_name matches Some(p) ==> mapbox_place(f, fallback).1 == p@,
        f.text matches Some(t) ==> mapbox_place(f, fallback).0 == t@,
        f.text is None ==> mapbox_place(f, fallback).0 == fallback,
        f.place_name is None ==> mapbox_place(f, fallback).1 == mapbox_place(f, fallback).0,
{
}

/// An OpenCage or Google result's formatted address is the address of its
/// place; only a result without one is addressed by the fallback.
pub proof fn law_formatted_address_is_the_address(f: FormattedResult, fallback: Seq<char>)
    ensures
        f.formatted matches Some(a) ==> formatted_place(f, fallback).1 == a@,
        f.formatted is None ==> formatted_place(f, fallback).1 == fallback,
{
}

/// Two queries share a cache key exactly when their trimmed, lower-cased
/// forms are equal: queries that differ in more than case and surrounding
/// white space (such as "Paris, France" and "Paris, Texas") never share one.
pub proof fn law_query_keys_distinguish_queries(a: Seq<char>, b: Seq<char>)
    ensures
        query_key(a) == query_key(b) <==> lowercase(trim(a)) == lowercase(trim(b)),
{
}

/// Recording the location of one query answers a lookup of another query
/// that the cache did not answer before only when the two queries have the
/// same trimmed, lower-cased form.
pub proof fn law_recorded_query_answers_only_itself<V>(
    c: GeoCacheView<V>,
    query: Seq<char>,
    other: Seq<char>,
    value: V,
)
    requires
        looked_up(c, query_key(other)) is None,
    ensures
        looked_up(recorded(c, query_key(query), value), query_key(other)) is Some ==> lowercase(
            trim(query),
        ) == lowercase(trim(other)),
{
}

} // verus!
