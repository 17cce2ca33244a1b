//! Data model of the recommender: places, coordinates, the API key, and the
//! error kinds that the command-line driver reports.

use vstd::prelude::*;

verus! {

/// Mathematical view of a decoded place: every field as a plain sequence of
/// bytes, coordinates kept as the decimal text of the JSON number tokens.
pub ghost struct PlaceView {
    pub name: Seq<u8>,
    pub vicinity: Seq<u8>,
    pub lat: Seq<u8>,
    pub lng: Seq<u8>,
    pub open_now: Option<bool>,
}

/// One grocery store returned by the places service.
///
/// `lat` and `lng` hold the verbatim JSON number tokens of the geometry
/// location; the tool never does arithmetic on them, it only requires that
/// they were present and well formed.
#[derive(Debug)]
pub struct Place {
    pub name: Vec<u8>,
    pub vicinity: Vec<u8>,
    pub lat: Vec<u8>,
    pub lng: Vec<u8>,
    pub open_now: Option<bool>,
}

impl View for Place {
    type V = PlaceView;

    open spec fn view(&self) -> PlaceView {
        PlaceView {
            name: self.name@,
            vicinity: self.vicinity@,
            lat: self.lat@,
            lng: self.lng@,
            open_now: self.open_now,
        }
    }
}

/// Views of a sequence of places, element by element.
pub open spec fn place_views(s: Seq<Place>) -> Seq<PlaceView> {
    Seq::new(s.len(), |k: int| s[k]@)
}

/// A geographic position, each coordinate as decimal-degree text.
pub struct Coordinates {
    pub lat_text: Vec<u8>,
    pub lng_text: Vec<u8>,
}

/// An opaque, non-empty API key. It flows only into the request URL, never
/// into any rendered output.
#[derive(Debug)]
pub struct ApiKey {
    pub bytes: Vec<u8>,
}

impl ApiKey {
    /// A key is well formed when it is non-empty.
    pub open spec fn wf(&self) -> bool {
        self.bytes@.len() > 0
    }
}

/// Everything that can go wrong, in the order the driver can meet it.
#[derive(Debug, Clone, Copy, PartialEq, Eq, Structural)]
pub enum AppError {
    /// The API key environment variable is unset or empty.
    MissingKey,
    /// Standard input closed or failed before a food item was read.
    InputFailed,
    /// The HTTP request could not be carried out.
    Network,
    /// The places service answered with a non-success status.
    HttpStatus(u16),
    /// The response body was not a well-formed places response.
    Decode,
}

/// Latitude of the fixed location used by this version of the tool.
pub open spec fn spec_fixed_lat() -> Seq<u8> {
    seq![0x33, 0x37, 0x2e, 0x37, 0x37, 0x34, 0x39]
}

/// Longitude of the fixed location used by this version of the tool.
pub open spec fn spec_fixed_lng() -> Seq<u8> {
    seq![0x2d, 0x31, 0x32, 0x32, 0x2e, 0x34, 0x31, 0x39, 0x34]
}

/// The location provider of this version: a fixed coordinate pair, kept
/// behind its own function so that a real geolocation source can replace it
/// without touching any caller.
pub fn get_user_location() -> (r: Coordinates)
    ensures
        r.lat_text@ == spec_fixed_lat(),
        r.lng_text@ == spec_fixed_lng(),
{
    let mut lat: Vec<u8> = Vec::new();
    lat.push(0x33);
    lat.push(0x37);
    lat.push(0x2e);
    lat.push(0x37);
    lat.push(0x37);
    lat.push(0x34);
    lat.push(0x39);
    let mut lng: Vec<u8> = Vec::new();
    lng.push(0x2d);
    lng.push(0x31);
    lng.push(0x32);
    lng.push(0x32);
    lng.push(0x2e);
    lng.push(0x34);
    lng.push(0x31);
    lng.push(0x39);
    lng.push(0x34);
    proof {
        assert(lat@ =~= spec_fixed_lat());
        assert(lng@ =~= spec_fixed_lng());
    }
    Coordinates { lat_text: lat, lng_text: lng }
}

/// Accept the API key read from the environment: present and non-empty, or
/// the configuration error. The driver calls this before anything else
/// touches the network.
pub fn api_key_from_env(value: Option<Vec<u8>>) -> (r: Result<ApiKey, AppError>)
    ensures
        (r is Err) <==> (value is None || (value matches Some(v) && v@.len() == 0)),
        r is Err ==> (r matches Err(e) && e == AppError::MissingKey),
        r matches Ok(k) ==> (value matches Some(v) && k.bytes@ == v@ && k.wf()),
{
    match value {
        None => Err(AppError::MissingKey),
        Some(v) => {
            if v.len() == 0 {
                Err(AppError::MissingKey)
            } else {
                Ok(ApiKey { bytes: v })
            }
        },
    }
}

/// Accept exactly the success statuses of the HTTP answer; any other status
/// is surfaced as an HTTP error carrying the status code.
pub fn classify_status(code: u16) -> (r: Result<(), AppError>)
    ensures
        (r is Ok) <==> (200 <= code < 300),
        r matches Err(e) ==> e == AppError::HttpStatus(code),
{
    if 200 <= code && code < 300 {
        Ok(())
    } else {
        Err(AppError::HttpStatus(code))
    }
}

} // verus!
