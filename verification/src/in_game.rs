//! The companion live-data API: a fixed, unauthenticated plain-HTTP
//! endpoint on the local machine, GET-only, with query parameters appended
//! directly to the endpoint string.

use vstd::prelude::*;
use vstd::string::StringExecFns;

use crate::rest::Method;
use crate::rest::PreparedRequest;
use crate::text::i32_string;
use crate::text::int_chars;
use crate::Error;
use crate::SerializeFormat;

verus! {

/// A connection to the in-game API. Creating it does not check whether the
/// game is running; every request finds that out for itself.
pub struct InGameClient {
    url: String,
}

/// The team filter a player-list request can carry.
#[derive(Clone, Copy, PartialEq, Eq, Structural, Debug)]
pub enum TeamID {
    ALL,
    UNKNOWN,
    ORDER,
    CHAOS,
    NEUTRAL,
}

impl TeamID {
    /// The query string this filter appends to the player-list endpoint.
    pub open spec fn spec_query(&self) -> Seq<char> {
        match self {
            TeamID::ALL => "?teamID=ALL"@,
            TeamID::UNKNOWN => "?teamID=UNKNOWN"@,
            TeamID::ORDER => "?teamID=ORDER"@,
            TeamID::CHAOS => "?teamID=CHAOS"@,
            TeamID::NEUTRAL => "?teamID=NEUTRAL"@,
        }
    }

    pub fn query(&self) -> (r: &str)
        ensures
            r@ == self.spec_query(),
    {
        match self {
            TeamID::ALL => "?teamID=ALL",
            TeamID::UNKNOWN => "?teamID=UNKNOWN",
            TeamID::ORDER => "?teamID=ORDER",
            TeamID::CHAOS => "?teamID=CHAOS",
            TeamID::NEUTRAL => "?teamID=NEUTRAL",
        }
    }
}

/// The player-list endpoint, with the team filter appended when present.
pub open spec fn spec_player_list_endpoint(team: Option<TeamID>) -> Seq<char> {
    match team {
        Some(t) => "playerlist"@ + t.spec_query(),
        None => "playerlist"@,
    }
}

pub fn player_list_endpoint(team: Option<TeamID>) -> (r: String)
    ensures
        r@ == spec_player_list_endpoint(team),
{
    let mut s = String::from_str("playerlist");
    match team {
        Some(t) => {
            s.append(t.query());
        },
        None => {},
    }
    s
}

/// The event-data endpoint, filtered to one event when an id is given.
pub open spec fn spec_event_data_endpoint(event_id: Option<int>) -> Seq<char> {
    match event_id {
        Some(id) => "eventdata"@ + "?eventID="@ + int_chars(id),
        None => "eventdata"@,
    }
}

pub fn event_data_endpoint(event_id: Option<i32>) -> (r: String)
    ensures
        r@ == spec_event_data_endpoint(
            match event_id {
                Some(id) => Some(id as int),
                None => None,
            },
        ),
{
    let mut s = String::from_str("eventdata");
    match event_id {
        Some(id) => {
            s.append("?eventID=");
            let rendered = i32_string(id);
            s.append(rendered.as_str());
        },
        None => {},
    }
    s
}

impl InGameClient {
    /// The fixed local address the in-game API listens on.
    pub closed spec fn spec_url(&self) -> Seq<char> {
        self.url@
    }

    /// Connect to the in-game API at its fixed local address.
    pub fn new() -> (r: Result<InGameClient, Error>)
        ensures
            r matches Ok(c) && c.spec_url() == "127.0.0.1:2999"@,
    {
        Ok(InGameClient { url: String::from_str("127.0.0.1:2999") })
    }

    /// The URI a request for `endpoint` goes to: plain HTTP, no auth.
    pub open spec fn spec_request_uri(&self, endpoint: Seq<char>) -> Seq<char> {
        "http://"@ + self.spec_url() + endpoint
    }

    /// The transport-ready form of one live-data request: a GET for the
    /// named resource, no auth header, no body.
    pub fn live_client(&self, endpoint: &str) -> (r: PreparedRequest)
        ensures
            r.method == Method::Get,
            r.uri@ == self.spec_request_uri("/liveclientdata/"@ + endpoint@),
            r.auth_header is None,
            r.body is None,
            r.format == SerializeFormat::Json,
    {
        let mut uri = String::from_str("http://");
        uri.append(self.url.as_str());
        uri.append("/liveclientdata/");
        uri.append(endpoint);
        proof {
            assert(uri@ =~= self.spec_request_uri("/liveclientdata/"@ + endpoint@));
        }
        PreparedRequest {
            method: Method::Get,
            uri,
            auth_header: None,
            format: SerializeFormat::Json,
            body: None,
        }
    }

    /// A live-data request for a per-summoner resource: the summoner name
    /// is passed as a query parameter.
    pub fn live_client_with_summoner(&self, endpoint: &str, summoner: &str) -> (r:
        PreparedRequest)
        ensures
            r.method == Method::Get,
            r.uri@ == self.spec_request_uri(
                "/liveclientdata/"@ + endpoint@ + "?summonerName="@ + summoner@,
            ),
            r.auth_header is None,
            r.body is None,
            r.format == SerializeFormat::Json,
    {
        let mut uri = String::from_str("http://");
        uri.append(self.url.as_str());
        uri.append("/liveclientdata/");
        uri.append(endpoint);
        uri.append("?summonerName=");
        uri.append(summoner);
        proof {
            assert(uri@ =~= self.spec_request_uri(
                "/liveclientdata/"@ + endpoint@ + "?summonerName="@ + summoner@,
            ));
        }
        PreparedRequest {
            method: Method::Get,
            uri,
            auth_header: None,
            format: SerializeFormat::Json,
            body: None,
        }
    }
}

} // verus!
