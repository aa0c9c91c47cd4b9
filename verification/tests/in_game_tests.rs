use irelia::in_game::event_data_endpoint;
use irelia::in_game::player_list_endpoint;
use irelia::in_game::InGameClient;
use irelia::in_game::TeamID;
use irelia::rest::Method;

#[test]
fn team_filters_render_as_query_strings() {
    assert_eq!(TeamID::ALL.query(), "?teamID=ALL");
    assert_eq!(TeamID::UNKNOWN.query(), "?teamID=UNKNOWN");
    assert_eq!(TeamID::ORDER.query(), "?teamID=ORDER");
    assert_eq!(TeamID::CHAOS.query(), "?teamID=CHAOS");
    assert_eq!(TeamID::NEUTRAL.query(), "?teamID=NEUTRAL");
}

#[test]
fn player_list_endpoints() {
    assert_eq!(player_list_endpoint(None), "playerlist");
    assert_eq!(player_list_endpoint(Some(TeamID::CHAOS)), "playerlist?teamID=CHAOS");
}

#[test]
fn event_data_endpoints() {
    assert_eq!(event_data_endpoint(None), "eventdata");
    assert_eq!(event_data_endpoint(Some(42)), "eventdata?eventID=42");
    assert_eq!(event_data_endpoint(Some(-7)), "eventdata?eventID=-7");
}

#[test]
fn live_client_requests_hit_the_fixed_local_address() {
    let client = InGameClient::new().unwrap();
    let prepared = client.live_client("allgamedata");
    assert_eq!(prepared.method, Method::Get);
    assert_eq!(prepared.uri, "http://127.0.0.1:2999/liveclientdata/allgamedata");
    assert!(prepared.auth_header.is_none());
    assert!(prepared.body.is_none());
}

#[test]
fn per_summoner_requests_carry_the_summoner_name() {
    let client = InGameClient::new().unwrap();
    let prepared = client.live_client_with_summoner("playerscores", "summoner1");
    assert_eq!(
        prepared.uri,
        "http://127.0.0.1:2999/liveclientdata/playerscores?summonerName=summoner1"
    );
}
