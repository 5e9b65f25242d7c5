use piano_analytics::events::{
    Campaign, Client, Consent, Context, Data, Event, EventType, PageData, Session, TrackData,
    UserData,
};
use piano_analytics::json::JsonValue;
use piano_analytics::piano_payload::parse_value;
use piano_analytics::PianoComponent;

fn empty_client() -> Client {
    Client {
        city: String::new(),
        ip: String::new(),
        locale: String::new(),
        timezone: String::new(),
        user_agent: String::new(),
        user_agent_architecture: String::new(),
        user_agent_bitness: String::new(),
        user_agent_full_version_list: String::new(),
        user_agent_version_list: String::new(),
        user_agent_mobile: String::new(),
        user_agent_model: String::new(),
        os_name: String::new(),
        os_version: String::new(),
        screen_width: 0,
        screen_height: 0,
        continent: String::new(),
        country_code: String::new(),
        country_name: String::new(),
        region: String::new(),
    }
}

fn empty_page_data() -> PageData {
    PageData {
        name: String::new(),
        category: String::new(),
        keywords: vec![],
        title: String::new(),
        url: String::new(),
        path: String::new(),
        search: String::new(),
        referrer: String::new(),
        properties: vec![],
    }
}

fn base_context() -> Context {
    Context {
        page: empty_page_data(),
        user: UserData {
            user_id: String::new(),
            anonymous_id: String::new(),
            edgee_id: "client-1".to_string(),
            properties: vec![],
        },
        client: empty_client(),
        campaign: Campaign {
            name: String::new(),
            source: String::new(),
            medium: String::new(),
            term: String::new(),
            content: String::new(),
            creative_format: String::new(),
            marketing_tactic: String::new(),
        },
        session: Session {
            session_id: String::new(),
            previous_session_id: String::new(),
            session_count: 1,
            session_start: true,
            first_seen: 123,
            last_seen: 123,
        },
    }
}

fn base_event(data: Data, event_type: EventType) -> Event {
    Event {
        uuid: "uuid-1".to_string(),
        timestamp: 7200,
        timestamp_millis: 7200000,
        timestamp_micros: 7200000000,
        event_type,
        data,
        context: base_context(),
        consent: Some(Consent::Granted),
    }
}

fn page_event() -> Event {
    base_event(Data::Page(empty_page_data()), EventType::Page)
}

fn track_event(name: &str, properties: Vec<(String, String)>) -> Event {
    base_event(
        Data::Track(TrackData {
            name: name.to_string(),
            products: vec![],
            properties,
        }),
        EventType::Track,
    )
}

fn settings() -> Vec<(String, String)> {
    vec![
        ("piano_site_id".to_string(), "site-9".to_string()),
        ("piano_collection_domain".to_string(), "collect.example".to_string()),
    ]
}

#[test]
fn coercion_literals_and_numbers() {
    match parse_value("true") {
        JsonValue::Bool(b) => assert!(b),
        _ => panic!("true must coerce to a boolean"),
    }
    match parse_value("false") {
        JsonValue::Bool(b) => assert!(!b),
        _ => panic!("false must coerce to a boolean"),
    }
    match parse_value("10") {
        JsonValue::Number(t) => assert_eq!(t, "10"),
        _ => panic!("10 must coerce to a number"),
    }
    match parse_value("10.5") {
        JsonValue::Number(t) => assert_eq!(t, "10.5"),
        _ => panic!("10.5 must coerce to a number"),
    }
    match parse_value("10abc") {
        JsonValue::Str(s) => assert_eq!(s, "10abc"),
        _ => panic!("10abc must stay a string"),
    }
    match parse_value("") {
        JsonValue::Str(s) => assert_eq!(s, ""),
        _ => panic!("an empty value must stay a string"),
    }
}

#[test]
fn coercion_canonicalizes_number_tokens() {
    match parse_value("1e2") {
        JsonValue::Number(t) => assert_eq!(t, "100.0"),
        _ => panic!("1e2 must coerce to a number"),
    }
}

#[test]
fn locale_without_hyphen_fills_both_fields() {
    let mut event = page_event();
    event.context.client.locale = "fr".to_string();
    let body = PianoComponent::page(event, settings()).unwrap().body;
    assert!(body.contains("\"browser_language\":\"fr\",\"browser_language_local\":\"fr\""));
}

#[test]
fn locale_with_hyphen_splits() {
    let mut event = page_event();
    event.context.client.locale = "fr-FR".to_string();
    let body = PianoComponent::page(event, settings()).unwrap().body;
    assert!(body.contains("\"browser_language\":\"fr\",\"browser_language_local\":\"FR\""));
}

#[test]
fn empty_locale_fills_both_fields_empty() {
    let body = PianoComponent::page(page_event(), settings()).unwrap().body;
    assert!(body.contains("\"browser_language\":\"\",\"browser_language_local\":\"\""));
}

#[test]
fn page_url_holds_site_and_client() {
    let req = PianoComponent::page(page_event(), settings()).unwrap();
    assert_eq!(req.url, "https://collect.example/event?s=site-9&idclient=client-1");
    assert_eq!(req.headers, vec![("content-type".to_string(), "text/plain".to_string())]);
}

#[test]
fn page_has_access_defaults_to_anon() {
    let body = PianoComponent::page(page_event(), settings()).unwrap().body;
    assert!(body.contains("\"has_access\":\"anon\""));
}

#[test]
fn page_has_access_property_overrides_default() {
    let mut event = page_event();
    if let Data::Page(ref mut pd) = event.data {
        pd.properties.push(("has_access".to_string(), "premium".to_string()));
    }
    let body = PianoComponent::page(event, settings()).unwrap().body;
    assert!(body.contains("\"has_access\":\"premium\""));
    assert!(!body.contains("\"has_access\":\"anon\""));
    assert_eq!(body.matches("\"has_access\"").count(), 1);
}

#[test]
fn page_keywords_and_title_serialized() {
    let mut event = page_event();
    if let Data::Page(ref mut pd) = event.data {
        pd.keywords = vec!["k1".to_string(), "k2".to_string()];
        pd.title = "My Title".to_string();
        pd.name = "front".to_string();
    }
    let body = PianoComponent::page(event, settings()).unwrap().body;
    assert!(body.contains("\"content_keywords\":[\"k1\",\"k2\"]"));
    assert!(body.contains("\"content_title\":\"My Title\""));
    assert!(body.contains("\"page_title_html\":\"My Title\""));
    assert!(body.contains("\"page\":\"My Title\""));
    assert!(body.contains("\"page_name\":\"front\""));
}

#[test]
fn empty_config_is_missing_site_id() {
    let result = PianoComponent::page(page_event(), vec![]);
    assert_eq!(result.err().unwrap(), "Missing piano site id");
}

#[test]
fn track_with_only_site_id_is_missing_domain() {
    let event = track_event("e", vec![]);
    let result = PianoComponent::track(
        event,
        vec![("piano_site_id".to_string(), "abc".to_string())],
    );
    assert_eq!(result.err().unwrap(), "Missing piano collection domain");
}

#[test]
fn track_keeps_event_name_exactly() {
    let body = PianoComponent::track(track_event("my-event", vec![]), settings()).unwrap().body;
    assert!(body.contains("\"name\":\"my-event\""));
}

#[test]
fn track_empty_name_is_missing_event_name() {
    let result = PianoComponent::track(track_event("", vec![]), settings());
    assert_eq!(result.err().unwrap(), "Missing event name");
}

#[test]
fn track_on_page_data_is_variant_mismatch() {
    let result = PianoComponent::track(page_event(), settings());
    assert_eq!(result.err().unwrap(), "Missing track data");
}

#[test]
fn page_on_track_data_is_variant_mismatch() {
    let result = PianoComponent::page(track_event("e", vec![]), settings());
    assert_eq!(result.err().unwrap(), "Missing page data");
}

#[test]
fn user_is_not_mapped_in_this_build() {
    let event = base_event(
        Data::User(UserData {
            user_id: "u1".to_string(),
            anonymous_id: "a1".to_string(),
            edgee_id: "client-1".to_string(),
            properties: vec![],
        }),
        EventType::User,
    );
    let result = PianoComponent::user(event, settings());
    assert_eq!(result.err().unwrap(), "User event not mapped to Piano Analytics");
}

#[test]
fn user_mapped_without_identifiers_fails() {
    let event = base_event(
        Data::User(UserData {
            user_id: String::new(),
            anonymous_id: String::new(),
            edgee_id: "client-1".to_string(),
            properties: vec![],
        }),
        EventType::User,
    );
    let result = PianoComponent::user_mapped(event, settings());
    assert_eq!(result.err().unwrap(), "Missing user id and anonymous id");
}

#[test]
fn user_mapped_builds_identify_event() {
    let event = base_event(
        Data::User(UserData {
            user_id: String::new(),
            anonymous_id: "a1".to_string(),
            edgee_id: "client-1".to_string(),
            properties: vec![("user_category".to_string(), "gold".to_string())],
        }),
        EventType::User,
    );
    let body = PianoComponent::user_mapped(event, settings()).unwrap().body;
    assert!(body.contains("\"name\":\"identify\""));
    assert!(body.contains("\"user_id\":\"a1\""));
    assert!(body.contains("\"user_category\":\"gold\""));
}

#[test]
fn properties_round_trip_through_coercion() {
    let body = PianoComponent::track(
        track_event(
            "e",
            vec![
                ("a".to_string(), "1.5".to_string()),
                ("b".to_string(), "x".to_string()),
                ("c".to_string(), "false".to_string()),
            ],
        ),
        settings(),
    )
    .unwrap()
    .body;
    assert!(body.contains("\"a\":1.5"));
    assert!(body.contains("\"b\":\"x\""));
    assert!(body.contains("\"c\":false"));
}

#[test]
fn string_values_are_json_escaped() {
    let body = PianoComponent::track(
        track_event("e", vec![("q".to_string(), "a\"b\nc\\d".to_string())]),
        settings(),
    )
    .unwrap()
    .body;
    assert!(body.contains("\"q\":\"a\\\"b\\nc\\\\d\""));
}

#[test]
fn repeated_calls_give_identical_output() {
    let first = PianoComponent::page(page_event(), settings()).unwrap();
    let second = PianoComponent::page(page_event(), settings()).unwrap();
    assert_eq!(first.body, second.body);
    assert_eq!(first.url, second.url);
    assert_eq!(first.headers, second.headers);
}

#[test]
fn device_hour_uses_utc_without_timezone() {
    let body = PianoComponent::page(page_event(), settings()).unwrap().body;
    assert!(body.contains("\"device_hour\":2"));
    assert!(body.contains("\"device_timestamp_utc\":7200"));
    assert!(body.contains("\"device_local_hour\":7200"));
}

#[test]
fn device_hour_uses_named_timezone() {
    let mut event = page_event();
    event.timestamp = 0;
    event.context.client.timezone = "Europe/Paris".to_string();
    let body = PianoComponent::page(event, settings()).unwrap().body;
    assert!(body.contains("\"device_hour\":1"));
}

#[test]
fn unknown_timezone_leaves_device_hour_unset() {
    let mut event = page_event();
    event.context.client.timezone = "Nowhere/Zone".to_string();
    let body = PianoComponent::page(event, settings()).unwrap().body;
    assert!(body.contains("\"device_hour\":0"));
}

#[test]
fn first_seen_renders_as_rfc3339() {
    let body = PianoComponent::page(page_event(), settings()).unwrap().body;
    assert!(body.contains("\"cookie_creation_date\":\"1970-01-01T00:02:03+00:00\""));
}

#[test]
fn query_string_overrides_campaign_and_renames_keys() {
    let mut event = page_event();
    event.context.campaign.medium = "ctx-med".to_string();
    event.context.campaign.name = "ctx-camp".to_string();
    event.context.page.search = "at_medium=qs-med&at_custom=42".to_string();
    let body = PianoComponent::page(event, settings()).unwrap().body;
    assert!(body.contains("\"src_medium\":\"qs-med\""));
    assert!(body.contains("\"src_campaign\":\"ctx-camp\""));
    assert!(body.contains("\"src_custom\":42"));
}

#[test]
fn client_hints_serialized_with_versions() {
    let mut event = page_event();
    event.context.client.user_agent_full_version_list =
        "Brand1;1.0.0|Brand2;2.0.0".to_string();
    event.context.client.user_agent_version_list = "Brand1;1.0.0".to_string();
    event.context.client.user_agent_mobile = "1".to_string();
    let body = PianoComponent::page(event, settings()).unwrap().body;
    assert!(body.contains("\"ch_ua\":[{\"brand\":\"Brand1\",\"version\":\"1\"}]"));
    assert!(body.contains("\"ch_ua_full_version\":\"1.0.0\""));
    assert!(body.contains(
        "\"ch_ua_full_version_list\":[{\"brand\":\"Brand1\",\"version\":\"1.0.0\"},{\"brand\":\"Brand2\",\"version\":\"2.0.0\"}]"
    ));
    assert!(body.contains("\"ch_ua_mobile\":true"));
}

#[test]
fn user_id_prefers_identity_over_anonymous() {
    let mut event = page_event();
    event.context.user.user_id = "u1".to_string();
    event.context.user.anonymous_id = "a1".to_string();
    let body = PianoComponent::page(event, settings()).unwrap().body;
    assert!(body.contains("\"user_id\":\"u1\""));

    let mut event2 = page_event();
    event2.context.user.anonymous_id = "a1".to_string();
    let body2 = PianoComponent::page(event2, settings()).unwrap().body;
    assert!(body2.contains("\"user_id\":\"a1\""));
}

#[test]
fn previous_url_comes_from_context_referrer() {
    let mut event = page_event();
    event.context.page.referrer = "https://example.org/prev".to_string();
    let body = PianoComponent::page(event, settings()).unwrap().body;
    assert!(body.contains("\"previous_url\":\"https://example.org/prev\""));
}

#[test]
fn empty_referrer_omits_previous_url() {
    let mut event = page_event();
    if let Data::Page(ref mut pd) = event.data {
        pd.referrer = "https://example.org/data-ref".to_string();
    }
    let body = PianoComponent::page(event, settings()).unwrap().body;
    assert!(!body.contains("previous_url"));
}

#[test]
fn screen_sizes_only_when_positive() {
    let mut event = page_event();
    event.context.client.screen_width = 1024;
    event.context.client.screen_height = -5;
    let body = PianoComponent::page(event, settings()).unwrap().body;
    assert!(body.contains("\"device_display_width\":1024"));
    assert!(body.contains("\"device_screen_width\":1024"));
    assert!(body.contains("\"device_display_height\":0"));
    assert!(body.contains("\"device_screen_height\":0"));
}
