//! The normalized input event and its context, and the outgoing request
//! descriptor. Every field the mapping reads is a plain value.
use vstd::prelude::*;

verus! {

/// An ordered set of named configuration values.
pub type Dict = Vec<(String, String)>;

pub struct Client {
    pub city: String,
    pub ip: String,
    pub locale: String,
    pub timezone: String,
    pub user_agent: String,
    pub user_agent_architecture: String,
    pub user_agent_bitness: String,
    pub user_agent_full_version_list: String,
    pub user_agent_version_list: String,
    pub user_agent_mobile: String,
    pub user_agent_model: String,
    pub os_name: String,
    pub os_version: String,
    pub screen_width: i32,
    pub screen_height: i32,
    pub continent: String,
    pub country_code: String,
    pub country_name: String,
    pub region: String,
}

pub struct Campaign {
    pub name: String,
    pub source: String,
    pub medium: String,
    pub term: String,
    pub content: String,
    pub creative_format: String,
    pub marketing_tactic: String,
}

pub struct Session {
    pub session_id: String,
    pub previous_session_id: String,
    pub session_count: i32,
    pub session_start: bool,
    pub first_seen: i64,
    pub last_seen: i64,
}

pub struct UserData {
    pub user_id: String,
    pub anonymous_id: String,
    pub edgee_id: String,
    pub properties: Vec<(String, String)>,
}

pub struct PageData {
    pub name: String,
    pub category: String,
    pub keywords: Vec<String>,
    pub title: String,
    pub url: String,
    pub path: String,
    pub search: String,
    pub referrer: String,
    pub properties: Vec<(String, String)>,
}

pub struct TrackData {
    pub name: String,
    pub products: Vec<(String, String)>,
    pub properties: Vec<(String, String)>,
}

pub enum Data {
    Page(PageData),
    Track(TrackData),
    User(UserData),
}

pub enum EventType {
    Page,
    Track,
    User,
}

pub enum Consent {
    Pending,
    Granted,
    Denied,
}

pub struct Context {
    pub page: PageData,
    pub user: UserData,
    pub client: Client,
    pub campaign: Campaign,
    pub session: Session,
}

pub struct Event {
    pub uuid: String,
    pub timestamp: i64,
    pub timestamp_millis: i64,
    pub timestamp_micros: i64,
    pub event_type: EventType,
    pub data: Data,
    pub context: Context,
    pub consent: Option<Consent>,
}

#[derive(Debug, PartialEq, Eq, Clone, Copy)]
pub enum HttpMethod {
    Get,
    Put,
    Post,
    Delete,
}

#[derive(Clone)]
pub struct EdgeeRequest {
    pub method: HttpMethod,
    pub url: String,
    pub headers: Vec<(String, String)>,
    pub forward_client_headers: bool,
    pub body: String,
}

} // verus!
