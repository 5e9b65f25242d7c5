//! A connector that turns a vendor-neutral analytics event (page view,
//! custom track, or user identity) into the HTTP request expected by a
//! Piano Analytics collection endpoint. The three operations resolve the
//! destination configuration, derive the payload fields from the event and
//! its context, and render the endpoint URL and JSON body.
pub mod events;
pub mod json;
pub mod laws;
pub mod model;
pub mod piano_payload;
pub mod serialize;
pub mod shims;
pub mod strings;

use crate::events::{Data, Dict, EdgeeRequest, Event, HttpMethod};
use crate::model::{
    fold_props, last_value_of, lemma_fold_props_snoc, lemma_last_value_snoc, lookup_setting,
    page_model, track_model, user_model, DataModel,
};
use crate::piano_payload::{parse_value, upsert_field, PianoEvent, PianoPayload};
use crate::serialize::{events_model, events_to_json, payload_body_json};
use crate::strings::str_eq;
use vstd::prelude::*;
use vstd::string::{StrSliceExecFns, StringExecFns};

verus! {

/// The collection endpoint: domain, site and client identifier substituted
/// verbatim, no escaping.
pub open spec fn url_of(domain: Seq<char>, site: Seq<char>, client: Seq<char>) -> Seq<char> {
    "https://"@ + domain + "/event?s="@ + site + "&idclient="@ + client
}

pub open spec fn site_of(settings: Dict) -> Option<Seq<char>> {
    lookup_setting(settings.deep_view(), "piano_site_id"@)
}

pub open spec fn domain_of(settings: Dict) -> Option<Seq<char>> {
    lookup_setting(settings.deep_view(), "piano_collection_domain"@)
}

/// What every successful operation returns: a POST to the endpoint URL,
/// one `content-type: text/plain` header, and the serialized envelope
/// holding exactly one destination event.
pub open spec fn request_matches(
    r: EdgeeRequest,
    domain: Seq<char>,
    site: Seq<char>,
    client: Seq<char>,
    name: Seq<char>,
    d: DataModel,
) -> bool {
    &&& r.method == HttpMethod::Post
    &&& r.url@ == url_of(domain, site, client)
    &&& r.headers.deep_view() == seq![("content-type"@, "text/plain"@)]
    &&& r.forward_client_headers
    &&& r.body@ == payload_body_json(seq![(name, d)])
}

/// Renders the endpoint URL and the serialized body around the envelope.
fn build_edgee_request(piano_payload: PianoPayload) -> (r: EdgeeRequest)
    ensures
        r.method == HttpMethod::Post,
        r.url@ == url_of(
            piano_payload.collection_domain@,
            piano_payload.site_id@,
            piano_payload.id_client@,
        ),
        r.headers.deep_view() == seq![("content-type"@, "text/plain"@)],
        r.forward_client_headers,
        r.body@ == payload_body_json(events_model(piano_payload.events@)),
{
    let mut headers: Vec<(String, String)> = Vec::new();
    headers.push((String::from_str("content-type"), String::from_str("text/plain")));
    let mut url = String::from_str("https://");
    url.append(piano_payload.collection_domain.as_str());
    url.append("/event?s=");
    url.append(piano_payload.site_id.as_str());
    url.append("&idclient=");
    url.append(piano_payload.id_client.as_str());
    let body = events_to_json(&piano_payload.events);
    proof {
        assert(headers.deep_view() =~= seq![("content-type"@, "text/plain"@)]);
        assert(url@ =~= url_of(
            piano_payload.collection_domain@,
            piano_payload.site_id@,
            piano_payload.id_client@,
        ));
    }
    EdgeeRequest { method: HttpMethod::Post, url, headers, forward_client_headers: true, body }
}

/// Appends the one mapped event to the empty envelope and renders the
/// request.
fn finish_request(payload: PianoPayload, event: PianoEvent) -> (r: Result<EdgeeRequest, String>)
    requires
        payload.events@.len() == 0,
    ensures
        r is Ok,
        request_matches(
            r->Ok_0,
            payload.collection_domain@,
            payload.site_id@,
            payload.id_client@,
            event.name@,
            event.data@,
        ),
{
    let mut payload = payload;
    let ghost nm = event.name@;
    let ghost dm = event.data@;
    payload.events.push(event);
    proof {
        assert(events_model(payload.events@) =~= seq![(nm, dm)]);
    }
    let req = build_edgee_request(payload);
    Ok(req)
}

/// The three public operations of the connector.
pub struct PianoComponent;

impl PianoComponent {
    /// A page view becomes a `page.display` event: the page's own fields
    /// layered over the common mapping, the access flag defaulting to
    /// `anon`, and every other page property coerced into the extension
    /// map.
    pub fn page(edgee_event: Event, settings: Dict) -> (r: Result<EdgeeRequest, String>)
        ensures
            match r {
                Ok(req) => {
                    &&& edgee_event.data is Page
                    &&& site_of(settings) is Some
                    &&& domain_of(settings) is Some
                    &&& request_matches(
                        req,
                        domain_of(settings).unwrap(),
                        site_of(settings).unwrap(),
                        edgee_event.context.user.edgee_id@,
                        "page.display"@,
                        page_model(edgee_event, edgee_event.data->Page_0),
                    )
                },
                Err(e) => {
                    ||| (!(edgee_event.data is Page) && e@ == "Missing page data"@)
                    ||| (edgee_event.data is Page && site_of(settings) is None && e@
                        == "Missing piano site id"@)
                    ||| (edgee_event.data is Page && site_of(settings) is Some && domain_of(
                        settings,
                    ) is None && e@ == "Missing piano collection domain"@)
                },
            },
    {
        match &edgee_event.data {
            Data::Page(data) => {
                let payload = match PianoPayload::new(&edgee_event, settings) {
                    Ok(p) => p,
                    Err(e) => {
                        return Err(e);
                    },
                };
                let mut event = PianoEvent::new("page.display", &edgee_event);
                event.data.pageview_id = Some(edgee_event.uuid.clone());
                if !data.name.as_str().is_empty() {
                    event.data.page_name = Some(data.name.clone());
                }
                if !data.title.as_str().is_empty() {
                    event.data.content_title = Some(data.title.clone());
                    event.data.page_title_html = Some(data.title.clone());
                    event.data.page = Some(data.title.clone());
                }
                event.data.content_keywords = Some(data.keywords.clone());
                event.data.event_url_full = Some(data.url.clone());
                event.data.has_access = Some(String::from_str("anon"));
                let ghost nm = event.name@;
                let ghost mid = event.data@;
                let ghost props = data.properties.deep_view();
                let pn = data.properties.len();
                let mut i: usize = 0;
                proof {
                    assert(props.subrange(0, 0) =~= Seq::<(Seq<char>, Seq<char>)>::empty());
                }
                while i < pn
                    invariant
                        i <= pn,
                        pn == data.properties@.len(),
                        props == data.properties.deep_view(),
                        event.name@ == nm,
                        event.data@ == (DataModel {
                            has_access: Some(
                                match last_value_of(props.subrange(0, i as int), "has_access"@) {
                                    Some(v) => v,
                                    None => "anon"@,
                                },
                            ),
                            additional_fields: fold_props(
                                mid.additional_fields,
                                props.subrange(0, i as int),
                                Some("has_access"@),
                            ),
                            ..mid
                        }),
                    decreases pn - i,
                {
                    let prop = &data.properties[i];
                    if str_eq(prop.0.as_str(), "has_access") {
                        event.data.has_access = Some(prop.1.clone());
                    } else {
                        let val = parse_value(prop.1.as_str());
                        upsert_field(&mut event.data.additional_fields, prop.0.clone(), val);
                    }
                    proof {
                        assert(props.subrange(0, i + 1 as int) =~= props.subrange(0, i as int).push(
                            props[i as int],
                        ));
                        lemma_fold_props_snoc(
                            mid.additional_fields,
                            props.subrange(0, i as int),
                            props[i as int],
                            Some("has_access"@),
                        );
                        lemma_last_value_snoc(
                            props.subrange(0, i as int),
                            props[i as int],
                            "has_access"@,
                        );
                    }
                    i += 1;
                }
                proof {
                    assert(props.subrange(0, pn as int) =~= props);
                    assert(event.data@ =~= page_model(edgee_event, edgee_event.data->Page_0));
                }
                finish_request(payload, event)
            },
            _ => Err(String::from_str("Missing page data")),
        }
    }

    /// A custom event keeps its own name: the common mapping plus every
    /// track property coerced into the extension map. An empty name is
    /// refused before the configuration is read.
    pub fn track(edgee_event: Event, settings: Dict) -> (r: Result<EdgeeRequest, String>)
        ensures
            match r {
                Ok(req) => {
                    &&& edgee_event.data is Track
                    &&& edgee_event.data->Track_0.name@.len() > 0
                    &&& site_of(settings) is Some
                    &&& domain_of(settings) is Some
                    &&& request_matches(
                        req,
                        domain_of(settings).unwrap(),
                        site_of(settings).unwrap(),
                        edgee_event.context.user.edgee_id@,
                        edgee_event.data->Track_0.name@,
                        track_model(edgee_event, edgee_event.data->Track_0),
                    )
                },
                Err(e) => {
                    ||| (!(edgee_event.data is Track) && e@ == "Missing track data"@)
                    ||| (edgee_event.data is Track && edgee_event.data->Track_0.name@.len() == 0
                        && e@ == "Missing event name"@)
                    ||| (edgee_event.data is Track && edgee_event.data->Track_0.name@.len() > 0
                        && site_of(settings) is None && e@ == "Missing piano site id"@)
                    ||| (edgee_event.data is Track && edgee_event.data->Track_0.name@.len() > 0
                        && site_of(settings) is Some && domain_of(settings) is None && e@
                        == "Missing piano collection domain"@)
                },
            },
    {
        match &edgee_event.data {
            Data::Track(data) => {
                if data.name.as_str().is_empty() {
                    return Err(String::from_str("Missing event name"));
                }
                let payload = match PianoPayload::new(&edgee_event, settings) {
                    Ok(p) => p,
                    Err(e) => {
                        return Err(e);
                    },
                };
                let mut event = PianoEvent::new(data.name.as_str(), &edgee_event);
                let ghost nm = event.name@;
                let ghost mid = event.data@;
                let ghost props = data.properties.deep_view();
                let pn = data.properties.len();
                let mut i: usize = 0;
                proof {
                    assert(props.subrange(0, 0) =~= Seq::<(Seq<char>, Seq<char>)>::empty());
                }
                while i < pn
                    invariant
                        i <= pn,
                        pn == data.properties@.len(),
                        props == data.properties.deep_view(),
                        event.name@ == nm,
                        event.data@ == (DataModel {
                            additional_fields: fold_props(
                                mid.additional_fields,
                                props.subrange(0, i as int),
                                None,
                            ),
                            ..mid
                        }),
                    decreases pn - i,
                {
                    let prop = &data.properties[i];
                    let val = parse_value(prop.1.as_str());
                    upsert_field(&mut event.data.additional_fields, prop.0.clone(), val);
                    proof {
                        assert(props.subrange(0, i + 1 as int) =~= props.subrange(0, i as int).push(
                            props[i as int],
                        ));
                        lemma_fold_props_snoc(
                            mid.additional_fields,
                            props.subrange(0, i as int),
                            props[i as int],
                            None,
                        );
                    }
                    i += 1;
                }
                proof {
                    assert(props.subrange(0, pn as int) =~= props);
                    assert(event.data@ =~= track_model(edgee_event, edgee_event.data->Track_0));
                }
                finish_request(payload, event)
            },
            _ => Err(String::from_str("Missing track data")),
        }
    }

    /// In this build the identity operation is switched off: every call is
    /// answered with the fixed refusal. The full mapping stands in
    /// `user_mapped` for builds that enable it.
    pub fn user(_edgee_event: Event, _settings: Dict) -> (r: Result<EdgeeRequest, String>)
        ensures
            r is Err,
            r->Err_0@ == "User event not mapped to Piano Analytics"@,
    {
        Err(String::from_str("User event not mapped to Piano Analytics"))
    }

    /// The identity operation with the mapping enabled: an `identify`
    /// event whose identifiers and category come from the event's own user
    /// data; at least one identifier must be present.
    pub fn user_mapped(edgee_event: Event, settings: Dict) -> (r: Result<EdgeeRequest, String>)
        ensures
            match r {
                Ok(req) => {
                    &&& edgee_event.data is User
                    &&& (edgee_event.data->User_0.user_id@.len() > 0
                        || edgee_event.data->User_0.anonymous_id@.len() > 0)
                    &&& site_of(settings) is Some
                    &&& domain_of(settings) is Some
                    &&& request_matches(
                        req,
                        domain_of(settings).unwrap(),
                        site_of(settings).unwrap(),
                        edgee_event.context.user.edgee_id@,
                        "identify"@,
                        user_model(edgee_event, edgee_event.data->User_0),
                    )
                },
                Err(e) => {
                    ||| (!(edgee_event.data is User) && e@ == "Missing user data"@)
                    ||| (edgee_event.data is User && edgee_event.data->User_0.user_id@.len() == 0
                        && edgee_event.data->User_0.anonymous_id@.len() == 0 && e@
                        == "Missing user id and anonymous id"@)
                    ||| (edgee_event.data is User && (edgee_event.data->User_0.user_id@.len() > 0
                        || edgee_event.data->User_0.anonymous_id@.len() > 0) && site_of(
                        settings,
                    ) is None && e@ == "Missing piano site id"@)
                    ||| (edgee_event.data is User && (edgee_event.data->User_0.user_id@.len() > 0
                        || edgee_event.data->User_0.anonymous_id@.len() > 0) && site_of(
                        settings,
                    ) is Some && domain_of(settings) is None && e@
                        == "Missing piano collection domain"@)
                },
            },
    {
        match &edgee_event.data {
            Data::User(data) => {
                if data.user_id.as_str().is_empty() && data.anonymous_id.as_str().is_empty() {
                    return Err(String::from_str("Missing user id and anonymous id"));
                }
                let payload = match PianoPayload::new(&edgee_event, settings) {
                    Ok(p) => p,
                    Err(e) => {
                        return Err(e);
                    },
                };
                let mut event = PianoEvent::new("identify", &edgee_event);
                event.data.user_id = if !data.user_id.as_str().is_empty() {
                    Some(data.user_id.clone())
                } else {
                    Some(data.anonymous_id.clone())
                };
                let ghost nm = event.name@;
                let ghost mid = event.data@;
                let ghost props = data.properties.deep_view();
                let pn = data.properties.len();
                let mut i: usize = 0;
                proof {
                    assert(props.subrange(0, 0) =~= Seq::<(Seq<char>, Seq<char>)>::empty());
                }
                while i < pn
                    invariant
                        i <= pn,
                        pn == data.properties@.len(),
                        props == data.properties.deep_view(),
                        event.name@ == nm,
                        event.data@ == (DataModel {
                            user_category: match last_value_of(
                                props.subrange(0, i as int),
                                "user_category"@,
                            ) {
                                Some(v) => Some(v),
                                None => mid.user_category,
                            },
                            additional_fields: fold_props(
                                mid.additional_fields,
                                props.subrange(0, i as int),
                                Some("user_category"@),
                            ),
                            ..mid
                        }),
                    decreases pn - i,
                {
                    let prop = &data.properties[i];
                    if str_eq(prop.0.as_str(), "user_category") {
                        event.data.user_category = Some(prop.1.clone());
                    } else {
                        let val = parse_value(prop.1.as_str());
                        upsert_field(&mut event.data.additional_fields, prop.0.clone(), val);
                    }
                    proof {
                        assert(props.subrange(0, i + 1 as int) =~= props.subrange(0, i as int).push(
                            props[i as int],
                        ));
                        lemma_fold_props_snoc(
                            mid.additional_fields,
                            props.subrange(0, i as int),
                            props[i as int],
                            Some("user_category"@),
                        );
                        lemma_last_value_snoc(
                            props.subrange(0, i as int),
                            props[i as int],
                            "user_category"@,
                        );
                    }
                    i += 1;
                }
                proof {
                    assert(props.subrange(0, pn as int) =~= props);
                    assert(event.data@ =~= user_model(edgee_event, edgee_event.data->User_0));
                }
                finish_request(payload, event)
            },
            _ => Err(String::from_str("Missing user data")),
        }
    }
}


} // verus!
