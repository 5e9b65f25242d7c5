//! The destination payload: its executable types, the compound-string
//! parser for brand/version lists, value coercion, and the mapper that
//! fills a payload from a normalized event.
use crate::events::{Dict, Event};
use crate::json::JsonValue;
use crate::model::{
    apply_qs, apply_qs_pair, campaign_state, ch_ua_of, coerce, common_model, entries_of, entry_of,
    lemma_apply_qs_snoc, lemma_entries_of_snoc, lemma_last_value_snoc, lemma_upsert_absent,
    lemma_upsert_found, last_value_of, lookup_setting, truncate_version, upsert, utc_hour_of,
    ChUaM, DataModel, QsState,
};
use crate::shims::{
    json_number_token, local_hour_in_zone, parse_query, rfc3339_from_timestamp,
};
use crate::strings::{
    find_char, first_index_of, has_prefix, split_all, split_on, str_eq, substring,
};
use vstd::prelude::*;
use vstd::string::{StrSliceExecFns, StringExecFns};

verus! {

/// One brand/version pair of a parsed user-agent list.
pub struct ChUa {
    pub brand: String,
    pub version: String,
}

impl View for ChUa {
    type V = ChUaM;

    open spec fn view(&self) -> ChUaM {
        ChUaM { brand: self.brand@, version: self.version@ }
    }
}

impl DeepView for ChUa {
    type V = ChUaM;

    open spec fn deep_view(&self) -> ChUaM {
        self.view()
    }
}

impl Clone for ChUa {
    fn clone(&self) -> (r: Self)
        ensures
            r@ == self@,
    {
        ChUa { brand: self.brand.clone(), version: self.version.clone() }
    }
}

/// Parses a compound brand/version string: entries separated by `|`, each a
/// brand and a version around a single `;`; malformed entries are dropped;
/// versions are cut at the first `.` unless `full` is set.
pub fn string_to_ch_ua(string: &str, full: bool) -> (r: Vec<ChUa>)
    ensures
        r.deep_view() == ch_ua_of(string@, full),
{
    let parts = split_all(string, '|');
    let ghost parts_dv = parts.deep_view();
    let mut out: Vec<ChUa> = Vec::new();
    let n = parts.len();
    let mut i: usize = 0;
    while i < n
        invariant
            i <= n,
            n == parts@.len(),
            parts_dv == parts.deep_view(),
            parts_dv == split_on(string@, '|'),
            out.deep_view() == entries_of(parts_dv.subrange(0, i as int), full),
        decreases n - i,
    {
        let ghost out0_dv = out.deep_view();
        let part: &String = &parts[i];
        let sub = split_all(part.as_str(), ';');
        if sub.len() == 2 {
            let brand = sub[0].clone();
            let version: String = if !full {
                match find_char(sub[1].as_str(), '.') {
                    Some(j) => {
                        proof {
                            crate::strings::lemma_first_index_of(sub[1]@, '.');
                        }
                        substring(sub[1].as_str(), 0, j)
                    },
                    None => sub[1].clone(),
                }
            } else {
                sub[1].clone()
            };
            proof {
                assert(sub.deep_view() == split_on(part@, ';'));
                assert(version@ == truncate_version(sub.deep_view()[1], full));
            }
            out.push(ChUa { brand, version });
            proof {
                assert(entry_of(parts_dv[i as int], full) == Some(out.deep_view().last()));
                assert(out.deep_view() =~= out0_dv.push(out.deep_view().last()));
            }
        } else {
            proof {
                assert(entry_of(parts_dv[i as int], full) is None);
            }
        }
        proof {
            assert(parts_dv.subrange(0, i + 1 as int) =~= parts_dv.subrange(0, i as int).push(
                parts_dv[i as int],
            ));
            lemma_entries_of_snoc(parts_dv.subrange(0, i as int), parts_dv[i as int], full);
            assert(out.deep_view() =~= entries_of(parts_dv.subrange(0, i + 1 as int), full));
        }
        i += 1;
    }
    proof {
        assert(parts_dv.subrange(0, n as int) =~= parts_dv);
    }
    out
}

/// Coerces a free-form string property value into a typed JSON scalar:
/// `true` and `false` become booleans, a JSON number becomes a number, and
/// any other string stays itself.
pub fn parse_value(value: &str) -> (r: JsonValue)
    ensures
        r@ == coerce(value@),
{
    if str_eq(value, "true") {
        JsonValue::Bool(true)
    } else if str_eq(value, "false") {
        JsonValue::Bool(false)
    } else {
        match json_number_token(value) {
            Some(t) => JsonValue::Number(t),
            None => JsonValue::Str(value.to_owned()),
        }
    }
}

/// Inserts `v` under `k` into the extension map, replacing the value in
/// place when the key is already present.
pub fn upsert_field(l: &mut Vec<(String, JsonValue)>, k: String, v: JsonValue)
    ensures
        final(l).deep_view() == upsert(old(l).deep_view(), k@, v@),
{
    let n = l.len();
    let mut i: usize = 0;
    while i < n
        invariant
            i <= n,
            n == l@.len(),
            l == old(l),
            forall|j: int| 0 <= j < i ==> l.deep_view()[j].0 != k@,
        decreases n - i,
    {
        if str_eq(l[i].0.as_str(), k.as_str()) {
            let ghost old_dv = l.deep_view();
            l.remove(i);
            l.insert(i, (k, v));
            proof {
                lemma_upsert_found(old_dv, old_dv[i as int].0, v@, i as int);
                assert(l.deep_view() =~= old_dv.update(i as int, (old_dv[i as int].0, v@)));
            }
            return ;
        }
        i += 1;
    }
    l.push((k, v));
    proof {
        lemma_upsert_absent(old(l).deep_view(), k@, v@);
        assert(l.deep_view() =~= old(l).deep_view().push((k@, v@)));
    }
}

/// Hour of day of an epoch-seconds timestamp, read in UTC.
fn utc_hour(ts: i64) -> (h: i64)
    ensures
        h as int == utc_hour_of(ts as int),
        0 <= h < 24,
{
    let a = ts % 86400;
    let b = (a + 86400) % 86400;
    b / 3600
}

/// The flat destination record: around forty fixed fields plus the open
/// extension map. Unset optional strings are `None`; unset numbers are 0.
pub struct PianoData {
    pub browser_language: String,
    pub browser_language_local: String,
    pub ch_ua: Vec<ChUa>,
    pub ch_ua_arch: String,
    pub ch_ua_bitness: String,
    pub ch_ua_full_version: String,
    pub ch_ua_full_version_list: Vec<ChUa>,
    pub ch_ua_mobile: bool,
    pub ch_ua_model: String,
    pub ch_ua_platform: String,
    pub ch_ua_platform_version: String,
    pub content_keywords: Option<Vec<String>>,
    pub content_title: Option<String>,
    pub cookie_creation_date: Option<String>,
    pub device_display_width: i64,
    pub device_display_height: i64,
    pub device_hour: i64,
    pub device_local_hour: i64,
    pub device_screen_width: i64,
    pub device_screen_height: i64,
    pub device_timestamp_utc: i64,
    pub event_collection_platform: String,
    pub event_collection_version: String,
    pub event_url_full: Option<String>,
    pub has_access: Option<String>,
    pub page: Option<String>,
    pub page_title_html: Option<String>,
    pub page_name: Option<String>,
    pub pageview_id: Option<String>,
    pub previous_url: Option<String>,
    pub visitor_privacy_consent: bool,
    pub visitor_privacy_mode: String,
    pub src_campaign: Option<String>,
    pub src_content: Option<String>,
    pub src_medium: Option<String>,
    pub src_source: Option<String>,
    pub src_term: Option<String>,
    pub user_id: Option<String>,
    pub user_category: Option<String>,
    pub additional_fields: Vec<(String, JsonValue)>,
}

impl View for PianoData {
    type V = DataModel;

    open spec fn view(&self) -> DataModel {
        DataModel {
            browser_language: self.browser_language@,
            browser_language_local: self.browser_language_local@,
            ch_ua: self.ch_ua.deep_view(),
            ch_ua_arch: self.ch_ua_arch@,
            ch_ua_bitness: self.ch_ua_bitness@,
            ch_ua_full_version: self.ch_ua_full_version@,
            ch_ua_full_version_list: self.ch_ua_full_version_list.deep_view(),
            ch_ua_mobile: self.ch_ua_mobile,
            ch_ua_model: self.ch_ua_model@,
            ch_ua_platform: self.ch_ua_platform@,
            ch_ua_platform_version: self.ch_ua_platform_version@,
            content_keywords: self.content_keywords.deep_view(),
            content_title: self.content_title.deep_view(),
            cookie_creation_date: self.cookie_creation_date.deep_view(),
            device_display_width: self.device_display_width as int,
            device_display_height: self.device_display_height as int,
            device_hour: self.device_hour as int,
            device_local_hour: self.device_local_hour as int,
            device_screen_width: self.device_screen_width as int,
            device_screen_height: self.device_screen_height as int,
            device_timestamp_utc: self.device_timestamp_utc as int,
            event_collection_platform: self.event_collection_platform@,
            event_collection_version: self.event_collection_version@,
            event_url_full: self.event_url_full.deep_view(),
            has_access: self.has_access.deep_view(),
            page: self.page.deep_view(),
            page_title_html: self.page_title_html.deep_view(),
            page_name: self.page_name.deep_view(),
            pageview_id: self.pageview_id.deep_view(),
            previous_url: self.previous_url.deep_view(),
            visitor_privacy_consent: self.visitor_privacy_consent,
            visitor_privacy_mode: self.visitor_privacy_mode@,
            src_campaign: self.src_campaign.deep_view(),
            src_content: self.src_content.deep_view(),
            src_medium: self.src_medium.deep_view(),
            src_source: self.src_source.deep_view(),
            src_term: self.src_term.deep_view(),
            user_id: self.user_id.deep_view(),
            user_category: self.user_category.deep_view(),
            additional_fields: self.additional_fields.deep_view(),
        }
    }
}

/// One destination event: its wire name and its payload record.
pub struct PianoEvent {
    pub name: String,
    pub data: PianoData,
}

impl PianoEvent {
    /// Fills a payload record from the event's context: the mapping every
    /// operation shares, exactly `common_model`.
    #[verifier::rlimit(60)]
    pub fn new(name: &str, edgee_event: &Event) -> (r: PianoEvent)
        ensures
            r.name@ == name@,
            r.data@ == common_model(*edgee_event),
    {
        let c = &edgee_event.context.client;
        // locale: language before the first hyphen, region after it
        let (lang, region): (String, String) = match find_char(c.locale.as_str(), '-') {
            Some(i) => {
                proof {
                    crate::strings::lemma_first_index_of(c.locale@, '-');
                }
                let n = c.locale.as_str().unicode_len();
                (substring(c.locale.as_str(), 0, i), substring(c.locale.as_str(), i + 1, n))
            },
            None => (c.locale.clone(), c.locale.clone()),
        };
        // device hour: the named zone when it resolves, the UTC hour without one
        let ts = edgee_event.timestamp;
        let mut device_hour: i64 = 0;
        if !c.timezone.as_str().is_empty() {
            match local_hour_in_zone(c.timezone.as_str(), ts) {
                Some(h) => {
                    device_hour = h as i64;
                },
                None => {},
            }
        } else {
            device_hour = utc_hour(ts);
        }
        // client hints
        let ch_ua: Vec<ChUa> = if !c.user_agent_version_list.as_str().is_empty() {
            string_to_ch_ua(c.user_agent_version_list.as_str(), false)
        } else {
            Vec::new()
        };
        let ch_ua_full_version_list: Vec<ChUa> = if !c
            .user_agent_full_version_list
            .as_str()
            .is_empty() {
            string_to_ch_ua(c.user_agent_full_version_list.as_str(), true)
        } else {
            Vec::new()
        };
        let ch_ua_full_version: String = if ch_ua_full_version_list.len() > 0 {
            ch_ua_full_version_list[0].version.clone()
        } else {
            String::new()
        };
        let mobile = str_eq(c.user_agent_mobile.as_str(), "1");
        // screen sizes, only when strictly positive
        let (ddw, dsw): (i64, i64) = if c.screen_width > 0 {
            (c.screen_width as i64, c.screen_width as i64)
        } else {
            (0, 0)
        };
        let (ddh, dsh): (i64, i64) = if c.screen_height > 0 {
            (c.screen_height as i64, c.screen_height as i64)
        } else {
            (0, 0)
        };
        // first-seen instant rendered as RFC 3339
        let cookie_creation_date = rfc3339_from_timestamp(edgee_event.context.session.first_seen);
        // campaign attribution, then the query string folded over it
        let camp = &edgee_event.context.campaign;
        let mut src_medium: Option<String> = if !camp.medium.as_str().is_empty() {
            Some(camp.medium.clone())
        } else {
            None
        };
        let mut src_campaign: Option<String> = if !camp.name.as_str().is_empty() {
            Some(camp.name.clone())
        } else {
            None
        };
        let src_source: Option<String> = if !camp.source.as_str().is_empty() {
            Some(camp.source.clone())
        } else {
            None
        };
        let src_content: Option<String> = if !camp.content.as_str().is_empty() {
            Some(camp.content.clone())
        } else {
            None
        };
        let src_term: Option<String> = if !camp.term.as_str().is_empty() {
            Some(camp.term.clone())
        } else {
            None
        };
        let mut additional_fields: Vec<(String, JsonValue)> = Vec::new();
        let ghost st0 = QsState {
            medium: src_medium.deep_view(),
            campaign: src_campaign.deep_view(),
            additional: additional_fields.deep_view(),
        };
        proof {
            assert(st0.additional =~= Seq::<(Seq<char>, crate::json::JsonVal)>::empty());
        }
        let search = &edgee_event.context.page.search;
        if !search.as_str().is_empty() {
            match parse_query(search.as_str()) {
                Some(pairs) => {
                    let ghost pairs_dv = pairs.deep_view();
                    let m = pairs.len();
                    let mut i: usize = 0;
                    while i < m
                        invariant
                            i <= m,
                            m == pairs@.len(),
                            pairs_dv == pairs.deep_view(),
                            (QsState {
                                medium: src_medium.deep_view(),
                                campaign: src_campaign.deep_view(),
                                additional: additional_fields.deep_view(),
                            }) == apply_qs(st0, pairs_dv.subrange(0, i as int)),
                        decreases m - i,
                    {
                        let ghost st_prev = QsState {
                            medium: src_medium.deep_view(),
                            campaign: src_campaign.deep_view(),
                            additional: additional_fields.deep_view(),
                        };
                        let pair = &pairs[i];
                        if has_prefix(pair.0.as_str(), "at_") {
                            if str_eq(pair.0.as_str(), "at_medium") {
                                src_medium = Some(pair.1.clone());
                            } else if str_eq(pair.0.as_str(), "at_campaign") {
                                src_campaign = Some(pair.1.clone());
                            } else {
                                proof {
                                    reveal_strlit("at_");
                                }
                                let kl = pair.0.as_str().unicode_len();
                                let mut nk = String::from_str("src_");
                                nk.append(pair.0.as_str().substring_char(3, kl));
                                proof {
                                    assert(pair.0@.subrange(3, kl as int) =~= pair.0@.skip(3));
                                }
                                let val = parse_value(pair.1.as_str());
                                upsert_field(&mut additional_fields, nk, val);
                            }
                        }
                        proof {
                            assert(pairs_dv.subrange(0, i + 1 as int) =~= pairs_dv.subrange(
                                0,
                                i as int,
                            ).push(pairs_dv[i as int]));
                            lemma_apply_qs_snoc(st0, pairs_dv.subrange(0, i as int), pairs_dv[i as int]);
                            assert(QsState {
                                medium: src_medium.deep_view(),
                                campaign: src_campaign.deep_view(),
                                additional: additional_fields.deep_view(),
                            } == apply_qs_pair(st_prev, pairs_dv[i as int].0, pairs_dv[i as int].1));
                        }
                        i += 1;
                    }
                    proof {
                        assert(pairs_dv.subrange(0, m as int) =~= pairs_dv);
                    }
                },
                None => {},
            }
        }
        proof {
            assert(QsState {
                medium: src_medium.deep_view(),
                campaign: src_campaign.deep_view(),
                additional: additional_fields.deep_view(),
            } == campaign_state(*edgee_event));
        }
        // user identifiers: identity wins over the anonymous one
        let u = &edgee_event.context.user;
        let mut user_id: Option<String> = None;
        if !u.anonymous_id.as_str().is_empty() {
            user_id = Some(u.anonymous_id.clone());
        }
        if !u.user_id.as_str().is_empty() {
            user_id = Some(u.user_id.clone());
        }
        // the context user's category property, last one named wins
        let mut user_category: Option<String> = None;
        let ghost uprops = u.properties.deep_view();
        let un = u.properties.len();
        let mut i: usize = 0;
        while i < un
            invariant
                i <= un,
                un == u.properties@.len(),
                uprops == u.properties.deep_view(),
                user_category.deep_view() == last_value_of(
                    uprops.subrange(0, i as int),
                    "user_category"@,
                ),
            decreases un - i,
        {
            let prop = &u.properties[i];
            if str_eq(prop.0.as_str(), "user_category") {
                user_category = Some(prop.1.clone());
            }
            proof {
                assert(uprops.subrange(0, i + 1 as int) =~= uprops.subrange(0, i as int).push(
                    uprops[i as int],
                ));
                lemma_last_value_snoc(
                    uprops.subrange(0, i as int),
                    uprops[i as int],
                    "user_category"@,
                );
            }
            i += 1;
        }
        proof {
            assert(uprops.subrange(0, un as int) =~= uprops);
        }
        let referrer = &edgee_event.context.page.referrer;
        let data = PianoData {
            browser_language: lang,
            browser_language_local: region,
            ch_ua,
            ch_ua_arch: c.user_agent_architecture.clone(),
            ch_ua_bitness: c.user_agent_bitness.clone(),
            ch_ua_full_version,
            ch_ua_full_version_list,
            ch_ua_mobile: mobile,
            ch_ua_model: c.user_agent_model.clone(),
            ch_ua_platform: c.os_name.clone(),
            ch_ua_platform_version: c.os_version.clone(),
            content_keywords: None,
            content_title: None,
            cookie_creation_date,
            device_display_width: ddw,
            device_display_height: ddh,
            device_hour,
            device_local_hour: ts,
            device_screen_width: dsw,
            device_screen_height: dsh,
            device_timestamp_utc: ts,
            event_collection_platform: String::from_str("edgee"),
            event_collection_version: String::from_str("1.0.0"),
            event_url_full: None,
            has_access: None,
            page: None,
            page_title_html: None,
            page_name: None,
            pageview_id: None,
            previous_url: if !referrer.as_str().is_empty() {
                Some(referrer.clone())
            } else {
                None
            },
            visitor_privacy_consent: true,
            visitor_privacy_mode: String::from_str("optin"),
            src_campaign,
            src_content,
            src_medium,
            src_source,
            src_term,
            user_id,
            user_category,
            additional_fields,
        };
        proof {
            if c.user_agent_version_list@.len() == 0 {
                assert(data.ch_ua.deep_view() =~= Seq::<ChUaM>::empty());
            }
            if c.user_agent_full_version_list@.len() == 0 {
                assert(data.ch_ua_full_version_list.deep_view() =~= Seq::<ChUaM>::empty());
            }
            assert(data@ =~= common_model(*edgee_event));
        }
        PianoEvent { name: name.to_owned(), data }
    }
}

/// The outgoing envelope: routing identifiers (not serialized into the
/// body) and the destination events.
pub struct PianoPayload {
    pub site_id: String,
    pub collection_domain: String,
    pub id_client: String,
    pub events: Vec<PianoEvent>,
}

/// The value of the last configuration entry named `key`, if any.
fn get_setting(settings: &Dict, key: &str) -> (r: Option<String>)
    ensures
        r.deep_view() == lookup_setting(settings.deep_view(), key@),
{
    let ghost dv = settings.deep_view();
    let n = settings.len();
    proof {
        assert(dv.subrange(0, n as int) =~= dv);
    }
    let mut i: usize = n;
    while i > 0
        invariant
            i <= n,
            n == settings@.len(),
            dv == settings.deep_view(),
            lookup_setting(dv, key@) == lookup_setting(dv.subrange(0, i as int), key@),
        decreases i,
    {
        i -= 1;
        let pair = &settings[i];
        proof {
            assert(dv.subrange(0, i + 1 as int).last() == dv[i as int]);
            assert(dv.subrange(0, i + 1 as int).drop_last() =~= dv.subrange(0, i as int));
        }
        if str_eq(pair.0.as_str(), key) {
            return Some(pair.1.clone());
        }
    }
    proof {
        assert(dv.subrange(0, 0) =~= Seq::<(Seq<char>, Seq<char>)>::empty());
    }
    None
}

impl PianoPayload {
    /// Resolves the two mandatory configuration values and starts an empty
    /// envelope for the event's client.
    pub fn new(edgee_event: &Event, cred_map: Dict) -> (r: Result<PianoPayload, String>)
        ensures
            match r {
                Ok(p) => {
                    &&& lookup_setting(cred_map.deep_view(), "piano_site_id"@) == Some(p.site_id@)
                    &&& lookup_setting(cred_map.deep_view(), "piano_collection_domain"@) == Some(
                        p.collection_domain@,
                    )
                    &&& p.id_client@ == edgee_event.context.user.edgee_id@
                    &&& p.events@.len() == 0
                },
                Err(e) => {
                    ||| (lookup_setting(cred_map.deep_view(), "piano_site_id"@) is None && e@
                        == "Missing piano site id"@)
                    ||| (lookup_setting(cred_map.deep_view(), "piano_site_id"@) is Some
                        && lookup_setting(cred_map.deep_view(), "piano_collection_domain"@) is None
                        && e@ == "Missing piano collection domain"@)
                },
            },
    {
        let site_id = match get_setting(&cred_map, "piano_site_id") {
            Some(v) => v,
            None => {
                return Err(String::from_str("Missing piano site id"));
            },
        };
        let collection_domain = match get_setting(&cred_map, "piano_collection_domain") {
            Some(v) => v,
            None => {
                return Err(String::from_str("Missing piano collection domain"));
            },
        };
        let id_client = edgee_event.context.user.edgee_id.clone();
        Ok(PianoPayload { site_id, collection_domain, id_client, events: Vec::new() })
    }
}

} // verus!
