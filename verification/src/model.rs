//! The mathematical model of the destination payload, and the mapping rules
//! that derive one from a normalized event and its context. Everything here
//! is specification; the executable mapper is proved against these
//! functions.
use crate::events::{Event, PageData, TrackData, UserData};
use crate::json::JsonVal;
use crate::shims::{json_number_of, query_pairs_of, rfc3339_of, tz_local_hour_of};
use crate::strings::{first_index_of, spec_has_prefix, split_on};
use vstd::prelude::*;

verus! {

/// Ghost form of one brand/version pair.
pub struct ChUaM {
    pub brand: Seq<char>,
    pub version: Seq<char>,
}

/// The open extension map: named JSON values in insertion order.
pub type FieldSeq = Seq<(Seq<char>, JsonVal)>;

/// Ghost form of the destination payload: one value per fixed field, plus
/// the extension map. A `Seq` field of length zero, an integer 0 and `None`
/// stand for "unset".
#[verifier::ext_equal]
pub struct DataModel {
    pub browser_language: Seq<char>,
    pub browser_language_local: Seq<char>,
    pub ch_ua: Seq<ChUaM>,
    pub ch_ua_arch: Seq<char>,
    pub ch_ua_bitness: Seq<char>,
    pub ch_ua_full_version: Seq<char>,
    pub ch_ua_full_version_list: Seq<ChUaM>,
    pub ch_ua_mobile: bool,
    pub ch_ua_model: Seq<char>,
    pub ch_ua_platform: Seq<char>,
    pub ch_ua_platform_version: Seq<char>,
    pub content_keywords: Option<Seq<Seq<char>>>,
    pub content_title: Option<Seq<char>>,
    pub cookie_creation_date: Option<Seq<char>>,
    pub device_display_width: int,
    pub device_display_height: int,
    pub device_hour: int,
    /// Carries the raw epoch seconds, not a computed hour: the collecting
    /// endpoint expects this field exactly so.
    pub device_local_hour: int,
    pub device_screen_width: int,
    pub device_screen_height: int,
    pub device_timestamp_utc: int,
    pub event_collection_platform: Seq<char>,
    pub event_collection_version: Seq<char>,
    pub event_url_full: Option<Seq<char>>,
    pub has_access: Option<Seq<char>>,
    pub page: Option<Seq<char>>,
    pub page_title_html: Option<Seq<char>>,
    pub page_name: Option<Seq<char>>,
    pub pageview_id: Option<Seq<char>>,
    pub previous_url: Option<Seq<char>>,
    pub visitor_privacy_consent: bool,
    pub visitor_privacy_mode: Seq<char>,
    pub src_campaign: Option<Seq<char>>,
    pub src_content: Option<Seq<char>>,
    pub src_medium: Option<Seq<char>>,
    pub src_source: Option<Seq<char>>,
    pub src_term: Option<Seq<char>>,
    pub user_id: Option<Seq<char>>,
    pub user_category: Option<Seq<char>>,
    pub additional_fields: FieldSeq,
}

/// Coercion of a free-form string into a typed JSON scalar: the literals
/// `true` and `false` become booleans, a JSON number becomes a number, and
/// anything else stays the original string.
pub open spec fn coerce(v: Seq<char>) -> JsonVal {
    if v == "true"@ {
        JsonVal::Bool(true)
    } else if v == "false"@ {
        JsonVal::Bool(false)
    } else {
        match json_number_of(v) {
            Some(t) => JsonVal::Number(t),
            None => JsonVal::Str(v),
        }
    }
}

/// The part of a locale tag before its first hyphen; the whole tag when it
/// has none.
pub open spec fn language_of(locale: Seq<char>) -> Seq<char> {
    if locale.contains('-') {
        locale.subrange(0, first_index_of(locale, '-'))
    } else {
        locale
    }
}

/// The part of a locale tag after its first hyphen; the whole tag when it
/// has none.
pub open spec fn region_of(locale: Seq<char>) -> Seq<char> {
    if locale.contains('-') {
        locale.subrange(first_index_of(locale, '-') + 1, locale.len() as int)
    } else {
        locale
    }
}

/// A version string cut at its first dot unless the full version is wanted.
pub open spec fn truncate_version(v: Seq<char>, full: bool) -> Seq<char> {
    if !full && v.contains('.') {
        v.subrange(0, first_index_of(v, '.'))
    } else {
        v
    }
}

/// One brand/version entry: the text around a single semicolon. Any other
/// shape is dropped.
pub open spec fn entry_of(e: Seq<char>, full: bool) -> Option<ChUaM> {
    let parts = split_on(e, ';');
    if parts.len() == 2 {
        Some(ChUaM { brand: parts[0], version: truncate_version(parts[1], full) })
    } else {
        None
    }
}

pub open spec fn entries_of(parts: Seq<Seq<char>>, full: bool) -> Seq<ChUaM>
    decreases parts.len(),
{
    if parts.len() == 0 {
        Seq::empty()
    } else {
        match entry_of(parts[0], full) {
            Some(e) => seq![e] + entries_of(parts.drop_first(), full),
            None => entries_of(parts.drop_first(), full),
        }
    }
}

/// The brand/version pairs of a compound user-agent string: entries between
/// pipes, valid ones kept in input order.
pub open spec fn ch_ua_of(s: Seq<char>, full: bool) -> Seq<ChUaM> {
    entries_of(split_on(s, '|'), full)
}

/// Inserts or replaces the value under `k`, keeping the first position of an
/// existing key.
pub open spec fn upsert(l: FieldSeq, k: Seq<char>, v: JsonVal) -> FieldSeq
    decreases l.len(),
{
    if l.len() == 0 {
        seq![(k, v)]
    } else if l[0].0 == k {
        seq![(k, v)] + l.drop_first()
    } else {
        seq![l[0]] + upsert(l.drop_first(), k, v)
    }
}

/// The value under the first occurrence of `k`, if any.
pub open spec fn lookup_field(l: FieldSeq, k: Seq<char>) -> Option<JsonVal>
    decreases l.len(),
{
    if l.len() == 0 {
        None
    } else if l[0].0 == k {
        Some(l[0].1)
    } else {
        lookup_field(l.drop_first(), k)
    }
}

/// The value of the last pair named `k` in an ordered key/value list.
pub open spec fn last_value_of(props: Seq<(Seq<char>, Seq<char>)>, key: Seq<char>) -> Option<
    Seq<char>,
>
    decreases props.len(),
{
    if props.len() == 0 {
        None
    } else if props.last().0 == key {
        Some(props.last().1)
    } else {
        last_value_of(props.drop_last(), key)
    }
}

pub open spec fn nonempty_opt(s: Seq<char>) -> Option<Seq<char>> {
    if s.len() > 0 {
        Some(s)
    } else {
        None
    }
}

/// Campaign attribution while the query string is folded in: the two fields
/// that `at_` parameters may overwrite, and the extension map.
pub struct QsState {
    pub medium: Option<Seq<char>>,
    pub campaign: Option<Seq<char>>,
    pub additional: FieldSeq,
}

/// One query-string pair: `at_medium` and `at_campaign` overwrite the
/// structured campaign fields; any other `at_` key, the source, content and
/// term parameters included, is only renamed to `src_` and coerced into the
/// extension map; keys without the prefix are ignored.
pub open spec fn apply_qs_pair(st: QsState, k: Seq<char>, v: Seq<char>) -> QsState {
    if !spec_has_prefix(k, "at_"@) {
        st
    } else if k == "at_medium"@ {
        QsState { medium: Some(v), ..st }
    } else if k == "at_campaign"@ {
        QsState { campaign: Some(v), ..st }
    } else {
        QsState { additional: upsert(st.additional, "src_"@ + k.skip(3), coerce(v)), ..st }
    }
}

pub open spec fn apply_qs(st: QsState, pairs: Seq<(Seq<char>, Seq<char>)>) -> QsState
    decreases pairs.len(),
{
    if pairs.len() == 0 {
        st
    } else {
        apply_qs(apply_qs_pair(st, pairs[0].0, pairs[0].1), pairs.drop_first())
    }
}

/// The campaign attribution of an event: structured campaign context first,
/// then the page's query string folded over it. A malformed or empty query
/// string changes nothing.
pub open spec fn campaign_state(ev: Event) -> QsState {
    let st0 = QsState {
        medium: nonempty_opt(ev.context.campaign.medium@),
        campaign: nonempty_opt(ev.context.campaign.name@),
        additional: Seq::empty(),
    };
    if ev.context.page.search@.len() > 0 {
        match query_pairs_of(ev.context.page.search@) {
            Some(pairs) => apply_qs(st0, pairs),
            None => st0,
        }
    } else {
        st0
    }
}

/// Hour of day of an epoch-seconds timestamp, read in UTC.
pub open spec fn utc_hour_of(ts: int) -> int {
    (((ts % 86400) + 86400) % 86400) / 3600
}

/// The device-hour rule: a named zone's local hour when the zone resolves,
/// 0 (unset) when it does not, and the UTC hour when no zone is named.
pub open spec fn device_hour_of(tz: Seq<char>, ts: int) -> int {
    if tz.len() > 0 {
        match tz_local_hour_of(tz, ts) {
            Some(h) => h,
            None => 0,
        }
    } else {
        utc_hour_of(ts)
    }
}

/// The user identifier: the identity wins over the anonymous one.
pub open spec fn user_id_of(anon: Seq<char>, uid: Seq<char>) -> Option<Seq<char>> {
    if uid.len() > 0 {
        Some(uid)
    } else if anon.len() > 0 {
        Some(anon)
    } else {
        None
    }
}

/// The mapping shared by every operation: all fields derived from the
/// context alone, before the event kind layers its own on top.
pub open spec fn common_model(ev: Event) -> DataModel {
    let c = ev.context.client;
    let cs = campaign_state(ev);
    let full_list = if c.user_agent_full_version_list@.len() > 0 {
        ch_ua_of(c.user_agent_full_version_list@, true)
    } else {
        Seq::empty()
    };
    DataModel {
        browser_language: language_of(c.locale@),
        browser_language_local: region_of(c.locale@),
        ch_ua: if c.user_agent_version_list@.len() > 0 {
            ch_ua_of(c.user_agent_version_list@, false)
        } else {
            Seq::empty()
        },
        ch_ua_arch: c.user_agent_architecture@,
        ch_ua_bitness: c.user_agent_bitness@,
        ch_ua_full_version: if full_list.len() > 0 {
            full_list[0].version
        } else {
            Seq::empty()
        },
        ch_ua_full_version_list: full_list,
        ch_ua_mobile: c.user_agent_mobile@ == "1"@,
        ch_ua_model: c.user_agent_model@,
        ch_ua_platform: c.os_name@,
        ch_ua_platform_version: c.os_version@,
        content_keywords: None,
        content_title: None,
        cookie_creation_date: rfc3339_of(ev.context.session.first_seen as int),
        device_display_width: if c.screen_width > 0 {
            c.screen_width as int
        } else {
            0
        },
        device_display_height: if c.screen_height > 0 {
            c.screen_height as int
        } else {
            0
        },
        device_hour: device_hour_of(c.timezone@, ev.timestamp as int),
        device_local_hour: ev.timestamp as int,
        device_screen_width: if c.screen_width > 0 {
            c.screen_width as int
        } else {
            0
        },
        device_screen_height: if c.screen_height > 0 {
            c.screen_height as int
        } else {
            0
        },
        device_timestamp_utc: ev.timestamp as int,
        event_collection_platform: "edgee"@,
        event_collection_version: "1.0.0"@,
        event_url_full: None,
        has_access: None,
        page: None,
        page_title_html: None,
        page_name: None,
        pageview_id: None,
        previous_url: nonempty_opt(ev.context.page.referrer@),
        visitor_privacy_consent: true,
        visitor_privacy_mode: "optin"@,
        src_campaign: cs.campaign,
        src_content: nonempty_opt(ev.context.campaign.content@),
        src_medium: cs.medium,
        src_source: nonempty_opt(ev.context.campaign.source@),
        src_term: nonempty_opt(ev.context.campaign.term@),
        user_id: user_id_of(ev.context.user.anonymous_id@, ev.context.user.user_id@),
        user_category: last_value_of(ev.context.user.properties.deep_view(), "user_category"@),
        additional_fields: cs.additional,
    }
}

/// Event-level properties folded into the extension map through coercion,
/// the key named by `skip_key` left to its own fixed field.
pub open spec fn fold_props(
    base: FieldSeq,
    props: Seq<(Seq<char>, Seq<char>)>,
    skip_key: Option<Seq<char>>,
) -> FieldSeq
    decreases props.len(),
{
    if props.len() == 0 {
        base
    } else {
        let p = props[0];
        let base2 = if skip_key == Some(p.0) {
            base
        } else {
            upsert(base, p.0, coerce(p.1))
        };
        fold_props(base2, props.drop_first(), skip_key)
    }
}

/// The payload of a page-view: the common mapping plus the page fields, the
/// access flag (defaulting to `anon`), and the page properties.
pub open spec fn page_model(ev: Event, pd: PageData) -> DataModel {
    let d = common_model(ev);
    let props = pd.properties.deep_view();
    DataModel {
        pageview_id: Some(ev.uuid@),
        page_name: nonempty_opt(pd.name@),
        content_title: nonempty_opt(pd.title@),
        page_title_html: nonempty_opt(pd.title@),
        page: nonempty_opt(pd.title@),
        content_keywords: Some(pd.keywords.deep_view()),
        event_url_full: Some(pd.url@),
        has_access: Some(
            match last_value_of(props, "has_access"@) {
                Some(v) => v,
                None => "anon"@,
            },
        ),
        additional_fields: fold_props(d.additional_fields, props, Some("has_access"@)),
        ..d
    }
}

/// The payload of a custom event: the common mapping plus every track
/// property in the extension map.
pub open spec fn track_model(ev: Event, td: TrackData) -> DataModel {
    let d = common_model(ev);
    DataModel {
        additional_fields: fold_props(d.additional_fields, td.properties.deep_view(), None),
        ..d
    }
}

/// The payload of an identity event: the identifiers and category come from
/// the event's own user data, the rest of its properties go to the
/// extension map.
pub open spec fn user_model(ev: Event, ud: UserData) -> DataModel {
    let d = common_model(ev);
    let props = ud.properties.deep_view();
    DataModel {
        user_id: user_id_of(ud.anonymous_id@, ud.user_id@),
        user_category: match last_value_of(props, "user_category"@) {
            Some(v) => Some(v),
            None => d.user_category,
        },
        additional_fields: fold_props(d.additional_fields, props, Some("user_category"@)),
        ..d
    }
}

pub proof fn lemma_entries_of_snoc(ps: Seq<Seq<char>>, p: Seq<char>, full: bool)
    ensures
        entries_of(ps.push(p), full) == entries_of(ps, full) + match entry_of(p, full) {
            Some(e) => seq![e],
            None => Seq::<ChUaM>::empty(),
        },
    decreases ps.len(),
{
    let tail = match entry_of(p, full) {
        Some(e) => seq![e],
        None => Seq::<ChUaM>::empty(),
    };
    if ps.len() == 0 {
        assert(ps.push(p)[0] == p);
        assert(ps.push(p).drop_first() =~= Seq::<Seq<char>>::empty());
        assert(entries_of(Seq::<Seq<char>>::empty(), full) == Seq::<ChUaM>::empty());
        match entry_of(p, full) {
            Some(e) => {
                assert(entries_of(ps.push(p), full) =~= seq![e]);
                assert(entries_of(ps, full) + tail =~= seq![e]);
            },
            None => {
                assert(entries_of(ps.push(p), full) =~= Seq::<ChUaM>::empty());
                assert(entries_of(ps, full) + tail =~= Seq::<ChUaM>::empty());
            },
        }
    } else {
        assert(ps.push(p)[0] == ps[0]);
        assert(ps.push(p).drop_first() =~= ps.drop_first().push(p));
        lemma_entries_of_snoc(ps.drop_first(), p, full);
        match entry_of(ps[0], full) {
            Some(e) => {
                assert((seq![e] + entries_of(ps.drop_first(), full)) + tail =~= seq![e] + (
                entries_of(ps.drop_first(), full) + tail));
            },
            None => {},
        }
    }
}

pub proof fn lemma_apply_qs_snoc(st: QsState, ps: Seq<(Seq<char>, Seq<char>)>, p: (Seq<char>, Seq<char>))
    ensures
        apply_qs(st, ps.push(p)) == apply_qs_pair(apply_qs(st, ps), p.0, p.1),
    decreases ps.len(),
{
    if ps.len() == 0 {
        assert(ps.push(p)[0] == p);
        assert(ps.push(p).drop_first() =~= Seq::<(Seq<char>, Seq<char>)>::empty());
        let st2 = apply_qs_pair(st, p.0, p.1);
        assert(apply_qs(st, ps.push(p)) == apply_qs(st2, ps.push(p).drop_first()));
        assert(apply_qs(st2, ps.push(p).drop_first()) == st2);
        assert(apply_qs(st, ps) == st);
    } else {
        assert(ps.push(p)[0] == ps[0]);
        assert(ps.push(p).drop_first() =~= ps.drop_first().push(p));
        let st2 = apply_qs_pair(st, ps[0].0, ps[0].1);
        lemma_apply_qs_snoc(st2, ps.drop_first(), p);
        assert(apply_qs(st, ps.push(p)) == apply_qs(st2, ps.drop_first().push(p)));
        assert(apply_qs(st, ps) == apply_qs(st2, ps.drop_first()));
    }
}

pub proof fn lemma_fold_props_snoc(
    base: FieldSeq,
    ps: Seq<(Seq<char>, Seq<char>)>,
    p: (Seq<char>, Seq<char>),
    skip_key: Option<Seq<char>>,
)
    ensures
        fold_props(base, ps.push(p), skip_key) == (if skip_key == Some(p.0) {
            fold_props(base, ps, skip_key)
        } else {
            upsert(fold_props(base, ps, skip_key), p.0, coerce(p.1))
        }),
    decreases ps.len(),
{
    if ps.len() == 0 {
        assert(ps.push(p)[0] == p);
        assert(ps.push(p).drop_first() =~= Seq::<(Seq<char>, Seq<char>)>::empty());
        assert(fold_props(base, ps, skip_key) == base);
        let base2 = if skip_key == Some(p.0) {
            base
        } else {
            upsert(base, p.0, coerce(p.1))
        };
        assert(fold_props(base, ps.push(p), skip_key) == fold_props(
            base2,
            ps.push(p).drop_first(),
            skip_key,
        ));
    } else {
        assert(ps.push(p)[0] == ps[0]);
        assert(ps.push(p).drop_first() =~= ps.drop_first().push(p));
        let base2 = if skip_key == Some(ps[0].0) {
            base
        } else {
            upsert(base, ps[0].0, coerce(ps[0].1))
        };
        lemma_fold_props_snoc(base2, ps.drop_first(), p, skip_key);
        assert(fold_props(base, ps.push(p), skip_key) == fold_props(
            base2,
            ps.drop_first().push(p),
            skip_key,
        ));
        assert(fold_props(base, ps, skip_key) == fold_props(base2, ps.drop_first(), skip_key));
    }
}

pub proof fn lemma_last_value_snoc(
    ps: Seq<(Seq<char>, Seq<char>)>,
    p: (Seq<char>, Seq<char>),
    key: Seq<char>,
)
    ensures
        last_value_of(ps.push(p), key) == (if p.0 == key {
            Some(p.1)
        } else {
            last_value_of(ps, key)
        }),
{
    assert(ps.push(p).last() == p);
    assert(ps.push(p).drop_last() =~= ps);
}

/// Replacing the value under a key that first occurs at `i` updates that
/// position and changes nothing else.
pub proof fn lemma_upsert_found(l: FieldSeq, k: Seq<char>, v: JsonVal, i: int)
    requires
        0 <= i < l.len(),
        l[i].0 == k,
        forall|j: int| 0 <= j < i ==> l[j].0 != k,
    ensures
        upsert(l, k, v) == l.update(i, (k, v)),
    decreases i,
{
    if i == 0 {
        assert(upsert(l, k, v) =~= l.update(0, (k, v)));
    } else {
        assert(forall|j: int| 0 <= j < i - 1 ==> l.drop_first()[j] == l[j + 1]);
        lemma_upsert_found(l.drop_first(), k, v, i - 1);
        assert(seq![l[0]] + l.drop_first().update(i - 1, (k, v)) =~= l.update(i, (k, v)));
    }
}

/// Inserting under a fresh key appends the pair.
pub proof fn lemma_upsert_absent(l: FieldSeq, k: Seq<char>, v: JsonVal)
    requires
        forall|j: int| 0 <= j < l.len() ==> l[j].0 != k,
    ensures
        upsert(l, k, v) == l.push((k, v)),
    decreases l.len(),
{
    if l.len() == 0 {
        assert(upsert(l, k, v) =~= l.push((k, v)));
    } else {
        assert(forall|j: int| 0 <= j < l.len() - 1 ==> l.drop_first()[j] == l[j + 1]);
        lemma_upsert_absent(l.drop_first(), k, v);
        assert(seq![l[0]] + l.drop_first().push((k, v)) =~= l.push((k, v)));
    }
}

/// The value of the last configuration pair under `k`: a later entry wins
/// over an earlier one of the same name.
pub open spec fn lookup_setting(settings: Seq<(Seq<char>, Seq<char>)>, k: Seq<char>) -> Option<
    Seq<char>,
>
    decreases settings.len(),
{
    if settings.len() == 0 {
        None
    } else if settings.last().0 == k {
        Some(settings.last().1)
    } else {
        lookup_setting(settings.drop_last(), k)
    }
}

} // verus!
