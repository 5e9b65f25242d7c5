//! Verified serialization of the envelope into its JSON body: field order
//! is fixed, unset optional fields are omitted, and the extension map's
//! keys are flattened into the same object as sibling keys.
use crate::json::{jquote, json_val_text, write_jstr, write_json_value, JsonValue};
use crate::model::{ChUaM, DataModel, FieldSeq};
use crate::piano_payload::{ChUa, PianoData, PianoEvent};
use crate::strings::{dec_of_int, i64_to_dec, push_char};
use vstd::prelude::*;
use vstd::string::{StrSliceExecFns, StringExecFns};

verus! {

pub open spec fn jfield_first_str(name: Seq<char>, v: Seq<char>) -> Seq<char> {
    jquote(name) + seq![':'] + jquote(v)
}

pub open spec fn jfield_str(name: Seq<char>, v: Seq<char>) -> Seq<char> {
    seq![','] + jquote(name) + seq![':'] + jquote(v)
}

pub open spec fn jfield_opt_str(name: Seq<char>, v: Option<Seq<char>>) -> Seq<char> {
    match v {
        None => Seq::empty(),
        Some(s) => jfield_str(name, s),
    }
}

pub open spec fn jfield_nonempty_str(name: Seq<char>, v: Seq<char>) -> Seq<char> {
    if v.len() == 0 {
        Seq::empty()
    } else {
        jfield_str(name, v)
    }
}

pub open spec fn jfield_int(name: Seq<char>, i: int) -> Seq<char> {
    seq![','] + jquote(name) + seq![':'] + dec_of_int(i)
}

pub open spec fn jfield_bool(name: Seq<char>, b: bool) -> Seq<char> {
    seq![','] + jquote(name) + seq![':'] + (if b {
        "true"@
    } else {
        "false"@
    })
}

pub open spec fn chua_obj(e: ChUaM) -> Seq<char> {
    seq!['{'] + jquote("brand"@) + seq![':'] + jquote(e.brand) + seq![','] + jquote("version"@)
        + seq![':'] + jquote(e.version) + seq!['}']
}

pub open spec fn chua_rest(l: Seq<ChUaM>) -> Seq<char>
    decreases l.len(),
{
    if l.len() == 0 {
        Seq::empty()
    } else {
        seq![','] + chua_obj(l[0]) + chua_rest(l.drop_first())
    }
}

pub open spec fn chua_array(l: Seq<ChUaM>) -> Seq<char> {
    seq!['['] + (if l.len() == 0 {
        Seq::<char>::empty()
    } else {
        chua_obj(l[0]) + chua_rest(l.drop_first())
    }) + seq![']']
}

/// A brand/version list is serialized only when it has entries.
pub open spec fn jfield_chua(name: Seq<char>, l: Seq<ChUaM>) -> Seq<char> {
    if l.len() == 0 {
        Seq::empty()
    } else {
        seq![','] + jquote(name) + seq![':'] + chua_array(l)
    }
}

pub open spec fn str_rest(l: Seq<Seq<char>>) -> Seq<char>
    decreases l.len(),
{
    if l.len() == 0 {
        Seq::empty()
    } else {
        seq![','] + jquote(l[0]) + str_rest(l.drop_first())
    }
}

pub open spec fn str_array(l: Seq<Seq<char>>) -> Seq<char> {
    seq!['['] + (if l.len() == 0 {
        Seq::<char>::empty()
    } else {
        jquote(l[0]) + str_rest(l.drop_first())
    }) + seq![']']
}

pub open spec fn jfield_str_list(name: Seq<char>, v: Option<Seq<Seq<char>>>) -> Seq<char> {
    match v {
        None => Seq::empty(),
        Some(l) => seq![','] + jquote(name) + seq![':'] + str_array(l),
    }
}

/// The extension map's entries, each a sibling key of the fixed fields.
pub open spec fn jfields_additional(l: FieldSeq) -> Seq<char>
    decreases l.len(),
{
    if l.len() == 0 {
        Seq::empty()
    } else {
        seq![','] + jquote(l[0].0) + seq![':'] + json_val_text(l[0].1) + jfields_additional(
            l.drop_first(),
        )
    }
}

/// The serialized payload record: every fixed field in its fixed order,
/// optional ones only when set, the extension map flattened at the end.
#[verifier::opaque]
pub open spec fn data_json(d: DataModel) -> Seq<char> {
    seq!['{'] + jfield_first_str("browser_language"@, d.browser_language) + jfield_str(
        "browser_language_local"@,
        d.browser_language_local,
    ) + jfield_chua("ch_ua"@, d.ch_ua) + jfield_nonempty_str("ch_ua_arch"@, d.ch_ua_arch)
        + jfield_nonempty_str("ch_ua_bitness"@, d.ch_ua_bitness) + jfield_nonempty_str(
        "ch_ua_full_version"@,
        d.ch_ua_full_version,
    ) + jfield_chua("ch_ua_full_version_list"@, d.ch_ua_full_version_list) + jfield_bool(
        "ch_ua_mobile"@,
        d.ch_ua_mobile,
    ) + jfield_nonempty_str("ch_ua_model"@, d.ch_ua_model) + jfield_nonempty_str(
        "ch_ua_platform"@,
        d.ch_ua_platform,
    ) + jfield_nonempty_str("ch_ua_platform_version"@, d.ch_ua_platform_version) + jfield_str_list(
        "content_keywords"@,
        d.content_keywords,
    ) + jfield_opt_str("content_title"@, d.content_title) + jfield_opt_str(
        "cookie_creation_date"@,
        d.cookie_creation_date,
    ) + jfield_int("device_display_width"@, d.device_display_width) + jfield_int(
        "device_display_height"@,
        d.device_display_height,
    ) + jfield_int("device_hour"@, d.device_hour) + jfield_int(
        "device_local_hour"@,
        d.device_local_hour,
    ) + jfield_int("device_screen_width"@, d.device_screen_width) + jfield_int(
        "device_screen_height"@,
        d.device_screen_height,
    ) + jfield_int("device_timestamp_utc"@, d.device_timestamp_utc) + jfield_str(
        "event_collection_platform"@,
        d.event_collection_platform,
    ) + jfield_str("event_collection_version"@, d.event_collection_version) + jfield_opt_str(
        "event_url_full"@,
        d.event_url_full,
    ) + jfield_opt_str("has_access"@, d.has_access) + jfield_opt_str("page"@, d.page)
        + jfield_opt_str("page_title_html"@, d.page_title_html) + jfield_opt_str(
        "page_name"@,
        d.page_name,
    ) + jfield_opt_str("pageview_id"@, d.pageview_id) + jfield_opt_str(
        "previous_url"@,
        d.previous_url,
    ) + jfield_bool("visitor_privacy_consent"@, d.visitor_privacy_consent) + jfield_str(
        "visitor_privacy_mode"@,
        d.visitor_privacy_mode,
    ) + jfield_opt_str("src_campaign"@, d.src_campaign) + jfield_opt_str(
        "src_content"@,
        d.src_content,
    ) + jfield_opt_str("src_medium"@, d.src_medium) + jfield_opt_str("src_source"@, d.src_source)
        + jfield_opt_str("src_term"@, d.src_term) + jfield_opt_str("user_id"@, d.user_id)
        + jfield_opt_str("user_category"@, d.user_category) + jfields_additional(
        d.additional_fields,
    ) + seq!['}']
}

pub proof fn lemma_chua_rest_snoc(ps: Seq<ChUaM>, p: ChUaM)
    ensures
        chua_rest(ps.push(p)) == chua_rest(ps) + (seq![','] + chua_obj(p)),
    decreases ps.len(),
{
    if ps.len() == 0 {
        assert(ps.push(p)[0] == p);
        assert(ps.push(p).drop_first() =~= Seq::<ChUaM>::empty());
        assert(chua_rest(Seq::<ChUaM>::empty()) == Seq::<char>::empty());
        assert(chua_rest(ps.push(p)) =~= chua_rest(ps) + (seq![','] + chua_obj(p)));
    } else {
        assert(ps.push(p)[0] == ps[0]);
        assert(ps.push(p).drop_first() =~= ps.drop_first().push(p));
        lemma_chua_rest_snoc(ps.drop_first(), p);
        assert(chua_rest(ps.push(p)) =~= chua_rest(ps) + (seq![','] + chua_obj(p)));
    }
}

pub proof fn lemma_str_rest_snoc(ps: Seq<Seq<char>>, p: Seq<char>)
    ensures
        str_rest(ps.push(p)) == str_rest(ps) + (seq![','] + jquote(p)),
    decreases ps.len(),
{
    if ps.len() == 0 {
        assert(ps.push(p)[0] == p);
        assert(ps.push(p).drop_first() =~= Seq::<Seq<char>>::empty());
        assert(str_rest(Seq::<Seq<char>>::empty()) == Seq::<char>::empty());
        assert(str_rest(ps.push(p)) =~= str_rest(ps) + (seq![','] + jquote(p)));
    } else {
        assert(ps.push(p)[0] == ps[0]);
        assert(ps.push(p).drop_first() =~= ps.drop_first().push(p));
        lemma_str_rest_snoc(ps.drop_first(), p);
        assert(str_rest(ps.push(p)) =~= str_rest(ps) + (seq![','] + jquote(p)));
    }
}

pub proof fn lemma_additional_snoc(ps: FieldSeq, p: (Seq<char>, crate::json::JsonVal))
    ensures
        jfields_additional(ps.push(p)) == jfields_additional(ps) + (seq![','] + jquote(p.0)
            + seq![':'] + json_val_text(p.1)),
    decreases ps.len(),
{
    if ps.len() == 0 {
        assert(ps.push(p)[0] == p);
        assert(ps.push(p).drop_first() =~= FieldSeq::empty());
        assert(jfields_additional(FieldSeq::empty()) == Seq::<char>::empty());
        assert(jfields_additional(ps.push(p)) =~= jfields_additional(ps) + (seq![','] + jquote(p.0)
            + seq![':'] + json_val_text(p.1)));
    } else {
        assert(ps.push(p)[0] == ps[0]);
        assert(ps.push(p).drop_first() =~= ps.drop_first().push(p));
        lemma_additional_snoc(ps.drop_first(), p);
        assert(jfields_additional(ps.push(p)) =~= jfields_additional(ps) + (seq![','] + jquote(p.0)
            + seq![':'] + json_val_text(p.1)));
    }
}

fn write_first_field_str(out: &mut String, name: &str, v: &str)
    ensures
        final(out)@ == old(out)@ + jfield_first_str(name@, v@),
{
    write_jstr(out, name);
    push_char(out, ':');
    write_jstr(out, v);
    proof {
        assert(out@ =~= old(out)@ + jfield_first_str(name@, v@));
    }
}

fn write_field_str(out: &mut String, name: &str, v: &str)
    ensures
        final(out)@ == old(out)@ + jfield_str(name@, v@),
{
    push_char(out, ',');
    write_jstr(out, name);
    push_char(out, ':');
    write_jstr(out, v);
    proof {
        assert(out@ =~= old(out)@ + jfield_str(name@, v@));
    }
}

fn write_field_opt_str(out: &mut String, name: &str, v: &Option<String>)
    ensures
        final(out)@ == old(out)@ + jfield_opt_str(name@, v.deep_view()),
{
    match v {
        Some(s) => {
            write_field_str(out, name, s.as_str());
        },
        None => {
            proof {
                assert(out@ =~= old(out)@ + jfield_opt_str(name@, v.deep_view()));
            }
        },
    }
}

fn write_field_nonempty_str(out: &mut String, name: &str, v: &String)
    ensures
        final(out)@ == old(out)@ + jfield_nonempty_str(name@, v@),
{
    if !v.as_str().is_empty() {
        write_field_str(out, name, v.as_str());
    } else {
        proof {
            assert(out@ =~= old(out)@ + jfield_nonempty_str(name@, v@));
        }
    }
}

fn write_field_int(out: &mut String, name: &str, i: i64)
    ensures
        final(out)@ == old(out)@ + jfield_int(name@, i as int),
{
    push_char(out, ',');
    write_jstr(out, name);
    push_char(out, ':');
    let digits = i64_to_dec(i);
    out.append(digits.as_str());
    proof {
        assert(out@ =~= old(out)@ + jfield_int(name@, i as int));
    }
}

fn write_field_bool(out: &mut String, name: &str, b: bool)
    ensures
        final(out)@ == old(out)@ + jfield_bool(name@, b),
{
    push_char(out, ',');
    write_jstr(out, name);
    push_char(out, ':');
    if b {
        out.append("true");
    } else {
        out.append("false");
    }
    proof {
        assert(out@ =~= old(out)@ + jfield_bool(name@, b));
    }
}

fn write_chua_obj(out: &mut String, e: &ChUa)
    ensures
        final(out)@ == old(out)@ + chua_obj(e@),
{
    push_char(out, '{');
    write_jstr(out, "brand");
    push_char(out, ':');
    write_jstr(out, e.brand.as_str());
    push_char(out, ',');
    write_jstr(out, "version");
    push_char(out, ':');
    write_jstr(out, e.version.as_str());
    push_char(out, '}');
    proof {
        assert(out@ =~= old(out)@ + chua_obj(e@));
    }
}

fn write_field_chua(out: &mut String, name: &str, l: &Vec<ChUa>)
    ensures
        final(out)@ == old(out)@ + jfield_chua(name@, l.deep_view()),
{
    let ghost ldv = l.deep_view();
    let n = l.len();
    if n == 0 {
        proof {
            assert(out@ =~= old(out)@ + jfield_chua(name@, ldv));
        }
        return ;
    }
    push_char(out, ',');
    write_jstr(out, name);
    push_char(out, ':');
    push_char(out, '[');
    write_chua_obj(out, &l[0]);
    let ghost head = old(out)@ + seq![','] + jquote(name@) + seq![':'] + seq!['['] + chua_obj(
        ldv[0],
    );
    let mut i: usize = 1;
    while i < n
        invariant
            1 <= i <= n,
            n == l@.len(),
            ldv == l.deep_view(),
            out@ == head + chua_rest(ldv.subrange(1, i as int)),
        decreases n - i,
    {
        push_char(out, ',');
        write_chua_obj(out, &l[i]);
        proof {
            assert(ldv.subrange(1, i + 1 as int) =~= ldv.subrange(1, i as int).push(ldv[i as int]));
            lemma_chua_rest_snoc(ldv.subrange(1, i as int), ldv[i as int]);
            assert(out@ =~= head + chua_rest(ldv.subrange(1, i + 1 as int)));
        }
        i += 1;
    }
    push_char(out, ']');
    proof {
        assert(ldv.subrange(1, n as int) =~= ldv.drop_first());
        assert(out@ =~= old(out)@ + jfield_chua(name@, ldv));
    }
}

fn write_field_str_list(out: &mut String, name: &str, v: &Option<Vec<String>>)
    ensures
        final(out)@ == old(out)@ + jfield_str_list(name@, v.deep_view()),
{
    let l = match v {
        None => {
            proof {
                assert(out@ =~= old(out)@ + jfield_str_list(name@, v.deep_view()));
            }
            return ;
        },
        Some(l) => l,
    };
    let ghost ldv = l.deep_view();
    push_char(out, ',');
    write_jstr(out, name);
    push_char(out, ':');
    push_char(out, '[');
    let n = l.len();
    let ghost head = old(out)@ + seq![','] + jquote(name@) + seq![':'] + seq!['['];
    if n > 0 {
        write_jstr(out, l[0].as_str());
        let mut i: usize = 1;
        while i < n
            invariant
                1 <= i <= n,
                n == l@.len(),
                ldv == l.deep_view(),
                out@ == head + jquote(ldv[0]) + str_rest(ldv.subrange(1, i as int)),
            decreases n - i,
        {
            push_char(out, ',');
            write_jstr(out, l[i].as_str());
            proof {
                assert(ldv.subrange(1, i + 1 as int) =~= ldv.subrange(1, i as int).push(
                    ldv[i as int],
                ));
                lemma_str_rest_snoc(ldv.subrange(1, i as int), ldv[i as int]);
                assert(out@ =~= head + jquote(ldv[0]) + str_rest(ldv.subrange(1, i + 1 as int)));
            }
            i += 1;
        }
        proof {
            assert(ldv.subrange(1, n as int) =~= ldv.drop_first());
        }
    }
    push_char(out, ']');
    proof {
        assert(out@ =~= old(out)@ + jfield_str_list(name@, v.deep_view()));
    }
}

fn write_additional(out: &mut String, l: &Vec<(String, JsonValue)>)
    ensures
        final(out)@ == old(out)@ + jfields_additional(l.deep_view()),
{
    let ghost ldv = l.deep_view();
    let n = l.len();
    let mut i: usize = 0;
    proof {
        assert(ldv.subrange(0, 0) =~= FieldSeq::empty());
        assert(out@ =~= old(out)@ + jfields_additional(ldv.subrange(0, 0)));
    }
    while i < n
        invariant
            i <= n,
            n == l@.len(),
            ldv == l.deep_view(),
            out@ == old(out)@ + jfields_additional(ldv.subrange(0, i as int)),
        decreases n - i,
    {
        let pair = &l[i];
        push_char(out, ',');
        write_jstr(out, pair.0.as_str());
        push_char(out, ':');
        write_json_value(out, &pair.1);
        proof {
            assert(ldv.subrange(0, i + 1 as int) =~= ldv.subrange(0, i as int).push(ldv[i as int]));
            lemma_additional_snoc(ldv.subrange(0, i as int), ldv[i as int]);
            assert(out@ =~= old(out)@ + jfields_additional(ldv.subrange(0, i + 1 as int)));
        }
        i += 1;
    }
    proof {
        assert(ldv.subrange(0, n as int) =~= ldv);
    }
}

/// Serializes one payload record, exactly `data_json` of its model.
#[verifier::rlimit(100)]
pub fn data_to_json(d: &PianoData) -> (r: String)
    ensures
        r@ == data_json(d@),
{
    let mut out = String::new();
    push_char(&mut out, '{');
    proof {
        assert(out@ =~= seq!['{']);
    }
    write_first_field_str(&mut out, "browser_language", d.browser_language.as_str());
    write_field_str(&mut out, "browser_language_local", d.browser_language_local.as_str());
    write_field_chua(&mut out, "ch_ua", &d.ch_ua);
    write_field_nonempty_str(&mut out, "ch_ua_arch", &d.ch_ua_arch);
    write_field_nonempty_str(&mut out, "ch_ua_bitness", &d.ch_ua_bitness);
    write_field_nonempty_str(&mut out, "ch_ua_full_version", &d.ch_ua_full_version);
    write_field_chua(&mut out, "ch_ua_full_version_list", &d.ch_ua_full_version_list);
    write_field_bool(&mut out, "ch_ua_mobile", d.ch_ua_mobile);
    write_field_nonempty_str(&mut out, "ch_ua_model", &d.ch_ua_model);
    write_field_nonempty_str(&mut out, "ch_ua_platform", &d.ch_ua_platform);
    write_field_nonempty_str(&mut out, "ch_ua_platform_version", &d.ch_ua_platform_version);
    write_field_str_list(&mut out, "content_keywords", &d.content_keywords);
    write_field_opt_str(&mut out, "content_title", &d.content_title);
    write_field_opt_str(&mut out, "cookie_creation_date", &d.cookie_creation_date);
    write_field_int(&mut out, "device_display_width", d.device_display_width);
    write_field_int(&mut out, "device_display_height", d.device_display_height);
    write_field_int(&mut out, "device_hour", d.device_hour);
    write_field_int(&mut out, "device_local_hour", d.device_local_hour);
    write_field_int(&mut out, "device_screen_width", d.device_screen_width);
    write_field_int(&mut out, "device_screen_height", d.device_screen_height);
    write_field_int(&mut out, "device_timestamp_utc", d.device_timestamp_utc);
    write_field_str(&mut out, "event_collection_platform", d.event_collection_platform.as_str());
    write_field_str(&mut out, "event_collection_version", d.event_collection_version.as_str());
    write_field_opt_str(&mut out, "event_url_full", &d.event_url_full);
    write_field_opt_str(&mut out, "has_access", &d.has_access);
    write_field_opt_str(&mut out, "page", &d.page);
    write_field_opt_str(&mut out, "page_title_html", &d.page_title_html);
    write_field_opt_str(&mut out, "page_name", &d.page_name);
    write_field_opt_str(&mut out, "pageview_id", &d.pageview_id);
    write_field_opt_str(&mut out, "previous_url", &d.previous_url);
    write_field_bool(&mut out, "visitor_privacy_consent", d.visitor_privacy_consent);
    write_field_str(&mut out, "visitor_privacy_mode", d.visitor_privacy_mode.as_str());
    write_field_opt_str(&mut out, "src_campaign", &d.src_campaign);
    write_field_opt_str(&mut out, "src_content", &d.src_content);
    write_field_opt_str(&mut out, "src_medium", &d.src_medium);
    write_field_opt_str(&mut out, "src_source", &d.src_source);
    write_field_opt_str(&mut out, "src_term", &d.src_term);
    write_field_opt_str(&mut out, "user_id", &d.user_id);
    write_field_opt_str(&mut out, "user_category", &d.user_category);
    write_additional(&mut out, &d.additional_fields);
    push_char(&mut out, '}');
    proof {
        reveal(data_json);
        assert(out@ =~= data_json(d@));
    }
    out
}

pub open spec fn event_obj(name: Seq<char>, d: DataModel) -> Seq<char> {
    seq!['{'] + jquote("name"@) + seq![':'] + jquote(name) + seq![','] + jquote("data"@)
        + seq![':'] + data_json(d) + seq!['}']
}

pub open spec fn events_rest(l: Seq<(Seq<char>, DataModel)>) -> Seq<char>
    decreases l.len(),
{
    if l.len() == 0 {
        Seq::empty()
    } else {
        seq![','] + event_obj(l[0].0, l[0].1) + events_rest(l.drop_first())
    }
}

pub open spec fn events_array(l: Seq<(Seq<char>, DataModel)>) -> Seq<char> {
    seq!['['] + (if l.len() == 0 {
        Seq::<char>::empty()
    } else {
        event_obj(l[0].0, l[0].1) + events_rest(l.drop_first())
    }) + seq![']']
}

/// The whole serialized body: the envelope holds nothing but its events.
pub open spec fn payload_body_json(l: Seq<(Seq<char>, DataModel)>) -> Seq<char> {
    seq!['{'] + jquote("events"@) + seq![':'] + events_array(l) + seq!['}']
}

/// The name/payload pairs of a sequence of destination events.
pub open spec fn events_model(s: Seq<PianoEvent>) -> Seq<(Seq<char>, DataModel)> {
    s.map_values(|e: PianoEvent| (e.name@, e.data@))
}

pub proof fn lemma_events_rest_snoc(ps: Seq<(Seq<char>, DataModel)>, p: (Seq<char>, DataModel))
    ensures
        events_rest(ps.push(p)) == events_rest(ps) + (seq![','] + event_obj(p.0, p.1)),
    decreases ps.len(),
{
    if ps.len() == 0 {
        assert(ps.push(p)[0] == p);
        assert(ps.push(p).drop_first() =~= Seq::<(Seq<char>, DataModel)>::empty());
        assert(events_rest(Seq::<(Seq<char>, DataModel)>::empty()) == Seq::<char>::empty());
        assert(events_rest(ps.push(p)) =~= events_rest(ps) + (seq![','] + event_obj(p.0, p.1)));
    } else {
        assert(ps.push(p)[0] == ps[0]);
        assert(ps.push(p).drop_first() =~= ps.drop_first().push(p));
        lemma_events_rest_snoc(ps.drop_first(), p);
        assert(events_rest(ps.push(p)) =~= events_rest(ps) + (seq![','] + event_obj(p.0, p.1)));
    }
}

fn write_event_obj(out: &mut String, e: &PianoEvent)
    ensures
        final(out)@ == old(out)@ + event_obj(e.name@, e.data@),
{
    push_char(out, '{');
    write_jstr(out, "name");
    push_char(out, ':');
    write_jstr(out, e.name.as_str());
    push_char(out, ',');
    write_jstr(out, "data");
    push_char(out, ':');
    let body = data_to_json(&e.data);
    out.append(body.as_str());
    push_char(out, '}');
    proof {
        assert(out@ =~= old(out)@ + event_obj(e.name@, e.data@));
    }
}

/// Serializes the envelope's events into the body text, exactly
/// `payload_body_json` of their models.
pub fn events_to_json(events: &Vec<PianoEvent>) -> (r: String)
    ensures
        r@ == payload_body_json(events_model(events@)),
{
    let ghost em = events_model(events@);
    let mut out = String::new();
    push_char(&mut out, '{');
    write_jstr(&mut out, "events");
    push_char(&mut out, ':');
    push_char(&mut out, '[');
    let ghost head = seq!['{'] + jquote("events"@) + seq![':'] + seq!['['];
    let n = events.len();
    if n > 0 {
        write_event_obj(&mut out, &events[0]);
        let mut i: usize = 1;
        while i < n
            invariant
                1 <= i <= n,
                n == events@.len(),
                em == events_model(events@),
                out@ == head + event_obj(em[0].0, em[0].1) + events_rest(em.subrange(1, i as int)),
            decreases n - i,
        {
            push_char(&mut out, ',');
            write_event_obj(&mut out, &events[i]);
            proof {
                assert(em.subrange(1, i + 1 as int) =~= em.subrange(1, i as int).push(
                    em[i as int],
                ));
                lemma_events_rest_snoc(em.subrange(1, i as int), em[i as int]);
                assert(out@ =~= head + event_obj(em[0].0, em[0].1) + events_rest(
                    em.subrange(1, i + 1 as int),
                ));
            }
            i += 1;
        }
        proof {
            assert(em.subrange(1, n as int) =~= em.drop_first());
        }
    }
    push_char(&mut out, ']');
    push_char(&mut out, '}');
    proof {
        assert(out@ =~= payload_body_json(em));
    }
    out
}

} // verus!
