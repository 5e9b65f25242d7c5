//! Laws of the mapping, stated over the same spec functions the public
//! contracts use and proved once for all inputs.
use crate::events::{Event, PageData, TrackData, UserData};
use crate::json::JsonVal;
use crate::model::{
    apply_qs, apply_qs_pair, campaign_state, coerce, common_model, fold_props, language_of,
    last_value_of, lookup_field, page_model, region_of, track_model, upsert, user_model, FieldSeq,
    QsState,
};
use crate::strings::{first_index_of, lemma_first_index_of, spec_has_prefix};
use vstd::prelude::*;

verus! {

/// A locale without a hyphen is both the language and the region, the
/// empty locale included.
pub proof fn lemma_locale_without_hyphen(locale: Seq<char>)
    requires
        !locale.contains('-'),
    ensures
        language_of(locale) == locale,
        region_of(locale) == locale,
{
}

/// A locale with exactly one hyphen splits there: the language stands
/// before it and the region after it.
pub proof fn lemma_locale_single_hyphen(locale: Seq<char>, i: int)
    requires
        0 <= i < locale.len(),
        locale[i] == '-',
        forall|j: int| 0 <= j < locale.len() && j != i ==> locale[j] != '-',
    ensures
        language_of(locale) == locale.subrange(0, i),
        region_of(locale) == locale.subrange(i + 1, locale.len() as int),
{
    assert(locale.contains('-'));
    lemma_first_index_of(locale, '-');
    if first_index_of(locale, '-') != i {
        assert(locale[first_index_of(locale, '-')] != '-');
    }
}

pub proof fn lemma_lookup_upsert_same(l: FieldSeq, k: Seq<char>, v: JsonVal)
    ensures
        lookup_field(upsert(l, k, v), k) == Some(v),
    decreases l.len(),
{
    if l.len() == 0 {
    } else if l[0].0 == k {
        assert((seq![(k, v)] + l.drop_first())[0] == (k, v));
    } else {
        assert((seq![l[0]] + upsert(l.drop_first(), k, v))[0] == l[0]);
        assert((seq![l[0]] + upsert(l.drop_first(), k, v)).drop_first() =~= upsert(
            l.drop_first(),
            k,
            v,
        ));
        lemma_lookup_upsert_same(l.drop_first(), k, v);
    }
}

pub proof fn lemma_lookup_upsert_other(l: FieldSeq, k: Seq<char>, v: JsonVal, k2: Seq<char>)
    requires
        k != k2,
    ensures
        lookup_field(upsert(l, k, v), k2) == lookup_field(l, k2),
    decreases l.len(),
{
    if l.len() == 0 {
        assert(seq![(k, v)][0] == (k, v));
        assert(seq![(k, v)].drop_first() =~= FieldSeq::empty());
        assert(lookup_field(FieldSeq::empty(), k2) == None::<JsonVal>);
    } else if l[0].0 == k {
        assert((seq![(k, v)] + l.drop_first())[0] == (k, v));
        assert((seq![(k, v)] + l.drop_first()).drop_first() =~= l.drop_first());
    } else {
        assert((seq![l[0]] + upsert(l.drop_first(), k, v))[0] == l[0]);
        assert((seq![l[0]] + upsert(l.drop_first(), k, v)).drop_first() =~= upsert(
            l.drop_first(),
            k,
            v,
        ));
        lemma_lookup_upsert_other(l.drop_first(), k, v, k2);
    }
}

/// A fold over properties none of which carry `k` leaves `k`'s entry
/// alone.
pub proof fn lemma_fold_props_no_key(
    base: FieldSeq,
    ps: Seq<(Seq<char>, Seq<char>)>,
    skip_key: Option<Seq<char>>,
    k: Seq<char>,
)
    requires
        forall|j: int| 0 <= j < ps.len() ==> ps[j].0 != k,
    ensures
        lookup_field(fold_props(base, ps, skip_key), k) == lookup_field(base, k),
    decreases ps.len(),
{
    if ps.len() == 0 {
    } else {
        let base2 = if skip_key == Some(ps[0].0) {
            base
        } else {
            upsert(base, ps[0].0, coerce(ps[0].1))
        };
        if skip_key != Some(ps[0].0) {
            lemma_lookup_upsert_other(base, ps[0].0, coerce(ps[0].1), k);
        }
        assert(forall|j: int| 0 <= j < ps.len() - 1 ==> ps.drop_first()[j] == ps[j + 1]);
        lemma_fold_props_no_key(base2, ps.drop_first(), skip_key, k);
    }
}

/// The skipped key never reaches the extension map, whatever the
/// properties hold under it.
pub proof fn lemma_fold_props_skipped_key(base: FieldSeq, ps: Seq<(Seq<char>, Seq<char>)>, k: Seq<char>)
    ensures
        lookup_field(fold_props(base, ps, Some(k)), k) == lookup_field(base, k),
    decreases ps.len(),
{
    if ps.len() == 0 {
    } else {
        let base2 = if Some(k) == Some(ps[0].0) {
            base
        } else {
            upsert(base, ps[0].0, coerce(ps[0].1))
        };
        if Some(k) != Some(ps[0].0) {
            lemma_lookup_upsert_other(base, ps[0].0, coerce(ps[0].1), k);
        }
        lemma_fold_props_skipped_key(base2, ps.drop_first(), k);
    }
}

/// The round trip of one property: a key that is not skipped and not
/// written again later comes out of the fold under its coerced value.
pub proof fn lemma_fold_props_round_trip(
    base: FieldSeq,
    ps: Seq<(Seq<char>, Seq<char>)>,
    skip_key: Option<Seq<char>>,
    i: int,
)
    requires
        0 <= i < ps.len(),
        skip_key != Some(ps[i].0),
        forall|j: int| i < j < ps.len() ==> ps[j].0 != ps[i].0,
    ensures
        lookup_field(fold_props(base, ps, skip_key), ps[i].0) == Some(coerce(ps[i].1)),
    decreases i,
{
    assert(forall|j: int| 0 <= j < ps.len() - 1 ==> ps.drop_first()[j] == ps[j + 1]);
    if i == 0 {
        let base2 = upsert(base, ps[0].0, coerce(ps[0].1));
        lemma_lookup_upsert_same(base, ps[0].0, coerce(ps[0].1));
        lemma_fold_props_no_key(base2, ps.drop_first(), skip_key, ps[0].0);
    } else {
        let base2 = if skip_key == Some(ps[0].0) {
            base
        } else {
            upsert(base, ps[0].0, coerce(ps[0].1))
        };
        lemma_fold_props_round_trip(base2, ps.drop_first(), skip_key, i - 1);
    }
}

pub proof fn lemma_last_value_absent(ps: Seq<(Seq<char>, Seq<char>)>, k: Seq<char>)
    requires
        forall|j: int| 0 <= j < ps.len() ==> ps[j].0 != k,
    ensures
        last_value_of(ps, k) == None::<Seq<char>>,
    decreases ps.len(),
{
    if ps.len() == 0 {
    } else {
        assert(forall|j: int| 0 <= j < ps.len() - 1 ==> ps.drop_last()[j] == ps[j]);
        lemma_last_value_absent(ps.drop_last(), k);
    }
}

pub proof fn lemma_last_value_found(ps: Seq<(Seq<char>, Seq<char>)>, k: Seq<char>, i: int)
    requires
        0 <= i < ps.len(),
        ps[i].0 == k,
        forall|j: int| i < j < ps.len() ==> ps[j].0 != k,
    ensures
        last_value_of(ps, k) == Some(ps[i].1),
    decreases ps.len(),
{
    if i == ps.len() - 1 {
        assert(ps.last() == ps[i]);
    } else {
        assert(ps.last().0 != k);
        assert(forall|j: int| 0 <= j < ps.len() - 1 ==> ps.drop_last()[j] == ps[j]);
        lemma_last_value_found(ps.drop_last(), k, i);
    }
}

/// Every key of the extension map carries the campaign prefix.
pub open spec fn all_keys_prefixed(l: FieldSeq) -> bool {
    forall|j: int| 0 <= j < l.len() ==> spec_has_prefix(#[trigger] l[j].0, "src_"@)
}

pub proof fn lemma_upsert_prefixed(l: FieldSeq, k: Seq<char>, v: JsonVal)
    requires
        all_keys_prefixed(l),
        spec_has_prefix(k, "src_"@),
    ensures
        all_keys_prefixed(upsert(l, k, v)),
    decreases l.len(),
{
    if l.len() == 0 {
    } else if l[0].0 == k {
        assert(forall|j: int|
            0 <= j < upsert(l, k, v).len() ==> upsert(l, k, v)[j] == (seq![(k, v)]
                + l.drop_first())[j]);
    } else {
        assert(forall|j: int| 0 <= j < l.len() - 1 ==> l.drop_first()[j] == l[j + 1]);
        lemma_upsert_prefixed(l.drop_first(), k, v);
        assert(forall|j: int|
            1 <= j < upsert(l, k, v).len() ==> upsert(l, k, v)[j] == upsert(
                l.drop_first(),
                k,
                v,
            )[j - 1]);
        assert(upsert(l, k, v)[0] == l[0]);
    }
}

/// A renamed query-string key always carries the campaign prefix.
pub proof fn lemma_renamed_key_prefixed(k: Seq<char>)
    ensures
        spec_has_prefix("src_"@ + k, "src_"@),
{
    reveal_strlit("src_");
    assert(("src_"@ + k).subrange(0, 4) =~= "src_"@);
}

pub proof fn lemma_apply_qs_prefixed(st: QsState, ps: Seq<(Seq<char>, Seq<char>)>)
    requires
        all_keys_prefixed(st.additional),
    ensures
        all_keys_prefixed(apply_qs(st, ps).additional),
    decreases ps.len(),
{
    if ps.len() == 0 {
    } else {
        let st2 = apply_qs_pair(st, ps[0].0, ps[0].1);
        lemma_renamed_key_prefixed(ps[0].0.skip(3));
        if spec_has_prefix(ps[0].0, "at_"@) && ps[0].0 != "at_medium"@ && ps[0].0
            != "at_campaign"@ {
            lemma_upsert_prefixed(st.additional, "src_"@ + ps[0].0.skip(3), coerce(ps[0].1));
        }
        lemma_apply_qs_prefixed(st2, ps.drop_first());
    }
}

pub proof fn lemma_lookup_absent(l: FieldSeq, k: Seq<char>)
    requires
        forall|j: int| 0 <= j < l.len() ==> l[j].0 != k,
    ensures
        lookup_field(l, k) == None::<JsonVal>,
    decreases l.len(),
{
    if l.len() == 0 {
    } else {
        assert(forall|j: int| 0 <= j < l.len() - 1 ==> l.drop_first()[j] == l[j + 1]);
        lemma_lookup_absent(l.drop_first(), k);
    }
}

/// The context's own extension map never holds a key without the campaign
/// prefix: looking such a key up yields nothing.
pub proof fn lemma_common_additional_unprefixed_absent(ev: Event, k: Seq<char>)
    requires
        !spec_has_prefix(k, "src_"@),
    ensures
        lookup_field(common_model(ev).additional_fields, k) == None::<JsonVal>,
{
    let st0 = QsState {
        medium: crate::model::nonempty_opt(ev.context.campaign.medium@),
        campaign: crate::model::nonempty_opt(ev.context.campaign.name@),
        additional: Seq::empty(),
    };
    lemma_apply_qs_prefixed(st0, match crate::shims::query_pairs_of(ev.context.page.search@) {
        Some(ps) => ps,
        None => Seq::empty(),
    });
    assert(all_keys_prefixed(campaign_state(ev).additional));
    assert(forall|j: int|
        0 <= j < campaign_state(ev).additional.len() ==> campaign_state(ev).additional[j].0 != k);
    lemma_lookup_absent(campaign_state(ev).additional, k);
}

/// The access key carries no campaign prefix.
pub proof fn lemma_has_access_not_prefixed()
    ensures
        !spec_has_prefix("has_access"@, "src_"@),
{
    reveal_strlit("has_access");
    reveal_strlit("src_");
    assert("has_access"@[0] == 'h');
    if spec_has_prefix("has_access"@, "src_"@) {
        assert("has_access"@.subrange(0, 4)[0] == 's');
    }
}

/// A page without an access property is reported as anonymous access, and
/// no access entry stands in the extension map beyond what the context
/// already put there.
pub proof fn lemma_page_access_default(ev: Event, pd: PageData)
    requires
        forall|j: int|
            0 <= j < pd.properties.deep_view().len() ==> pd.properties.deep_view()[j].0
                != "has_access"@,
    ensures
        page_model(ev, pd).has_access == Some("anon"@),
        lookup_field(page_model(ev, pd).additional_fields, "has_access"@) == None::<JsonVal>,
{
    lemma_last_value_absent(pd.properties.deep_view(), "has_access"@);
    lemma_fold_props_skipped_key(
        common_model(ev).additional_fields,
        pd.properties.deep_view(),
        "has_access"@,
    );
    lemma_has_access_not_prefixed();
    lemma_common_additional_unprefixed_absent(ev, "has_access"@);
}

/// A page property named for the access field overrides the anonymous
/// default and is kept out of the extension map.
pub proof fn lemma_page_access_override(ev: Event, pd: PageData, i: int)
    requires
        0 <= i < pd.properties.deep_view().len(),
        pd.properties.deep_view()[i].0 == "has_access"@,
        forall|j: int|
            i < j < pd.properties.deep_view().len() ==> pd.properties.deep_view()[j].0
                != "has_access"@,
    ensures
        page_model(ev, pd).has_access == Some(pd.properties.deep_view()[i].1),
        lookup_field(page_model(ev, pd).additional_fields, "has_access"@) == None::<JsonVal>,
{
    lemma_last_value_found(pd.properties.deep_view(), "has_access"@, i);
    lemma_fold_props_skipped_key(
        common_model(ev).additional_fields,
        pd.properties.deep_view(),
        "has_access"@,
    );
    lemma_has_access_not_prefixed();
    lemma_common_additional_unprefixed_absent(ev, "has_access"@);
}

/// Round trip on a page view: any property other than the access flag,
/// under a key not written again later, stands in the extension map under
/// its coerced value.
pub proof fn lemma_page_round_trip(ev: Event, pd: PageData, i: int)
    requires
        0 <= i < pd.properties.deep_view().len(),
        pd.properties.deep_view()[i].0 != "has_access"@,
        forall|j: int|
            i < j < pd.properties.deep_view().len() ==> pd.properties.deep_view()[j].0
                != pd.properties.deep_view()[i].0,
    ensures
        lookup_field(
            page_model(ev, pd).additional_fields,
            pd.properties.deep_view()[i].0,
        ) == Some(coerce(pd.properties.deep_view()[i].1)),
{
    lemma_fold_props_round_trip(
        common_model(ev).additional_fields,
        pd.properties.deep_view(),
        Some("has_access"@),
        i,
    );
}

/// Round trip on a custom event: every property, under a key not written
/// again later, stands in the extension map under its coerced value.
pub proof fn lemma_track_round_trip(ev: Event, td: TrackData, i: int)
    requires
        0 <= i < td.properties.deep_view().len(),
        forall|j: int|
            i < j < td.properties.deep_view().len() ==> td.properties.deep_view()[j].0
                != td.properties.deep_view()[i].0,
    ensures
        lookup_field(
            track_model(ev, td).additional_fields,
            td.properties.deep_view()[i].0,
        ) == Some(coerce(td.properties.deep_view()[i].1)),
{
    lemma_fold_props_round_trip(
        common_model(ev).additional_fields,
        td.properties.deep_view(),
        None,
        i,
    );
}

/// Round trip on an identity event: any property other than the category,
/// under a key not written again later, stands in the extension map under
/// its coerced value.
pub proof fn lemma_user_round_trip(ev: Event, ud: UserData, i: int)
    requires
        0 <= i < ud.properties.deep_view().len(),
        ud.properties.deep_view()[i].0 != "user_category"@,
        forall|j: int|
            i < j < ud.properties.deep_view().len() ==> ud.properties.deep_view()[j].0
                != ud.properties.deep_view()[i].0,
    ensures
        lookup_field(
            user_model(ev, ud).additional_fields,
            ud.properties.deep_view()[i].0,
        ) == Some(coerce(ud.properties.deep_view()[i].1)),
{
    lemma_fold_props_round_trip(
        common_model(ev).additional_fields,
        ud.properties.deep_view(),
        Some("user_category"@),
        i,
    );
}

} // verus!
