use vstd::prelude::*;
use crate::json::{lemma_views, views, Json, JsonV};
use crate::text::{ascii_lower, contains_str, contains_text, eq_ignore_ascii_case, to_lowercase, unicode_lower};

verus! {

/// The filters of `vm list-skus`.
pub struct SkuFilter {
    pub location: Option<String>,
    pub resource_type: Option<String>,
    pub size: Option<String>,
    pub zone: bool,
}

/// Some entry of the SKU's `locations` is `loc`, ASCII case-insensitively.
pub open spec fn sku_in_location(item: JsonV, loc: Seq<char>) -> bool {
    match item.get("locations"@) {
        Some(l) => match l.as_array() {
            Some(locs) => exists|k: int|
                0 <= k < locs.len() && match (#[trigger] locs[k]).as_str() {
                    Some(s) => ascii_lower(s) == ascii_lower(loc),
                    None => false,
                },
            None => false,
        },
        None => false,
    }
}

/// The zones of the SKU's first location entry, when it lists them.
pub open spec fn first_zones(item: JsonV) -> Option<Seq<JsonV>> {
    match item.get("locationInfo"@) {
        Some(li) => match li.as_array() {
            Some(arr) => if arr.len() > 0 {
                match arr[0].get("zones"@) {
                    Some(z) => z.as_array(),
                    None => None,
                }
            } else {
                None
            },
            None => None,
        },
        None => None,
    }
}

/// The SKU passes every filter given.
pub open spec fn sku_kept(item: JsonV, location: Option<Seq<char>>, rt: Option<Seq<char>>, size: Option<Seq<char>>, zone: bool) -> bool {
    &&& match location {
        Some(loc) => sku_in_location(item, loc),
        None => true,
    }
    &&& match rt {
        Some(t) => match item.str_field("resourceType"@) {
            Some(it) => ascii_lower(it) == ascii_lower(t),
            None => false,
        },
        None => true,
    }
    &&& match size {
        Some(sz) => match item.str_field("name"@) {
            Some(n) => contains_text(unicode_lower(n), unicode_lower(sz)),
            None => false,
        },
        None => true,
    }
    &&& zone ==> match first_zones(item) {
        Some(z) => z.len() > 0,
        None => false,
    }
}

pub open spec fn opt_text(o: Option<String>) -> Option<Seq<char>> {
    match o {
        Some(s) => Some(s@),
        None => None,
    }
}

/// The SKUs that pass the filters, in order.
pub open spec fn skus_kept(items: Seq<JsonV>, f: SkuFilter) -> Seq<JsonV>
    decreases items.len(),
{
    if items.len() == 0 {
        items
    } else {
        let prev = skus_kept(items.drop_last(), f);
        if sku_kept(items.last(), opt_text(f.location), opt_text(f.resource_type), opt_text(f.size), f.zone) {
            prev.push(items.last())
        } else {
            prev
        }
    }
}

/// What `vm list-skus` shows: the SKUs under `value` that pass the filters,
/// or the reply itself when it has no `value` array.
pub open spec fn list_skus_spec(reply: JsonV, f: SkuFilter) -> JsonV {
    match reply.get("value"@) {
        Some(v) => match v.as_array() {
            Some(items) => JsonV::Array(skus_kept(items, f)),
            None => reply,
        },
        None => reply,
    }
}

fn in_location(item: &Json, loc: &str) -> (r: bool)
    ensures
        r == sku_in_location(item.view_json(), loc@),
{
    match item.get("locations") {
        Some(l) => match l.as_array() {
            Some(locs) => {
                proof {
                    lemma_views(locs@);
                }
                let mut k: usize = 0;
                while k < locs.len()
                    invariant
                        k <= locs@.len(),
                        item.view_json().get("locations"@) == Some(l.view_json()),
                        l.view_json().as_array() == Some(views(locs@)),
                        views(locs@).len() == locs@.len(),
                        forall|j: int| 0 <= j < locs@.len() ==> #[trigger] views(locs@)[j] == locs@[j].view_json(),
                        forall|j: int|
                            0 <= j < k ==> match (#[trigger] views(locs@)[j]).as_str() {
                                Some(s) => ascii_lower(s) != ascii_lower(loc@),
                                None => true,
                            },
                    decreases locs@.len() - k,
                {
                    match locs[k].as_str() {
                        Some(s) => {
                            if eq_ignore_ascii_case(s, loc) {
                                assert(views(locs@)[k as int].as_str() == Some(s@));
                                return true;
                            }
                        },
                        None => {},
                    }
                    k = k + 1;
                }
                false
            },
            None => false,
        },
        None => false,
    }
}

fn has_zones(item: &Json) -> (r: bool)
    ensures
        r == match first_zones(item.view_json()) {
            Some(z) => z.len() > 0,
            None => false,
        },
{
    match item.get("locationInfo") {
        Some(li) => match li.as_array() {
            Some(arr) => {
                if arr.len() == 0 {
                    return false;
                }
                proof {
                    lemma_views(arr@);
                }
                match arr[0].get("zones") {
                    Some(z) => match z.as_array() {
                        Some(zs) => {
                            proof {
                                lemma_views(zs@);
                            }
                            zs.len() > 0
                        },
                        None => false,
                    },
                    None => false,
                }
            },
            None => false,
        },
        None => false,
    }
}

/// Whether one SKU passes the filters.
pub fn sku_passes(item: &Json, f: &SkuFilter) -> (r: bool)
    ensures
        r == sku_kept(item.view_json(), opt_text(f.location), opt_text(f.resource_type), opt_text(f.size), f.zone),
{
    match &f.location {
        Some(loc) => {
            if !in_location(item, loc.as_str()) {
                return false;
            }
        },
        None => {},
    }
    match &f.resource_type {
        Some(rt) => match item.str_field("resourceType") {
            Some(it) => {
                if !eq_ignore_ascii_case(it, rt.as_str()) {
                    return false;
                }
            },
            None => return false,
        },
        None => {},
    }
    match &f.size {
        Some(sz) => match item.str_field("name") {
            Some(n) => {
                let nl = to_lowercase(n);
                let sl = to_lowercase(sz.as_str());
                if !contains_str(nl.as_str(), sl.as_str()) {
                    return false;
                }
            },
            None => return false,
        },
        None => {},
    }
    if f.zone {
        return has_zones(item);
    }
    true
}

/// Keeps the SKUs of a `list skus` reply that pass the filters.
pub fn list_skus(reply: Json, f: &SkuFilter) -> (r: Json)
    ensures
        r.view_json() == list_skus_spec(reply.view_json(), *f),
{
    let items = match reply.get("value") {
        Some(v) => match v.as_array() {
            Some(a) => crate::json::clone_all(a),
            None => return reply,
        },
        None => return reply,
    };
    let ghost iv = views(items@);
    proof {
        lemma_views(items@);
    }
    let mut out: Vec<Json> = Vec::new();
    let mut i: usize = 0;
    while i < items.len()
        invariant
            i <= items@.len(),
            iv == views(items@),
            iv.len() == items@.len(),
            forall|k: int| 0 <= k < items@.len() ==> #[trigger] iv[k] == items@[k].view_json(),
            views(out@) == skus_kept(iv.take(i as int), *f),
        decreases items@.len() - i,
    {
        let keep = sku_passes(&items[i], f);
        let ghost before = out@;
        proof {
            assert(iv.take(i + 1).drop_last() =~= iv.take(i as int));
            assert(iv.take(i + 1).last() == iv[i as int]);
        }
        if keep {
            out.push(items[i].deep_clone());
            proof {
                lemma_views(out@);
                lemma_views(before);
                assert(views(out@) =~= views(before).push(iv[i as int]));
            }
        }
        i = i + 1;
    }
    proof {
        assert(iv.take(items@.len() as int) =~= iv);
    }
    Json::Array(out)
}


/// Each SKU kept is one of the SKUs given.
proof fn lemma_kept_is_given(items: Seq<JsonV>, f: SkuFilter, i: int)
    requires
        0 <= i < skus_kept(items, f).len(),
    ensures
        exists|j: int| 0 <= j < items.len() && items[j] == skus_kept(items, f)[i],
        sku_kept(skus_kept(items, f)[i], opt_text(f.location), opt_text(f.resource_type), opt_text(f.size), f.zone),
    decreases items.len(),
{
    let prev = skus_kept(items.drop_last(), f);
    if i < prev.len() {
        lemma_kept_is_given(items.drop_last(), f, i);
        let j = choose|j: int| 0 <= j < items.drop_last().len() && items.drop_last()[j] == prev[i];
        assert(items[j] == items.drop_last()[j]);
    } else {
        assert(items[items.len() - 1] == items.last());
    }
}

/// Every SKU listed is one of the SKUs of the reply and meets each filter
/// given: its `resourceType` is the type asked for and its `locations` hold
/// the location asked for (both ASCII case-insensitively), its name holds
/// the size asked for (in lowercase), and with `zone` its first location
/// entry lists some zone.
pub proof fn lemma_listed_skus_meet_filters(items: Seq<JsonV>, f: SkuFilter, i: int)
    requires
        0 <= i < skus_kept(items, f).len(),
    ensures
        ({
            let r = skus_kept(items, f)[i];
            &&& exists|j: int| 0 <= j < items.len() && items[j] == r
            &&& f.resource_type matches Some(t) ==> match r.str_field("resourceType"@) {
                Some(it) => ascii_lower(it) == ascii_lower(t@),
                None => false,
            }
            &&& f.location matches Some(loc) ==> match r.get("locations"@) {
                Some(l) => match l.as_array() {
                    Some(ls) => exists|k: int|
                        0 <= k < ls.len() && match (#[trigger] ls[k]).as_str() {
                            Some(x) => ascii_lower(x) == ascii_lower(loc@),
                            None => false,
                        },
                    None => false,
                },
                None => false,
            }
            &&& f.size matches Some(sz) ==> match r.str_field("name"@) {
                Some(n) => contains_text(unicode_lower(n), unicode_lower(sz@)),
                None => false,
            }
            &&& f.zone ==> match r.get("locationInfo"@) {
                Some(li) => match li.as_array() {
                    Some(arr) => arr.len() > 0 && match arr[0].get("zones"@) {
                        Some(z) => match z.as_array() {
                            Some(zs) => zs.len() > 0,
                            None => false,
                        },
                        None => false,
                    },
                    None => false,
                },
                None => false,
            }
        }),
{
    lemma_kept_is_given(items, f, i);
}

/// With no filter given, every SKU of the reply is listed, in order.
pub proof fn lemma_no_filter_lists_all(items: Seq<JsonV>, f: SkuFilter)
    requires
        f.location is None,
        f.resource_type is None,
        f.size is None,
        !f.zone,
    ensures
        skus_kept(items, f) == items,
    decreases items.len(),
{
    if items.len() > 0 {
        lemma_no_filter_lists_all(items.drop_last(), f);
        assert(items.drop_last().push(items.last()) =~= items);
    }
}

/// With only a resource type given, every SKU of that type (ASCII
/// case-insensitively) is listed.
pub proof fn lemma_type_filter_keeps_matches(items: Seq<JsonV>, f: SkuFilter, j: int)
    requires
        f.location is None,
        f.size is None,
        !f.zone,
        f.resource_type is Some,
        match items[j].str_field("resourceType"@) {
            Some(it) => ascii_lower(it) == ascii_lower(f.resource_type.unwrap()@),
            None => false,
        },
        0 <= j < items.len(),
    ensures
        skus_kept(items, f).contains(items[j]),
    decreases items.len(),
{
    let prev = skus_kept(items.drop_last(), f);
    if j < items.len() - 1 {
        assert(items.drop_last()[j] == items[j]);
        lemma_type_filter_keeps_matches(items.drop_last(), f, j);
        let k = choose|k: int| 0 <= k < prev.len() && prev[k] == items[j];
        if sku_kept(items.last(), opt_text(f.location), opt_text(f.resource_type), opt_text(f.size), f.zone) {
            assert(prev.push(items.last())[k] == items[j]);
        }
    } else {
        assert(items.last() == items[j]);
        assert(prev.push(items.last())[prev.len() as int] == items[j]);
    }
}

} // verus!
