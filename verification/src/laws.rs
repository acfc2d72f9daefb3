//! Properties that hold across the operations of the library: what applying
//! `overrides` keeps and changes, what parsing the input makes of each entry,
//! how the releases are ordered, and when a refreshed product counts as up to
//! date.

use vstd::prelude::*;
use vstd::multiset::Multiset;

use crate::json::{lookup, JsonV};
use crate::ErrorV;
use crate::time::{not_after, before, Timestamp};
use crate::github::{repo_detail_of, RepoDetail, ReleaseNode};
use crate::json::json_array_of_text;
use crate::updater::{
    as_link_specs, is_github_item, last_value, needs_fetch_spec, up_to_date, updated_at_spec,
    updated_product,
};
use crate::product::{
    base_product_spec, fetched_product, has_release_named, is_full_product_spec, item_of,
    items_and_errors, parse_items_spec, release_name, resolved, with_latest, InputItemV, LinkV,
    insert_desc, sort_desc, ReleaseV, derived_url, LinkSpecV, release_of,
    is_product_key, is_protected_key, is_retired_key, licenses_field, links_field, object_field,
    opt_text_field, opt_time_field, overridden, patched, releases_field, retained, text_field,
    texts_field, unprotected, ProductV,
};

verus! {

// ---------- entries of JSON objects ----------

/// No entry has the key of a field of a product: what the other keys of a
/// product hold.
pub open spec fn no_field_keys(s: Seq<(Seq<char>, JsonV)>) -> bool {
    forall|i: int| 0 <= i < s.len() ==> !is_product_key(#[trigger] s[i].0)
}

/// No entry has the key of a field of a product, nor a retired key.
pub open spec fn clean_others(s: Seq<(Seq<char>, JsonV)>) -> bool {
    forall|i: int|
        0 <= i < s.len() ==> !is_product_key(#[trigger] s[i].0) && !is_retired_key(s[i].0)
}

/// In entries put one after the other, the later ones win.
pub proof fn lemma_lookup_concat(a: Seq<(Seq<char>, JsonV)>, b: Seq<(Seq<char>, JsonV)>, k: Seq<char>)
    ensures
        lookup(a + b, k) == match lookup(b, k) {
            Some(v) => Some(v),
            None => lookup(a, k),
        },
    decreases b.len(),
{
    if b.len() == 0 {
        assert(a + b =~= a);
    } else {
        assert((a + b).drop_last() =~= a + b.drop_last());
        assert((a + b).last() == b.last());
        lemma_lookup_concat(a, b.drop_last(), k);
    }
}

/// A key that no entry has is looked up to nothing.
pub proof fn lemma_lookup_absent(s: Seq<(Seq<char>, JsonV)>, k: Seq<char>)
    requires
        forall|i: int| 0 <= i < s.len() ==> #[trigger] s[i].0 != k,
    ensures
        lookup(s, k) is None,
    decreases s.len(),
{
    if s.len() > 0 {
        assert forall|i: int| 0 <= i < s.drop_last().len() implies #[trigger] s.drop_last()[i].0
            != k by {
            assert(s.drop_last()[i] == s[i]);
        }
        assert(s.last() == s[s.len() - 1]);
        lemma_lookup_absent(s.drop_last(), k);
    }
}

/// The overrides that may be applied have the values of the overrides for
/// every key but the protected ones, which they lack.
pub proof fn lemma_lookup_unprotected(s: Seq<(Seq<char>, JsonV)>, k: Seq<char>)
    ensures
        lookup(unprotected(s), k) == if is_protected_key(k) {
            None
        } else {
            lookup(s, k)
        },
    decreases s.len(),
{
    if s.len() > 0 {
        lemma_lookup_unprotected(s.drop_last(), k);
        let u = unprotected(s.drop_last());
        assert(u.push(s.last()).drop_last() =~= u);
    }
}

/// The entries kept in `others` have the values of the entries for every
/// key but the field and the retired ones, which they lack.
pub proof fn lemma_lookup_retained(s: Seq<(Seq<char>, JsonV)>, k: Seq<char>)
    ensures
        lookup(retained(s), k) == if is_product_key(k) || is_retired_key(k) {
            None
        } else {
            lookup(s, k)
        },
    decreases s.len(),
{
    if s.len() > 0 {
        lemma_lookup_retained(s.drop_last(), k);
        let r = retained(s.drop_last());
        assert(r.push(s.last()).drop_last() =~= r);
    }
}

/// What is kept in `others` holds neither a field key nor a retired key.
pub proof fn lemma_retained_clean(s: Seq<(Seq<char>, JsonV)>)
    ensures
        clean_others(retained(s)),
    decreases s.len(),
{
    if s.len() > 0 {
        lemma_retained_clean(s.drop_last());
        let r = retained(s.drop_last());
        if !is_product_key(s.last().0) && !is_retired_key(s.last().0) {
            assert forall|i: int| 0 <= i < r.push(s.last()).len() implies !is_product_key(
                #[trigger] r.push(s.last())[i].0,
            ) && !is_retired_key(r.push(s.last())[i].0) by {
                if i < r.len() {
                    assert(r.push(s.last())[i] == r[i]);
                }
            }
        }
    }
}

// ---------- overrides ----------

/// Whether every value that the overrides give for a field fits the field,
/// so that they are applied.
pub open spec fn overrides_fit(p: ProductV) -> bool {
    patched(p, p.others + unprotected(p.overrides)) is Some
}

/// In the entries that the overrides are applied from, a field key has the
/// value of the overrides, if they give one and it is not protected.
proof fn lemma_patch_lookup(p: ProductV, k: Seq<char>)
    requires
        no_field_keys(p.others),
        is_product_key(k),
    ensures
        lookup(p.others + unprotected(p.overrides), k) == if is_protected_key(k) {
            None
        } else {
            lookup(p.overrides, k)
        },
{
    lemma_lookup_concat(p.others, unprotected(p.overrides), k);
    lemma_lookup_unprotected(p.overrides, k);
    lemma_lookup_absent(p.others, k);
}

/// Applying `overrides` never changes the owner and the name, which identify
/// the repository, and keeps the overrides themselves, so that they are
/// applied again on the next refresh.
pub proof fn law_overrides_keep_identity(p: ProductV)
    requires
        no_field_keys(p.others),
    ensures
        overridden(p).owner == p.owner,
        overridden(p).name == p.name,
        overridden(p).overrides == p.overrides,
{
    lemma_patch_lookup(p, "owner"@);
    lemma_patch_lookup(p, "name"@);
    lemma_patch_lookup(p, "overrides"@);
}

/// A product whose other keys hold no field key and no retired key keeps
/// them so after `overrides` are applied: a retired key given in the
/// overrides never reaches the output.
pub proof fn law_overrides_keep_others_clean(p: ProductV)
    requires
        clean_others(p.others),
    ensures
        clean_others(overridden(p).others),
{
    lemma_retained_clean(p.others + unprotected(p.overrides));
}

/// The keys of the fields that the overrides may change are not protected.
proof fn lemma_field_keys_unprotected()
    ensures
        !is_protected_key("description"@),
        !is_protected_key("releases"@),
        !is_protected_key("license"@),
        !is_protected_key("links"@),
        !is_protected_key("languages"@),
        !is_protected_key("topics"@),
        !is_protected_key("last_updated"@),
{
    reveal_strlit("overrides");
    reveal_strlit("owner");
    reveal_strlit("name");
    assert("overrides"@.len() == 9 && "overrides"@[0] == 'o');
    assert("owner"@.len() == 5 && "owner"@[0] == 'o');
    assert("name"@.len() == 4);
    assert(!is_protected_key("description"@)) by {
        reveal_strlit("description");
        assert("description"@.len() == 11);
    }
    assert(!is_protected_key("releases"@)) by {
        reveal_strlit("releases");
        assert("releases"@.len() == 8);
    }
    assert(!is_protected_key("license"@)) by {
        reveal_strlit("license");
        assert("license"@.len() == 7);
    }
    assert(!is_protected_key("links"@)) by {
        reveal_strlit("links");
        assert("links"@.len() == 5 && "links"@[0] == 'l');
    }
    assert(!is_protected_key("languages"@)) by {
        reveal_strlit("languages");
        assert("languages"@.len() == 9 && "languages"@[0] == 'l');
    }
    assert(!is_protected_key("topics"@)) by {
        reveal_strlit("topics");
        assert("topics"@.len() == 6);
    }
    assert(!is_protected_key("last_updated"@)) by {
        reveal_strlit("last_updated");
        assert("last_updated"@.len() == 12);
    }
}

/// The lookups of the field keys in the entries that the overrides are
/// applied from.
proof fn lemma_patch_lookups(p: ProductV)
    requires
        no_field_keys(p.others),
    ensures
        lookup(p.others + unprotected(p.overrides), "owner"@) is None,
        lookup(p.others + unprotected(p.overrides), "name"@) is None,
        lookup(p.others + unprotected(p.overrides), "overrides"@) is None,
        lookup(p.others + unprotected(p.overrides), "description"@) == lookup(p.overrides, "description"@),
        lookup(p.others + unprotected(p.overrides), "releases"@) == lookup(p.overrides, "releases"@),
        lookup(p.others + unprotected(p.overrides), "license"@) == lookup(p.overrides, "license"@),
        lookup(p.others + unprotected(p.overrides), "links"@) == lookup(p.overrides, "links"@),
        lookup(p.others + unprotected(p.overrides), "languages"@) == lookup(p.overrides, "languages"@),
        lookup(p.others + unprotected(p.overrides), "topics"@) == lookup(p.overrides, "topics"@),
        lookup(p.others + unprotected(p.overrides), "last_updated"@) == lookup(
            p.overrides,
            "last_updated"@,
        ),
{
    lemma_field_keys_unprotected();
    lemma_patch_lookup(p, "owner"@);
    lemma_patch_lookup(p, "name"@);
    lemma_patch_lookup(p, "overrides"@);
    lemma_patch_lookup(p, "description"@);
    lemma_patch_lookup(p, "releases"@);
    lemma_patch_lookup(p, "license"@);
    lemma_patch_lookup(p, "links"@);
    lemma_patch_lookup(p, "languages"@);
    lemma_patch_lookup(p, "topics"@);
    lemma_patch_lookup(p, "last_updated"@);
}

/// Whether each value that the overrides give for a field fits it.
pub open spec fn fields_fit(p: ProductV) -> bool {
    &&& opt_text_field(lookup(p.overrides, "description"@), p.description) is Some
    &&& releases_field(lookup(p.overrides, "releases"@), p.releases) is Some
    &&& licenses_field(lookup(p.overrides, "license"@), p.license) is Some
    &&& links_field(lookup(p.overrides, "links"@), p.links) is Some
    &&& texts_field(lookup(p.overrides, "languages"@), p.languages) is Some
    &&& texts_field(lookup(p.overrides, "topics"@), p.topics) is Some
    &&& opt_time_field(lookup(p.overrides, "last_updated"@), p.last_updated) is Some
}

/// The product with each field that the overrides give read from them, the
/// other fields as they were, and as `others` the other keys of the product
/// and of the overrides, less the field and the retired keys.
pub open spec fn fields_replaced(p: ProductV) -> ProductV {
    ProductV {
        owner: p.owner,
        name: p.name,
        description: opt_text_field(lookup(p.overrides, "description"@), p.description)->0,
        releases: releases_field(lookup(p.overrides, "releases"@), p.releases)->0,
        license: licenses_field(lookup(p.overrides, "license"@), p.license)->0,
        links: links_field(lookup(p.overrides, "links"@), p.links)->0,
        languages: texts_field(lookup(p.overrides, "languages"@), p.languages)->0,
        topics: texts_field(lookup(p.overrides, "topics"@), p.topics)->0,
        overrides: p.overrides,
        last_updated: opt_time_field(lookup(p.overrides, "last_updated"@), p.last_updated)->0,
        others: retained(p.others + unprotected(p.overrides)),
    }
}

/// The overrides are applied exactly when every value they give for a field
/// fits it: then each field that they give takes the value read from them
/// and the others stay (see [`fields_replaced`]); otherwise the product is
/// left untouched.
pub proof fn law_overrides_replace_fields(p: ProductV)
    requires
        no_field_keys(p.others),
        p.overrides.len() > 0,
    ensures
        overrides_fit(p) == fields_fit(p),
        overrides_fit(p) ==> overridden(p) == fields_replaced(p),
        !overrides_fit(p) ==> overridden(p) == p,
{
    lemma_patch_lookups(p);
}

/// Two products alike as the output shows them: the same fields, and the
/// same value for every other key (a key's entry may come more than once,
/// the last one winning, as in the map that they are written from).
pub open spec fn same_product(a: ProductV, b: ProductV) -> bool {
    &&& a.owner == b.owner
    &&& a.name == b.name
    &&& a.description == b.description
    &&& a.releases == b.releases
    &&& a.license == b.license
    &&& a.links == b.links
    &&& a.languages == b.languages
    &&& a.topics == b.topics
    &&& a.overrides == b.overrides
    &&& a.last_updated == b.last_updated
    &&& forall|k: Seq<char>| lookup(a.others, k) == lookup(b.others, k)
}

/// Applying the overrides again, as every refresh does, changes nothing more.
pub proof fn law_overrides_idempotent(p: ProductV)
    requires
        no_field_keys(p.others),
    ensures
        same_product(overridden(overridden(p)), overridden(p)),
{
    let q = overridden(p);
    if p.overrides.len() == 0 {
        assert(q == p);
    } else {
        law_overrides_replace_fields(p);
        if overrides_fit(p) {
            let pp = p.others + unprotected(p.overrides);
            lemma_retained_clean(pp);
            assert(q.others == retained(pp));
            assert(no_field_keys(q.others));
            assert(q.overrides == p.overrides);
            law_overrides_replace_fields(q);
            assert(fields_fit(q));
            let qq = q.others + unprotected(q.overrides);
            assert forall|k: Seq<char>| lookup(retained(qq), k) == lookup(q.others, k) by {
                lemma_lookup_retained(qq, k);
                lemma_lookup_concat(q.others, unprotected(q.overrides), k);
                lemma_lookup_retained(pp, k);
                lemma_lookup_concat(p.others, unprotected(p.overrides), k);
            }
        } else {
            assert(q == p);
        }
    }
}

// ---------- releases ----------

/// From the newest to the oldest: no release is newer than one before it.
pub open spec fn newest_first(s: Seq<ReleaseV>) -> bool {
    forall|i: int, j: int|
        0 <= i < j < s.len() ==> not_after(#[trigger] s[j].release_date, #[trigger] s[i].release_date)
}

/// The releases of the date `d`, in their order.
pub open spec fn dated(s: Seq<ReleaseV>, d: Timestamp) -> Seq<ReleaseV>
    decreases s.len(),
{
    if s.len() == 0 {
        s
    } else if s.last().release_date == d {
        dated(s.drop_last(), d).push(s.last())
    } else {
        dated(s.drop_last(), d)
    }
}

/// The releases of a date in two lists put one after the other.
proof fn lemma_dated_concat(a: Seq<ReleaseV>, b: Seq<ReleaseV>, d: Timestamp)
    ensures
        dated(a + b, d) == dated(a, d) + dated(b, d),
    decreases b.len(),
{
    if b.len() == 0 {
        assert(a + b =~= a);
        assert(dated(a, d) + dated(b, d) =~= dated(a, d));
    } else {
        assert((a + b).drop_last() =~= a + b.drop_last());
        assert((a + b).last() == b.last());
        lemma_dated_concat(a, b.drop_last(), d);
        if b.last().release_date == d {
            assert(dated(a, d) + dated(b.drop_last(), d).push(b.last()) =~= (dated(a, d) + dated(
                b.drop_last(),
                d,
            )).push(b.last()));
        }
    }
}

/// No release has the date.
proof fn lemma_dated_none(s: Seq<ReleaseV>, d: Timestamp)
    requires
        forall|i: int| 0 <= i < s.len() ==> (#[trigger] s[i]).release_date != d,
    ensures
        dated(s, d) == Seq::<ReleaseV>::empty(),
    decreases s.len(),
{
    if s.len() > 0 {
        assert(s.last() == s[s.len() - 1]);
        assert forall|i: int| 0 <= i < s.drop_last().len() implies (
        #[trigger] s.drop_last()[i]).release_date != d by {
            assert(s.drop_last()[i] == s[i]);
        }
        lemma_dated_none(s.drop_last(), d);
    }
}

/// The releases of a date in a list of one.
proof fn lemma_dated_single(x: ReleaseV, d: Timestamp)
    ensures
        dated(seq![x], d) == if x.release_date == d {
            seq![x]
        } else {
            Seq::<ReleaseV>::empty()
        },
{
    let e = Seq::<ReleaseV>::empty();
    assert(seq![x].drop_last() =~= e);
    assert(seq![x].last() == x);
    assert(dated(e, d) == e);
    assert(e.push(x) =~= seq![x]);
}

/// Putting a release into releases ordered from the newest keeps them so,
/// adds just that release, and puts it after the releases of its date.
proof fn lemma_insert_desc(sorted: Seq<ReleaseV>, x: ReleaseV, d: Timestamp)
    requires
        newest_first(sorted),
    ensures
        newest_first(insert_desc(sorted, x)),
        insert_desc(sorted, x).to_multiset() == sorted.to_multiset().insert(x),
        dated(insert_desc(sorted, x), d) == if x.release_date == d {
            dated(sorted, d).push(x)
        } else {
            dated(sorted, d)
        },
    decreases sorted.len(),
{
    broadcast use vstd::multiset::group_multiset_axioms;
    broadcast use vstd::seq_lib::lemma_multiset_commutative;

    lemma_dated_single(x, d);
    if sorted.len() == 0 {
        assert(seq![x] =~= sorted.push(x));
        vstd::seq_lib::to_multiset_build(sorted, x);
    } else if before(sorted[0].release_date, x.release_date) {
        let r = seq![x] + sorted;
        assert forall|i: int, j: int| 0 <= i < j < r.len() implies not_after(
            #[trigger] r[j].release_date,
            #[trigger] r[i].release_date,
        ) by {
            if i == 0 {
                assert(r[j] == sorted[j - 1]);
                if j > 1 {
                    assert(not_after(sorted[j - 1].release_date, sorted[0].release_date));
                }
            } else {
                assert(r[i] == sorted[i - 1]);
                assert(r[j] == sorted[j - 1]);
            }
        }
        assert(seq![x].to_multiset() =~= Seq::<ReleaseV>::empty().push(x).to_multiset()) by {
            assert(seq![x] =~= Seq::<ReleaseV>::empty().push(x));
        }
        vstd::seq_lib::to_multiset_build(Seq::<ReleaseV>::empty(), x);
        vstd::seq_lib::to_multiset_len(Seq::<ReleaseV>::empty());
        vstd::multiset::lemma_multiset_empty_len(Seq::<ReleaseV>::empty().to_multiset());
        assert(Seq::<ReleaseV>::empty().to_multiset() =~= Multiset::<ReleaseV>::empty());
        assert(r.to_multiset() =~= sorted.to_multiset().insert(x));
        lemma_dated_concat(seq![x], sorted, d);
        if x.release_date == d {
            assert forall|i: int| 0 <= i < sorted.len() implies (#[trigger] sorted[i]).release_date
                != d by {
                if i > 0 {
                    assert(not_after(sorted[i].release_date, sorted[0].release_date));
                }
            }
            lemma_dated_none(sorted, d);
            assert(seq![x] + Seq::<ReleaseV>::empty() =~= Seq::<ReleaseV>::empty().push(x));
        } else {
            assert(Seq::<ReleaseV>::empty() + dated(sorted, d) =~= dated(sorted, d));
        }
    } else {
        let rest = sorted.drop_first();
        assert forall|i: int, j: int| 0 <= i < j < rest.len() implies not_after(
            #[trigger] rest[j].release_date,
            #[trigger] rest[i].release_date,
        ) by {
            assert(rest[i] == sorted[i + 1]);
            assert(rest[j] == sorted[j + 1]);
        }
        lemma_insert_desc(rest, x, d);
        let ins = insert_desc(rest, x);
        let r = seq![sorted[0]] + ins;
        assert forall|i: int, j: int| 0 <= i < j < r.len() implies not_after(
            #[trigger] r[j].release_date,
            #[trigger] r[i].release_date,
        ) by {
            if i == 0 {
                assert(r[j] == ins[j - 1]);
                assert(ins.to_multiset().count(ins[j - 1]) > 0) by {
                    vstd::seq_lib::to_multiset_contains(ins, ins[j - 1]);
                    assert(ins.contains(ins[j - 1]));
                }
                vstd::seq_lib::to_multiset_contains(rest, ins[j - 1]);
                if ins[j - 1] != x {
                    let k = choose|k: int| 0 <= k < rest.len() && rest[k] == ins[j - 1];
                    assert(rest[k] == sorted[k + 1]);
                }
            } else {
                assert(r[i] == ins[i - 1]);
                assert(r[j] == ins[j - 1]);
            }
        }
        assert(sorted =~= seq![sorted[0]] + rest);
        assert(seq![sorted[0]] =~= Seq::<ReleaseV>::empty().push(sorted[0]));
        vstd::seq_lib::to_multiset_build(Seq::<ReleaseV>::empty(), sorted[0]);
        vstd::seq_lib::to_multiset_len(Seq::<ReleaseV>::empty());
        vstd::multiset::lemma_multiset_empty_len(Seq::<ReleaseV>::empty().to_multiset());
        assert(Seq::<ReleaseV>::empty().to_multiset() =~= Multiset::<ReleaseV>::empty());
        assert(r.to_multiset() =~= sorted.to_multiset().insert(x));
        lemma_dated_concat(seq![sorted[0]], rest, d);
        lemma_dated_concat(seq![sorted[0]], ins, d);
        lemma_dated_single(sorted[0], d);
        if x.release_date == d {
            assert(dated(seq![sorted[0]], d) + dated(rest, d).push(x) =~= (dated(seq![sorted[0]], d)
                + dated(rest, d)).push(x));
        }
    }
}

/// The releases are sorted from the newest to the oldest, as
/// `sort_by_key(|r| Reverse(r.release_date))` sorts them: the same releases,
/// newest first, and those of one date in the order they came (a stable sort).
pub proof fn law_releases_sorted(s: Seq<ReleaseV>)
    ensures
        newest_first(sort_desc(s)),
        sort_desc(s).to_multiset() == s.to_multiset(),
        sort_desc(s).len() == s.len(),
        forall|d: Timestamp| #[trigger] dated(sort_desc(s), d) == dated(s, d),
    decreases s.len(),
{
    if s.len() == 0 {
    } else {
        law_releases_sorted(s.drop_last());
        assert forall|d: Timestamp| #[trigger] dated(sort_desc(s), d) == dated(s, d) by {
            lemma_insert_desc(sort_desc(s.drop_last()), s.last(), d);
        }
        lemma_insert_desc(sort_desc(s.drop_last()), s.last(), s.last().release_date);
        assert(s =~= s.drop_last().push(s.last()));
        vstd::seq_lib::to_multiset_build(s.drop_last(), s.last());
    }
    vstd::seq_lib::to_multiset_len(s);
    vstd::seq_lib::to_multiset_len(sort_desc(s));
}

/// The releases known before a refresh are all kept; the latest release that
/// GitHub reports is added at most once, and not when a known release has its
/// name.
pub proof fn law_known_releases_kept(rs: Seq<ReleaseV>, latest: Option<ReleaseNode>)
    ensures
        forall|i: int| 0 <= i < rs.len() ==> sort_desc(with_latest(rs, latest)).contains(#[trigger] rs[i]),
        sort_desc(with_latest(rs, latest)).len() <= rs.len() + 1,
        latest is Some && has_release_named(rs, release_name(latest->0)) ==> with_latest(rs, latest)
            == rs,
{
    let w = with_latest(rs, latest);
    law_releases_sorted(w);
    assert forall|i: int| 0 <= i < rs.len() implies sort_desc(w).contains(#[trigger] rs[i]) by {
        assert(w[i] == rs[i]);
        vstd::seq_lib::to_multiset_contains(w, rs[i]);
        vstd::seq_lib::to_multiset_contains(sort_desc(w), rs[i]);
    }
}

// ---------- links ----------

/// Links given with their own URL are kept as they are, in their order:
/// resolving the links of a product again changes nothing.
pub proof fn law_explicit_links_kept(
    links: Seq<LinkV>,
    owner: Seq<char>,
    name: Seq<char>,
    www: Option<Seq<char>>,
    repository: Option<Seq<char>>,
)
    ensures
        resolved(as_link_specs(links), owner, name, www, repository) == links,
    decreases links.len(),
{
    if links.len() > 0 {
        assert(as_link_specs(links).drop_last() =~= as_link_specs(links.drop_last()));
        law_explicit_links_kept(links.drop_last(), owner, name, www, repository);
        assert(links.drop_last().push(links.last()) =~= links);
    }
}

/// Whether a bare link type has a URL to derive: `www`, `repository` and
/// `sbom` have one.
pub open spec fn derivable(t: Seq<char>) -> bool {
    t == "www"@ || t == "repository"@ || t == "sbom"@
}

/// The number of bare link types without a URL to derive.
pub open spec fn underivable(specs: Seq<LinkSpecV>) -> nat
    decreases specs.len(),
{
    if specs.len() == 0 {
        0
    } else {
        underivable(specs.drop_last()) + match specs.last() {
            LinkSpecV::Type(t) => if derivable(t) {
                0nat
            } else {
                1nat
            },
            LinkSpecV::Link(_) => 0nat,
        }
    }
}

/// One link spec resolves to its link when it has its URL, to a link with
/// the derived URL when it is a bare `www`, `repository` or `sbom`, and to
/// nothing otherwise.
pub proof fn law_resolve_one_link(
    spec: LinkSpecV,
    owner: Seq<char>,
    name: Seq<char>,
    www: Option<Seq<char>>,
    repository: Option<Seq<char>>,
)
    ensures
        resolved(seq![spec], owner, name, www, repository) == match spec {
            LinkSpecV::Link(l) => seq![l],
            LinkSpecV::Type(t) => if derivable(t) {
                seq![LinkV { label: t, url: derived_url(t, owner, name, www, repository)->0 }]
            } else {
                Seq::<LinkV>::empty()
            },
        },
{
    let e = Seq::<LinkSpecV>::empty();
    assert(seq![spec].drop_last() =~= e);
    assert(seq![spec].last() == spec);
    assert(resolved(e, owner, name, www, repository) == Seq::<LinkV>::empty());
    match spec {
        LinkSpecV::Type(t) => {
            let u = derived_url(t, owner, name, www, repository);
            assert(u is Some <==> derivable(t));
            assert(Seq::<LinkV>::empty().push(LinkV { label: t, url: u->0 }) =~= seq![
                LinkV { label: t, url: u->0 },
            ]);
        },
        LinkSpecV::Link(l) => {
            assert(Seq::<LinkV>::empty().push(l) =~= seq![l]);
        },
    }
}

/// The links of link specs put one after the other are the links of each,
/// in order.
pub proof fn law_resolve_links_concat(
    a: Seq<LinkSpecV>,
    b: Seq<LinkSpecV>,
    owner: Seq<char>,
    name: Seq<char>,
    www: Option<Seq<char>>,
    repository: Option<Seq<char>>,
)
    ensures
        resolved(a + b, owner, name, www, repository) == resolved(a, owner, name, www, repository)
            + resolved(b, owner, name, www, repository),
    decreases b.len(),
{
    if b.len() == 0 {
        assert(a + b =~= a);
        assert(resolved(a, owner, name, www, repository) + resolved(b, owner, name, www, repository)
            =~= resolved(a, owner, name, www, repository));
    } else {
        assert((a + b).drop_last() =~= a + b.drop_last());
        assert((a + b).last() == b.last());
        law_resolve_links_concat(a, b.drop_last(), owner, name, www, repository);
        let ra = resolved(a, owner, name, www, repository);
        let rb = resolved(b.drop_last(), owner, name, www, repository);
        assert forall|l: LinkV| (ra + rb).push(l) =~= ra + rb.push(l) by {}
    }
}

/// Every link spec gives one link, but the bare types without a URL to
/// derive, which are dropped.
pub proof fn law_resolve_links_count(
    specs: Seq<LinkSpecV>,
    owner: Seq<char>,
    name: Seq<char>,
    www: Option<Seq<char>>,
    repository: Option<Seq<char>>,
)
    ensures
        resolved(specs, owner, name, www, repository).len() + underivable(specs) == specs.len(),
    decreases specs.len(),
{
    if specs.len() > 0 {
        law_resolve_links_count(specs.drop_last(), owner, name, www, repository);
    }
}

// ---------- the input ----------

/// The items read from the entries, and the errors, come one per entry, in
/// order; with no error, each item is what its entry reads as.
proof fn lemma_items_and_errors(vals: Seq<JsonV>, force_base: bool)
    ensures
        items_and_errors(vals, force_base).0.len() + items_and_errors(vals, force_base).1.len()
            == vals.len(),
        items_and_errors(vals, force_base).1.len() == 0 ==> forall|k: int|
            0 <= k < vals.len() ==> item_of(#[trigger] vals[k], force_base) == Ok::<
                InputItemV,
                ErrorV,
            >(items_and_errors(vals, force_base).0[k]),
    decreases vals.len(),
{
    if vals.len() > 0 {
        lemma_items_and_errors(vals.drop_last(), force_base);
        assert forall|k: int| 0 <= k < vals.len() - 1 implies #[trigger] vals[k] == vals.drop_last()[k] by {}
        assert(vals.last() == vals[vals.len() - 1]);
    }
}

/// When the input is read without error, it holds one item per entry of the
/// JSON array, in order: a full product exactly for the entries that have a
/// key that only a full product has (all base products when `force_base`),
/// and the other keys of a full product hold no field or retired key.
pub proof fn law_parse_items_kinds(text: Seq<char>, force_base: bool)
    requires
        parse_items_spec(text, force_base) is Ok,
    ensures
        json_array_of_text(text) is Ok,
        parse_items_spec(text, force_base)->Ok_0.len() == json_array_of_text(text)->Ok_0.len(),
        forall|k: int|
            0 <= k < json_array_of_text(text)->Ok_0.len() ==> ((
            #[trigger] parse_items_spec(text, force_base)->Ok_0[k]) is Product <==> !force_base
                && is_full_product_spec(json_array_of_text(text)->Ok_0[k])),
        forall|k: int|
            0 <= k < parse_items_spec(text, force_base)->Ok_0.len() && (
            #[trigger] parse_items_spec(text, force_base)->Ok_0[k]) is Product ==> clean_others(
                parse_items_spec(text, force_base)->Ok_0[k]->Product_0.others,
            ),
{
    let vals = json_array_of_text(text)->Ok_0;
    lemma_items_and_errors(vals, force_base);
    let items = parse_items_spec(text, force_base)->Ok_0;
    assert forall|k: int| 0 <= k < items.len() && (#[trigger] items[k]) is Product implies clean_others(
        items[k]->Product_0.others,
    ) by {
        assert(item_of(vals[k], force_base) == Ok::<InputItemV, ErrorV>(items[k]));
        let j = vals[k];
        lemma_retained_clean(crate::product::product_of(j)->0.others);
    }
}

// ---------- refreshing ----------

/// The overrides of an item.
pub open spec fn item_overrides(item: InputItemV) -> Seq<(Seq<char>, JsonV)> {
    match item {
        InputItemV::Product(p) => p.overrides,
        InputItemV::Base(b) => b.overrides,
    }
}

/// An item whose repository is not fetched, or whose fetch failed, keeps
/// its previous information: a product stays as it is (so does an up-to-date
/// one), a base product gets the default values.
pub proof fn law_unfetched_item_kept(item: InputItemV, updated_at: Option<Timestamp>, now: Timestamp)
    ensures
        item is Product ==> updated_product(item, updated_at, None, now) == item->Product_0,
        item is Base ==> updated_product(item, updated_at, None, now) == overridden(
            base_product_spec(item->Base_0),
        ),
        forall|d: RepoDetail|
            item is Product && up_to_date(item->Product_0, updated_at) ==> #[trigger] updated_product(
                item,
                updated_at,
                Some(d),
                now,
            ) == item->Product_0,
{
}

/// After a refresh with the update time `u` of its repository, an item
/// served by GitHub is up to date with `u`, so the next run with the same
/// time keeps it as it is; this holds unless its overrides give
/// `last_updated` themselves.
pub proof fn law_refreshed_is_up_to_date(item: InputItemV, u: Timestamp, d: RepoDetail, now: Timestamp)
    requires
        is_github_item(item),
        item is Product ==> no_field_keys(item->Product_0.others),
        lookup(item_overrides(item), "last_updated"@) is None,
    ensures
        up_to_date(updated_product(item, Some(u), Some(d), now), Some(u)),
{
    let fp = match item {
        InputItemV::Product(p) => fetched_product(
            d,
            None,
            p.overrides,
            p.others,
            p.releases,
            Some(u),
            as_link_specs(p.links),
            now,
        ),
        InputItemV::Base(b) => fetched_product(
            d,
            b.logo,
            b.overrides,
            Seq::empty(),
            Seq::empty(),
            Some(u),
            b.links,
            now,
        ),
    };
    if fp.overrides.len() > 0 {
        law_overrides_replace_fields(fp);
    }
}

/// What the listing of an owner records is what is read back for its
/// repositories, and the other owners read as before.
pub proof fn law_updated_map_read_back(
    m: Seq<(Seq<char>, Seq<(Seq<char>, Timestamp)>)>,
    owner: Seq<char>,
    names: Seq<(Seq<char>, Timestamp)>,
    other: Seq<char>,
    name: Seq<char>,
)
    ensures
        updated_at_spec(m.push((owner, names)), owner, name) == last_value(names, name),
        other != owner ==> updated_at_spec(m.push((owner, names)), other, name) == updated_at_spec(
            m,
            other,
            name,
        ),
{
    assert(m.push((owner, names)).drop_last() =~= m);
}

// ---------- what each operation gives ----------

/// Fields that the overrides do not give stay as they were.
proof fn lemma_overridden_keeps_fields(q: ProductV)
    requires
        no_field_keys(q.others),
    ensures
        lookup(q.overrides, "releases"@) is None ==> overridden(q).releases == q.releases,
        lookup(q.overrides, "license"@) is None ==> overridden(q).license == q.license,
        lookup(q.overrides, "description"@) is None ==> overridden(q).description == q.description,
        lookup(q.overrides, "last_updated"@) is None ==> overridden(q).last_updated == q.last_updated,
        lookup(q.overrides, "languages"@) is None ==> overridden(q).languages == q.languages,
        lookup(q.overrides, "topics"@) is None ==> overridden(q).topics == q.topics,
        overridden(q).owner == q.owner,
        overridden(q).name == q.name,
{
    law_overrides_keep_identity(q);
    if q.overrides.len() > 0 {
        law_overrides_replace_fields(q);
    }
}

/// Refreshing a product that is not up to date keeps every release that it
/// had, adding at most the latest one that GitHub reports (unless its
/// overrides give the releases themselves).
pub proof fn law_refresh_keeps_known_releases(
    p: ProductV,
    updated_at: Option<Timestamp>,
    d: RepoDetail,
    now: Timestamp,
)
    requires
        !up_to_date(p, updated_at),
        no_field_keys(p.others),
        lookup(p.overrides, "releases"@) is None,
    ensures
        forall|i: int|
            0 <= i < p.releases.len() ==> updated_product(
                InputItemV::Product(p),
                updated_at,
                Some(d),
                now,
            ).releases.contains(#[trigger] p.releases[i]),
        updated_product(InputItemV::Product(p), updated_at, Some(d), now).releases.len()
            <= p.releases.len() + 1,
{
    let fp = fetched_product(
        d,
        None,
        p.overrides,
        p.others,
        p.releases,
        updated_at,
        as_link_specs(p.links),
        now,
    );
    lemma_overridden_keeps_fields(fp);
    law_known_releases_kept(p.releases, d.latest_release);
}

/// A product built from a repository detail has the repository's license,
/// and only it: the SPDX id (`unknown` when GitHub has none), the name and
/// the URL; it has no license when the repository reports none (unless the
/// overrides give the licenses themselves).
pub proof fn law_built_license(
    d: RepoDetail,
    logo: Option<Seq<char>>,
    overrides: Seq<(Seq<char>, JsonV)>,
    others: Seq<(Seq<char>, JsonV)>,
    releases: Seq<ReleaseV>,
    last_updated: Option<Timestamp>,
    links: Seq<LinkSpecV>,
    now: Timestamp,
)
    requires
        no_field_keys(others),
        lookup(overrides, "license"@) is None,
    ensures
        ({
            let ls = overridden(
                fetched_product(d, logo, overrides, others, releases, last_updated, links, now),
            ).license;
            match d.license_info {
                Some(l) => {
                    &&& ls.len() == 1
                    &&& ls[0].spdx == match l.spdx {
                        Some(s) => s@,
                        None => "unknown"@,
                    }
                    &&& ls[0].name == l.name@
                    &&& ls[0].url == match l.url {
                        Some(u) => Some(u@),
                        None => None::<Seq<char>>,
                    }
                },
                None => ls.len() == 0,
            }
        }),
{
    let fp = fetched_product(d, logo, overrides, others, releases, last_updated, links, now);
    lemma_overridden_keeps_fields(fp);
}

/// A product built from a repository detail is that repository's: its owner,
/// its name, its description, the names of its languages and of its topics in
/// their order (none when GitHub reports none), and as `last_updated` the one
/// given, else the time of the last push (unless the overrides give these
/// fields themselves).
pub proof fn law_built_from_detail(
    d: RepoDetail,
    logo: Option<Seq<char>>,
    overrides: Seq<(Seq<char>, JsonV)>,
    others: Seq<(Seq<char>, JsonV)>,
    releases: Seq<ReleaseV>,
    last_updated: Option<Timestamp>,
    links: Seq<LinkSpecV>,
    now: Timestamp,
)
    requires
        no_field_keys(others),
    ensures
        ({
            let p = overridden(
                fetched_product(d, logo, overrides, others, releases, last_updated, links, now),
            );
            &&& p.owner == d.owner.login@
            &&& p.name == d.name@
            &&& lookup(overrides, "description"@) is None ==> p.description == match d.description {
                Some(s) => Some(s@),
                None => None::<Seq<char>>,
            }
            &&& lookup(overrides, "languages"@) is None ==> match d.languages {
                Some(l) => p.languages.len() == l.nodes.len() && forall|i: int|
                    0 <= i < l.nodes.len() ==> #[trigger] p.languages[i] == l.nodes@[i].name@,
                None => p.languages.len() == 0,
            }
            &&& lookup(overrides, "topics"@) is None ==> match d.topics {
                Some(t) => p.topics.len() == t.nodes.len() && forall|i: int|
                    0 <= i < t.nodes.len() ==> #[trigger] p.topics[i] == t.nodes@[i].topic.name@,
                None => p.topics.len() == 0,
            }
            &&& lookup(overrides, "last_updated"@) is None ==> p.last_updated == Some(
                match last_updated {
                    Some(t) => t,
                    None => match d.last_modified_at {
                        Some(t) => t,
                        None => now,
                    },
                },
            )
        }),
{
    let fp = fetched_product(d, logo, overrides, others, releases, last_updated, links, now);
    lemma_overridden_keeps_fields(fp);
}

/// A repository detail read from an object takes its name, URL and
/// description from their keys: the description is the text given, and none
/// when the key is `null` or missing; `isArchived` is false when missing.
pub proof fn law_detail_fields(e: Seq<(Seq<char>, JsonV)>)
    requires
        repo_detail_of(JsonV::Object(e)) is Some,
    ensures
        lookup(e, "name"@) == Some(JsonV::Str(repo_detail_of(JsonV::Object(e))->0.name)),
        lookup(e, "url"@) == Some(JsonV::Str(repo_detail_of(JsonV::Object(e))->0.url)),
        repo_detail_of(JsonV::Object(e))->0.description == match lookup(e, "description"@) {
            Some(JsonV::Str(s)) => Some(s),
            _ => None::<Seq<char>>,
        },
        repo_detail_of(JsonV::Object(e))->0.homepage_url == match lookup(e, "homepageUrl"@) {
            Some(JsonV::Str(s)) => Some(s),
            _ => None::<Seq<char>>,
        },
        repo_detail_of(JsonV::Object(e))->0.is_archived == match lookup(e, "isArchived"@) {
            Some(JsonV::Bool(b)) => b,
            _ => false,
        },
{
}

/// A release read from an object takes its name and its description from
/// their keys: the description is the text given, and empty only when the
/// key is missing.
pub proof fn law_release_fields(e: Seq<(Seq<char>, JsonV)>)
    requires
        release_of(JsonV::Object(e)) is Some,
    ensures
        lookup(e, "name"@) == Some(JsonV::Str(release_of(JsonV::Object(e))->0.name)),
        match lookup(e, "description"@) {
            Some(j) => j == JsonV::Str(release_of(JsonV::Object(e))->0.description),
            None => release_of(JsonV::Object(e))->0.description == Seq::<char>::empty(),
        },
{
}

/// A product is up to date exactly when both its `last_updated` and the
/// repository's update time are known and the update is not later; so a
/// product with no `last_updated` is always fetched.
pub proof fn law_up_to_date_needs_both_times(p: ProductV, updated_at: Option<Timestamp>)
    ensures
        up_to_date(p, updated_at) <==> (p.last_updated is Some && updated_at is Some && (
        updated_at->0.secs < p.last_updated->0.secs || (updated_at->0.secs == p.last_updated->0.secs
            && updated_at->0.nanos <= p.last_updated->0.nanos))),
        p.last_updated is None ==> needs_fetch_spec(InputItemV::Product(p), updated_at),
{
}

} // verus!
