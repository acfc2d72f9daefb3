//! The decisions of the update: which owners to list, which items to fetch,
//! and what each item becomes with what GitHub reported.
//!
//! Listing the repositories of an owner and fetching the detail of a
//! repository run the GitHub CLI; the caller does that and hands the results
//! to these functions.

use vstd::prelude::*;

use crate::github::RepoDetail;
use crate::product::{
    base_product_spec, build_product_at, fetched_product, items_view, link_specs_view, links_view,
    opt_view, overridden, InputItem, InputItemV, LinkSpec, LinkSpecV, LinkV, Product, ProductV,
};
use crate::json::entries_view;
use crate::product::releases_view;
use crate::text::{chars_of, text_eq};
use crate::time::{not_after, now, Timestamp};

verus! {

broadcast use vstd::std_specs::vec::axiom_vec_index_decreases;

// ---------- owners ----------

/// `a` comes before `b` in the order of `String`: character by character,
/// a proper prefix first.
pub open spec fn text_less(a: Seq<char>, b: Seq<char>) -> bool
    decreases a.len(),
{
    if a.len() == 0 {
        b.len() > 0
    } else if b.len() == 0 {
        false
    } else if a[0] != b[0] {
        a[0] < b[0]
    } else {
        text_less(a.drop_first(), b.drop_first())
    }
}

/// No text comes before itself.
pub proof fn lemma_text_less_irreflexive(a: Seq<char>)
    ensures
        !text_less(a, a),
    decreases a.len(),
{
    if a.len() > 0 {
        lemma_text_less_irreflexive(a.drop_first());
    }
}

/// Of two different texts, one comes before the other.
pub proof fn lemma_text_less_total(a: Seq<char>, b: Seq<char>)
    ensures
        a == b || text_less(a, b) || text_less(b, a),
    decreases a.len(),
{
    if a.len() > 0 && b.len() > 0 && a[0] == b[0] {
        lemma_text_less_total(a.drop_first(), b.drop_first());
        if a.drop_first() == b.drop_first() {
            assert(a =~= seq![a[0]] + a.drop_first());
            assert(b =~= seq![b[0]] + b.drop_first());
        }
    } else if a.len() == 0 && b.len() == 0 {
        assert(a =~= b);
    }
}

/// Two texts never come each before the other.
pub proof fn lemma_text_less_asymmetric(a: Seq<char>, b: Seq<char>)
    ensures
        !(text_less(a, b) && text_less(b, a)),
    decreases a.len(),
{
    if a.len() > 0 && b.len() > 0 && a[0] == b[0] {
        lemma_text_less_asymmetric(a.drop_first(), b.drop_first());
    }
}

/// The order of texts is transitive.
pub proof fn lemma_text_less_transitive(a: Seq<char>, b: Seq<char>, c: Seq<char>)
    requires
        text_less(a, b),
        text_less(b, c),
    ensures
        text_less(a, c),
    decreases a.len(),
{
    if a.len() > 0 && b.len() > 0 && c.len() > 0 && a[0] == b[0] && b[0] == c[0] {
        lemma_text_less_transitive(a.drop_first(), b.drop_first(), c.drop_first());
    }
}

/// Whether `a` comes before `b` in the order of `String`.
pub fn less_text(a: &str, b: &str) -> (r: bool)
    ensures
        r == text_less(a@, b@),
{
    let x = chars_of(a);
    let y = chars_of(b);
    let mut i: usize = 0;
    assert(a@.skip(0) =~= a@);
    assert(b@.skip(0) =~= b@);
    while i < x.len() && i < y.len() && x[i] == y[i]
        invariant
            i <= x.len(),
            i <= y.len(),
            x@ == a@,
            y@ == b@,
            text_less(a@, b@) == text_less(a@.skip(i as int), b@.skip(i as int)),
        decreases x.len() - i,
    {
        proof {
            assert(a@.skip(i as int).drop_first() =~= a@.skip(i + 1));
            assert(b@.skip(i as int).drop_first() =~= b@.skip(i + 1));
        }
        i = i + 1;
    }
    if i == x.len() {
        i < y.len()
    } else if i == y.len() {
        false
    } else {
        x[i] < y[i]
    }
}

/// Whether an item is served by GitHub: a full product always is, a base
/// product when its `service` is `github`.
pub open spec fn is_github_item(item: InputItemV) -> bool {
    match item {
        InputItemV::Product(_) => true,
        InputItemV::Base(b) => b.service == "github"@,
    }
}

pub open spec fn item_owner(item: InputItemV) -> Seq<char> {
    match item {
        InputItemV::Product(p) => p.owner,
        InputItemV::Base(b) => b.owner,
    }
}

/// Whether some GitHub item of `items` has the owner `o`.
pub open spec fn is_github_owner(items: Seq<InputItemV>, o: Seq<char>) -> bool {
    exists|k: int| 0 <= k < items.len() && is_github_item(#[trigger] items[k]) && item_owner(items[k]) == o
}

/// Strictly increasing in the order of `String`.
pub open spec fn strictly_sorted(s: Seq<Seq<char>>) -> bool {
    forall|i: int, j: int| 0 <= i < j < s.len() ==> text_less(#[trigger] s[i], #[trigger] s[j])
}

impl InputItem {
    /// The owner of the repository of the item.
    pub fn owner(&self) -> (r: &str)
        ensures
            r@ == item_owner(self@),
    {
        match self {
            InputItem::Product(p) => p.owner.as_str(),
            InputItem::Base(b) => b.owner.as_str(),
        }
    }

    /// The name of the repository of the item.
    pub fn name(&self) -> (r: &str)
        ensures
            r@ == match self@ {
                InputItemV::Product(p) => p.name,
                InputItemV::Base(b) => b.name,
            },
    {
        match self {
            InputItem::Product(p) => p.name.as_str(),
            InputItem::Base(b) => b.name.as_str(),
        }
    }

    /// The service of the item: `github` for a full product.
    pub fn service(&self) -> (r: &str)
        ensures
            r@ == match self@ {
                InputItemV::Product(_) => "github"@,
                InputItemV::Base(b) => b.service,
            },
    {
        match self {
            InputItem::Product(_) => "github",
            InputItem::Base(b) => b.service.as_str(),
        }
    }
}

/// An owner of the GitHub items among the first `i + 1` items is one of the
/// first `i`, or the owner of item `i` if that one is served by GitHub.
proof fn lemma_github_owner_step(iv: Seq<InputItemV>, i: int, o: Seq<char>)
    requires
        0 <= i < iv.len(),
    ensures
        is_github_owner(iv.take(i + 1), o) <==> (is_github_owner(iv.take(i), o) || (is_github_item(
            iv[i],
        ) && item_owner(iv[i]) == o)),
{
    if is_github_owner(iv.take(i + 1), o) {
        let k = choose|k: int|
            0 <= k < iv.take(i + 1).len() && is_github_item(#[trigger] iv.take(i + 1)[k])
                && item_owner(iv.take(i + 1)[k]) == o;
        if k < i {
            assert(iv.take(i)[k] == iv.take(i + 1)[k]);
        }
    }
    if is_github_owner(iv.take(i), o) {
        let k = choose|k: int|
            0 <= k < iv.take(i).len() && is_github_item(#[trigger] iv.take(i)[k]) && item_owner(
                iv.take(i)[k],
            ) == o;
        assert(iv.take(i + 1)[k] == iv.take(i)[k]);
    }
    if is_github_item(iv[i]) && item_owner(iv[i]) == o {
        assert(iv.take(i + 1)[i] == iv[i]);
    }
}

/// Putting `x` into strictly sorted texts after those that come before it,
/// and before the next one, which comes after it, keeps them strictly sorted
/// and adds just `x`.
proof fn lemma_insert_sorted(ov: Seq<Seq<char>>, k: int, x: Seq<char>)
    requires
        strictly_sorted(ov),
        0 <= k <= ov.len(),
        forall|j: int| 0 <= j < k ==> text_less(#[trigger] ov[j], x),
        k < ov.len() ==> ov[k] == x || text_less(ov[k], x) || text_less(x, ov[k]),
        k < ov.len() ==> ov[k] != x && !text_less(ov[k], x),
    ensures
        strictly_sorted(ov.take(k) + seq![x] + ov.skip(k)),
        forall|o: Seq<char>| (ov.take(k) + seq![x] + ov.skip(k)).contains(o) <==> (ov.contains(o) || o == x),
{
    let nv = ov.take(k) + seq![x] + ov.skip(k);
    assert forall|a: int, b: int| 0 <= a < b < nv.len() implies text_less(
        #[trigger] nv[a],
        #[trigger] nv[b],
    ) by {
        if b < k {
            assert(nv[a] == ov[a]);
            assert(nv[b] == ov[b]);
        } else if a < k && b == k {
            assert(nv[a] == ov[a]);
        } else if a < k {
            assert(nv[a] == ov[a]);
            assert(nv[b] == ov[b - 1]);
            assert(text_less(ov[a], ov[b - 1]));
        } else if a == k {
            assert(nv[b] == ov[b - 1]);
            if b - 1 > k {
                lemma_text_less_transitive(x, ov[k], ov[b - 1]);
            }
        } else {
            assert(nv[a] == ov[a - 1]);
            assert(nv[b] == ov[b - 1]);
        }
    }
    assert forall|o: Seq<char>| nv.contains(o) <==> (ov.contains(o) || o == x) by {
        if nv.contains(o) {
            let j = choose|j: int| 0 <= j < nv.len() && nv[j] == o;
            if j < k {
                assert(ov[j] == o);
            } else if j > k {
                assert(ov[j - 1] == o);
            }
        }
        if ov.contains(o) {
            let j = choose|j: int| 0 <= j < ov.len() && ov[j] == o;
            if j < k {
                assert(nv[j] == o);
            } else {
                assert(nv[j + 1] == o);
            }
        }
        if o == x {
            assert(nv[k] == o);
        }
    }
}

/// The owners whose repositories are listed: those of the GitHub items,
/// each once, in the order of `String` (the order of a `BTreeSet`).
pub fn github_owners(items: &Vec<InputItem>) -> (r: Vec<String>)
    ensures
        strictly_sorted(crate::product::texts_view(r@)),
        forall|o: Seq<char>|
            crate::product::texts_view(r@).contains(o) <==> is_github_owner(items_view(items@), o),
{
    let mut out: Vec<String> = Vec::new();
    let mut i: usize = 0;
    while i < items.len()
        invariant
            i <= items.len(),
            strictly_sorted(crate::product::texts_view(out@)),
            forall|o: Seq<char>|
                crate::product::texts_view(out@).contains(o) <==> is_github_owner(
                    items_view(items@).take(i as int),
                    o,
                ),
        decreases items.len() - i,
    {
        let ghost iv = items_view(items@);
        let ghost ov = crate::product::texts_view(out@);
        proof {
            assert(iv[i as int] == items@[i as int]@);
        }
        if text_eq(items[i].service(), "github") {
            let owner = items[i].owner();
            let mut k: usize = 0;
            while k < out.len() && less_text(out[k].as_str(), owner)
                invariant
                    k <= out.len(),
                    ov == crate::product::texts_view(out@),
                    forall|j: int| 0 <= j < k ==> text_less(#[trigger] ov[j], owner@),
                decreases out.len() - k,
            {
                k = k + 1;
            }
            proof {
                assert(is_github_item(iv[i as int]));
                assert(owner@ == item_owner(iv[i as int]));
            }
            if k < out.len() && text_eq(out[k].as_str(), owner) {
                proof {
                    assert(ov[k as int] == owner@);
                    assert(ov.contains(owner@));
                    assert forall|o: Seq<char>| ov.contains(o) <==> is_github_owner(iv.take(i + 1), o) by {
                        lemma_github_owner_step(iv, i as int, o);
                    }
                }
            } else {
                proof {
                    if k < out.len() {
                        lemma_text_less_total(ov[k as int], owner@);
                    }
                    lemma_insert_sorted(ov, k as int, owner@);
                }
                out.insert(k, crate::text::text(owner));
                proof {
                    let nv = crate::product::texts_view(out@);
                    let ins = ov.take(k as int) + seq![owner@] + ov.skip(k as int);
                    assert(nv =~= ins);
                    assert forall|o: Seq<char>| nv.contains(o) <==> is_github_owner(iv.take(i + 1), o) by {
                        lemma_github_owner_step(iv, i as int, o);
                        assert(ins.contains(o) <==> (ov.contains(o) || o == owner@));
                        assert(ov.contains(o) <==> is_github_owner(iv.take(i as int), o));
                    }
                }
            }
        } else {
            proof {
                assert(!is_github_item(iv[i as int]));
                assert forall|o: Seq<char>| ov.contains(o) <==> is_github_owner(iv.take(i + 1), o) by {
                    lemma_github_owner_step(iv, i as int, o);
                }
            }
        }
        i = i + 1;
    }
    proof {
        assert(items_view(items@).take(items.len() as int) =~= items_view(items@));
    }
    out
}

// ---------- last updated times ----------

/// The last updated time (`updatedAt`) of the repositories of each owner, as
/// listed: one entry per owner, and per owner one entry per repository name.
/// When a key occurs twice, the later entry counts, as in a map filled in
/// order.
pub struct UpdatedMap {
    pub owners: Vec<(String, Vec<(String, Timestamp)>)>,
}

pub open spec fn names_view(s: Seq<(String, Timestamp)>) -> Seq<(Seq<char>, Timestamp)> {
    Seq::new(s.len(), |i: int| (s[i].0@, s[i].1))
}

pub open spec fn owners_view(s: Seq<(String, Vec<(String, Timestamp)>)>) -> Seq<
    (Seq<char>, Seq<(Seq<char>, Timestamp)>),
> {
    Seq::new(s.len(), |i: int| (s[i].0@, names_view(s[i].1@)))
}

/// The value of the last entry with the key.
pub open spec fn last_value<V>(s: Seq<(Seq<char>, V)>, key: Seq<char>) -> Option<V>
    decreases s.len(),
{
    if s.len() == 0 {
        None
    } else if s.last().0 == key {
        Some(s.last().1)
    } else {
        last_value(s.drop_last(), key)
    }
}

/// The last updated time of the repository `owner/name`, if it was listed.
pub open spec fn updated_at_spec(
    m: Seq<(Seq<char>, Seq<(Seq<char>, Timestamp)>)>,
    owner: Seq<char>,
    name: Seq<char>,
) -> Option<Timestamp> {
    match last_value(m, owner) {
        Some(names) => last_value(names, name),
        None => None,
    }
}

impl UpdatedMap {
    /// An empty map.
    pub fn new() -> (r: UpdatedMap)
        ensures
            owners_view(r.owners@) == Seq::<(Seq<char>, Seq<(Seq<char>, Timestamp)>)>::empty(),
    {
        let r = UpdatedMap { owners: Vec::new() };
        assert(owners_view(r.owners@) =~= Seq::empty());
        r
    }

    /// Records the repositories listed for an owner.
    pub fn insert(&mut self, owner: String, names: Vec<(String, Timestamp)>)
        ensures
            owners_view(final(self).owners@) == owners_view(old(self).owners@).push(
                (owner@, names_view(names@)),
            ),
    {
        let ghost before = self.owners@;
        self.owners.push((owner, names));
        assert(owners_view(self.owners@) =~= owners_view(before).push(
            (self.owners@.last().0@, names_view(self.owners@.last().1@)),
        ));
    }

    /// The last updated time of the repository `owner/name`, if it was
    /// listed.
    pub fn updated_at(&self, owner: &str, name: &str) -> (r: Option<Timestamp>)
        ensures
            r == updated_at_spec(owners_view(self.owners@), owner@, name@),
    {
        let mut i = self.owners.len();
        assert(self.owners@.take(i as int) =~= self.owners@);
        while i > 0
            invariant
                i <= self.owners.len(),
                last_value(owners_view(self.owners@), owner@) == last_value(
                    owners_view(self.owners@.take(i as int)),
                    owner@,
                ),
            decreases i,
        {
            proof {
                assert(owners_view(self.owners@.take(i as int)).drop_last() =~= owners_view(
                    self.owners@.take(i - 1),
                ));
            }
            if text_eq(self.owners[i - 1].0.as_str(), owner) {
                let names = &self.owners[i - 1].1;
                proof {
                    assert(owners_view(self.owners@.take(i as int)).last() == (
                        owner@,
                        names_view(names@),
                    ));
                }
                let mut k = names.len();
                assert(names@.take(k as int) =~= names@);
                while k > 0
                    invariant
                        k <= names.len(),
                        last_value(owners_view(self.owners@), owner@) == Some(names_view(names@)),
                        last_value(names_view(names@), name@) == last_value(
                            names_view(names@.take(k as int)),
                            name@,
                        ),
                    decreases k,
                {
                    proof {
                        assert(names_view(names@.take(k as int)).drop_last() =~= names_view(
                            names@.take(k - 1),
                        ));
                    }
                    if text_eq(names[k - 1].0.as_str(), name) {
                        return Some(names[k - 1].1);
                    }
                    k = k - 1;
                }
                return None;
            }
            i = i - 1;
        }
        None
    }
}

// ---------- items ----------

/// A product is up to date when it was fetched at or after the last update
/// of its repository; it is not when either time is unknown.
pub open spec fn up_to_date(p: ProductV, updated_at: Option<Timestamp>) -> bool {
    match (p.last_updated, updated_at) {
        (Some(last), Some(updated)) => not_after(updated, last),
        _ => false,
    }
}

/// Whether the product is up to date with its repository.
pub fn is_up_to_date(product: &Product, updated_at: Option<Timestamp>) -> (r: bool)
    ensures
        r == up_to_date(product@, updated_at),
{
    match (product.last_updated, updated_at) {
        (Some(last), Some(updated)) => updated.not_after(&last),
        _ => false,
    }
}

/// Whether the detail of the item's repository is to be fetched: a base
/// product served by GitHub always, a full product when it is not up to date.
pub open spec fn needs_fetch_spec(item: InputItemV, updated_at: Option<Timestamp>) -> bool {
    match item {
        InputItemV::Base(b) => b.service == "github"@,
        InputItemV::Product(p) => !up_to_date(p, updated_at),
    }
}

/// Whether the detail of the item's repository is to be fetched.
pub fn needs_fetch(item: &InputItem, updated_at: Option<Timestamp>) -> (r: bool)
    ensures
        r == needs_fetch_spec(item@, updated_at),
{
    match item {
        InputItem::Base(b) => text_eq(b.service.as_str(), "github"),
        InputItem::Product(p) => !is_up_to_date(p, updated_at),
    }
}

/// The links of a product given back as link specs, each with its URL.
pub open spec fn as_link_specs(links: Seq<LinkV>) -> Seq<LinkSpecV> {
    Seq::new(links.len(), |i: int| LinkSpecV::Link(links[i]))
}

/// What an item becomes: when its repository is to be fetched and its
/// detail is there, the product built from it, keeping the overrides, the
/// links (the logo and the link specs of a base product, the links of a
/// product), and for a product its known releases and other keys; when the
/// fetch was not needed or failed, a base product gets the default values,
/// and a product is kept as it is.
pub open spec fn updated_product(
    item: InputItemV,
    updated_at: Option<Timestamp>,
    fetched: Option<RepoDetail>,
    now: Timestamp,
) -> ProductV {
    match item {
        InputItemV::Base(b) => match fetched {
            Some(d) => if b.service == "github"@ {
                overridden(
                    fetched_product(
                        d,
                        b.logo,
                        b.overrides,
                        Seq::empty(),
                        Seq::empty(),
                        updated_at,
                        b.links,
                        now,
                    ),
                )
            } else {
                overridden(base_product_spec(b))
            },
            None => overridden(base_product_spec(b)),
        },
        InputItemV::Product(p) => match fetched {
            Some(d) => if !up_to_date(p, updated_at) {
                overridden(
                    fetched_product(
                        d,
                        None,
                        p.overrides,
                        p.others,
                        p.releases,
                        updated_at,
                        as_link_specs(p.links),
                        now,
                    ),
                )
            } else {
                p
            },
            None => p,
        },
    }
}

fn link_specs_of_links(links: Vec<crate::product::Link>) -> (r: Vec<LinkSpec>)
    ensures
        link_specs_view(r@) == as_link_specs(links_view(links@)),
{
    let ghost src = links@;
    let mut out: Vec<LinkSpec> = Vec::new();
    for l in it: links.into_iter()
        invariant
            it.seq() == src,
            link_specs_view(out@) == as_link_specs(links_view(src.take(it.index() as int))),
    {
        let ghost before = out@;
        let ghost lv = l@;
        let ghost idx = it.index() as int;
        out.push(LinkSpec::Link(l));
        proof {
            assert(links_view(src.take(idx + 1)) =~= links_view(src.take(idx)).push(lv));
            assert(as_link_specs(links_view(src.take(idx)).push(lv)) =~= as_link_specs(
                links_view(src.take(idx)),
            ).push(LinkSpecV::Link(lv)));
            assert(link_specs_view(out@) =~= link_specs_view(before).push(LinkSpecV::Link(lv)));
        }
    }
    proof {
        assert(src.take(src.len() as int) =~= src);
    }
    out
}

/// What an item becomes with the detail of its repository (`fetched`, when
/// it was fetched and the fetch succeeded); `now` stands for the update time
/// when nothing tells it.
pub fn update_item_at(
    item: InputItem,
    updated_at: Option<Timestamp>,
    fetched: Option<RepoDetail>,
    now: Timestamp,
) -> (r: Product)
    ensures
        r@ == updated_product(item@, updated_at, fetched, now),
{
    let fetch = needs_fetch(&item, updated_at);
    match item {
        InputItem::Base(b) => match fetched {
            Some(d) => if fetch {
                let others: Vec<(String, crate::json::Json)> = Vec::new();
                let releases: Vec<crate::product::Release> = Vec::new();
                proof {
                    assert(entries_view(others@) =~= Seq::empty());
                    assert(releases_view(releases@) =~= Seq::empty());
                }
                build_product_at(d, b.logo, b.overrides, others, releases, updated_at, &b.links, now)
            } else {
                b.to_product()
            },
            None => b.to_product(),
        },
        InputItem::Product(p) => match fetched {
            Some(d) => if fetch {
                let p = *p;
                let specs = link_specs_of_links(p.links);
                build_product_at(d, None, p.overrides, p.others, p.releases, updated_at, &specs, now)
            } else {
                *p
            },
            None => *p,
        },
    }
}

/// Whether what an item becomes depends on the current time: its product is
/// built from the fetched detail, and neither the update time nor the time of
/// the last push is known.
pub open spec fn clock_needed(item: InputItemV, updated_at: Option<Timestamp>, fetched: Option<RepoDetail>) -> bool {
    &&& fetched is Some
    &&& updated_at is None
    &&& fetched->0.last_modified_at is None
    &&& needs_fetch_spec(item, updated_at)
}

/// What an item becomes with the detail of its repository, the current time
/// standing for the update time when nothing tells it; the clock is read
/// only then.
pub fn update_item(item: InputItem, updated_at: Option<Timestamp>, fetched: Option<RepoDetail>) -> (r:
    Product)
    ensures
        exists|t: Timestamp| r@ == #[trigger] updated_product(item@, updated_at, fetched, t),
        !clock_needed(item@, updated_at, fetched) ==> forall|t: Timestamp|
            r@ == #[trigger] updated_product(item@, updated_at, fetched, t),
{
    let needed = match &fetched {
        Some(d) => updated_at.is_none() && d.last_modified_at.is_none() && needs_fetch(&item, updated_at),
        None => false,
    };
    let t = if needed {
        now()
    } else {
        Timestamp { secs: 0, nanos: 0 }
    };
    update_item_at(item, updated_at, fetched, t)
}

} // verus!
