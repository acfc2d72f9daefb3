//! The products: their types, how the input JSON is read into them, how the
//! links are resolved, how `overrides` are applied, and how a product is built
//! from the detail of its repository.

use vstd::prelude::*;
use vstd::string::*;

use crate::json::{
    json_array_of_text, parse_json_array, copy_entries, entries_view, get, jsons_view, lemma_array_view, lemma_object_view, lookup, Json, JsonV,
};
use crate::github::{RepoDetail, ReleaseNode};
use crate::text::{is_blank, is_blank_text, text, text_eq, trim, trim_spec};
use crate::{combined, errors_view, Error, ErrorV};
use crate::time::{before, now, parse_timestamp, timestamp_of_text, Timestamp};

verus! {

broadcast use vstd::std_specs::vec::axiom_vec_index_decreases;

// ---------- types ----------

/// A release of a product.
#[derive(Debug)]
pub struct Release {
    pub name: String,
    pub release_date: Timestamp,
    pub description: String,
}

/// A license of a product.
#[derive(Debug)]
pub struct License {
    pub spdx: String,
    pub name: String,
    pub url: Option<String>,
}

/// A link of a product.
#[derive(Debug)]
pub struct Link {
    pub label: String,
    pub url: String,
}

/// An element of `links` in the input JSON: either a full [`Link`], or a bare
/// link type (`"sbom"`, `"repository"`, ...) whose URL is derived from the
/// `owner` and `name` of the product.
#[derive(Debug)]
pub enum LinkSpec {
    Type(String),
    Link(Link),
}

/// The full product information.
#[derive(Debug)]
pub struct Product {
    pub owner: String,
    pub name: String,
    pub description: Option<String>,
    pub releases: Vec<Release>,
    pub license: Vec<License>,
    /// Every URL of the product: the logo, the web site, the repository, the
    /// SBOM, and so on.
    pub links: Vec<Link>,
    pub languages: Vec<String>,
    pub topics: Vec<String>,
    /// The values overwriting the information fetched from GitHub, kept so
    /// that they are applied again on every refresh.
    pub overrides: Vec<(String, Json)>,
    /// `updatedAt` of the repository at the last fetch.
    pub last_updated: Option<Timestamp>,
    /// The other keys of the product, written as they are.
    pub others: Vec<(String, Json)>,
}

/// The base product information.
#[derive(Debug)]
pub struct BaseProduct {
    pub owner: String,
    pub name: String,
    /// The logo given as its own key instead of a `logo` link.
    pub logo: Option<String>,
    pub service: String,
    pub overrides: Vec<(String, Json)>,
    pub last_updated: Option<Timestamp>,
    pub links: Vec<LinkSpec>,
}

/// An element of the input JSON array: either a full product or a base product.
#[derive(Debug)]
pub enum InputItem {
    Product(Box<Product>),
    Base(BaseProduct),
}

// ---------- views ----------

/// The value of a [`Release`].
pub struct ReleaseV {
    pub name: Seq<char>,
    pub release_date: Timestamp,
    pub description: Seq<char>,
}

/// The value of a [`License`].
pub struct LicenseV {
    pub spdx: Seq<char>,
    pub name: Seq<char>,
    pub url: Option<Seq<char>>,
}

/// The value of a [`Link`].
pub struct LinkV {
    pub label: Seq<char>,
    pub url: Seq<char>,
}

/// The value of a [`LinkSpec`].
pub enum LinkSpecV {
    Type(Seq<char>),
    Link(LinkV),
}

/// The value of a [`Product`].
pub struct ProductV {
    pub owner: Seq<char>,
    pub name: Seq<char>,
    pub description: Option<Seq<char>>,
    pub releases: Seq<ReleaseV>,
    pub license: Seq<LicenseV>,
    pub links: Seq<LinkV>,
    pub languages: Seq<Seq<char>>,
    pub topics: Seq<Seq<char>>,
    pub overrides: Seq<(Seq<char>, JsonV)>,
    pub last_updated: Option<Timestamp>,
    pub others: Seq<(Seq<char>, JsonV)>,
}

/// The value of a [`BaseProduct`].
pub struct BaseProductV {
    pub owner: Seq<char>,
    pub name: Seq<char>,
    pub logo: Option<Seq<char>>,
    pub service: Seq<char>,
    pub overrides: Seq<(Seq<char>, JsonV)>,
    pub last_updated: Option<Timestamp>,
    pub links: Seq<LinkSpecV>,
}

/// The value of an [`InputItem`].
pub enum InputItemV {
    Product(ProductV),
    Base(BaseProductV),
}

/// The values of a list of texts.
pub open spec fn texts_view(s: Seq<String>) -> Seq<Seq<char>> {
    Seq::new(s.len(), |i: int| s[i]@)
}

impl View for Release {
    type V = ReleaseV;

    open spec fn view(&self) -> ReleaseV {
        ReleaseV { name: self.name@, release_date: self.release_date, description: self.description@ }
    }
}

impl View for License {
    type V = LicenseV;

    open spec fn view(&self) -> LicenseV {
        LicenseV { spdx: self.spdx@, name: self.name@, url: opt_view(self.url) }
    }
}

impl View for Link {
    type V = LinkV;

    open spec fn view(&self) -> LinkV {
        LinkV { label: self.label@, url: self.url@ }
    }
}

impl View for LinkSpec {
    type V = LinkSpecV;

    open spec fn view(&self) -> LinkSpecV {
        match self {
            LinkSpec::Type(t) => LinkSpecV::Type(t@),
            LinkSpec::Link(l) => LinkSpecV::Link(l@),
        }
    }
}

/// The values of a list of releases.
pub open spec fn releases_view(s: Seq<Release>) -> Seq<ReleaseV> {
    Seq::new(s.len(), |i: int| s[i]@)
}

/// The values of a list of licenses.
pub open spec fn licenses_view(s: Seq<License>) -> Seq<LicenseV> {
    Seq::new(s.len(), |i: int| s[i]@)
}

/// The values of a list of links.
pub open spec fn links_view(s: Seq<Link>) -> Seq<LinkV> {
    Seq::new(s.len(), |i: int| s[i]@)
}

/// The values of a list of link specs.
pub open spec fn link_specs_view(s: Seq<LinkSpec>) -> Seq<LinkSpecV> {
    Seq::new(s.len(), |i: int| s[i]@)
}

impl View for Product {
    type V = ProductV;

    open spec fn view(&self) -> ProductV {
        ProductV {
            owner: self.owner@,
            name: self.name@,
            description: opt_view(self.description),
            releases: releases_view(self.releases@),
            license: licenses_view(self.license@),
            links: links_view(self.links@),
            languages: texts_view(self.languages@),
            topics: texts_view(self.topics@),
            overrides: entries_view(self.overrides@),
            last_updated: self.last_updated,
            others: entries_view(self.others@),
        }
    }
}

impl View for BaseProduct {
    type V = BaseProductV;

    open spec fn view(&self) -> BaseProductV {
        BaseProductV {
            owner: self.owner@,
            name: self.name@,
            logo: opt_view(self.logo),
            service: self.service@,
            overrides: entries_view(self.overrides@),
            last_updated: self.last_updated,
            links: link_specs_view(self.links@),
        }
    }
}

impl View for InputItem {
    type V = InputItemV;

    open spec fn view(&self) -> InputItemV {
        match self {
            InputItem::Product(p) => InputItemV::Product((**p)@),
            InputItem::Base(b) => InputItemV::Base(b@),
        }
    }
}

/// The values of a list of input items.
pub open spec fn items_view(s: Seq<InputItem>) -> Seq<InputItemV> {
    Seq::new(s.len(), |i: int| s[i]@)
}

// ---------- keys ----------

/// The keys that are fields of [`Product`].
pub open spec fn is_product_key(k: Seq<char>) -> bool {
    ||| k == "owner"@
    ||| k == "name"@
    ||| k == "description"@
    ||| k == "releases"@
    ||| k == "license"@
    ||| k == "links"@
    ||| k == "languages"@
    ||| k == "topics"@
    ||| k == "overrides"@
    ||| k == "last_updated"@
}

/// The keys that used to be fields of [`Product`] and now live in `links`.
pub open spec fn is_retired_key(k: Seq<char>) -> bool {
    ||| k == "logo"@
    ||| k == "url"@
    ||| k == "repository"@
    ||| k == "sbom"@
}

/// The keys that `overrides` cannot change: `overrides` itself, and the keys
/// that identify the repository.
pub open spec fn is_protected_key(k: Seq<char>) -> bool {
    ||| k == "overrides"@
    ||| k == "owner"@
    ||| k == "name"@
}

/// The keys whose presence makes an input entry a full product.
pub open spec fn is_full_product_key(k: Seq<char>) -> bool {
    ||| k == "url"@
    ||| k == "repository"@
    ||| k == "sbom"@
    ||| k == "description"@
    ||| k == "releases"@
    ||| k == "license"@
    ||| k == "languages"@
    ||| k == "topics"@
}

fn product_key(k: &str) -> (r: bool)
    ensures
        r == is_product_key(k@),
{
    text_eq(k, "owner") || text_eq(k, "name") || text_eq(k, "description") || text_eq(
        k,
        "releases",
    ) || text_eq(k, "license") || text_eq(k, "links") || text_eq(k, "languages") || text_eq(
        k,
        "topics",
    ) || text_eq(k, "overrides") || text_eq(k, "last_updated")
}

fn retired_key(k: &str) -> (r: bool)
    ensures
        r == is_retired_key(k@),
{
    text_eq(k, "logo") || text_eq(k, "url") || text_eq(k, "repository") || text_eq(k, "sbom")
}

fn protected_key(k: &str) -> (r: bool)
    ensures
        r == is_protected_key(k@),
{
    text_eq(k, "overrides") || text_eq(k, "owner") || text_eq(k, "name")
}

/// The entries that [`retain_others`] keeps: neither a field of [`Product`]
/// nor a retired key.
pub open spec fn retained(s: Seq<(Seq<char>, JsonV)>) -> Seq<(Seq<char>, JsonV)>
    decreases s.len(),
{
    if s.len() == 0 {
        s
    } else if !is_product_key(s.last().0) && !is_retired_key(s.last().0) {
        retained(s.drop_last()).push(s.last())
    } else {
        retained(s.drop_last())
    }
}

/// Drops the keys that are already a field of [`Product`], and the ones that
/// have been retired in favor of `links`.
fn retain_others(others: Vec<(String, Json)>) -> (r: Vec<(String, Json)>)
    ensures
        entries_view(r@) == retained(entries_view(others@)),
{
    let ghost src = others@;
    let mut out: Vec<(String, Json)> = Vec::new();
    for e in it: others.into_iter()
        invariant
            it.seq() == src,
            entries_view(out@) == retained(entries_view(src.take(it.index() as int))),
    {
        proof {
            assert(entries_view(src.take(it.index() + 1)).drop_last() =~= entries_view(
                src.take(it.index() as int),
            ));
        }
        if !product_key(e.0.as_str()) && !retired_key(e.0.as_str()) {
            out.push(e);
            proof {
                assert(entries_view(out@) =~= retained(entries_view(src.take(it.index() as int))).push(
                    (src[it.index() as int].0@, src[it.index() as int].1@),
                ));
            }
        }
    }
    proof {
        assert(src.take(src.len() as int) =~= src);
    }
    out
}


// ---------- reading JSON values (what deserializing the types does) ----------

/// The JSON value given for a field (`Some`) or its absence (`None`).
pub open spec fn opt_json(f: Option<&Json>) -> Option<JsonV> {
    match f {
        Some(j) => Some(j@),
        None => None,
    }
}

/// The element at position `i` of an array, when there is one: the fields of
/// a struct may be given in order as an array.
pub open spec fn elem(a: Seq<JsonV>, i: int) -> Option<JsonV> {
    if 0 <= i < a.len() {
        Some(a[i])
    } else {
        None
    }
}

/// A JSON string read as a text.
pub open spec fn text_of(j: JsonV) -> Option<Seq<char>> {
    match j {
        JsonV::Str(s) => Some(s),
        _ => None,
    }
}

/// A JSON string or `null` read as an optional text.
pub open spec fn opt_text_of(j: JsonV) -> Option<Option<Seq<char>>> {
    match j {
        JsonV::Null => Some(None),
        JsonV::Str(s) => Some(Some(s)),
        _ => None,
    }
}

/// A JSON string read as an RFC 3339 instant.
pub open spec fn time_of(j: JsonV) -> Option<Timestamp> {
    match j {
        JsonV::Str(s) => timestamp_of_text(s),
        _ => None,
    }
}

/// A JSON string or `null` read as an optional instant.
pub open spec fn opt_time_of(j: JsonV) -> Option<Option<Timestamp>> {
    match j {
        JsonV::Null => Some(None),
        JsonV::Str(s) => match timestamp_of_text(s) {
            Some(t) => Some(Some(t)),
            None => None,
        },
        _ => None,
    }
}

/// A JSON object read as its entries.
pub open spec fn object_of(j: JsonV) -> Option<Seq<(Seq<char>, JsonV)>> {
    match j {
        JsonV::Object(e) => Some(e),
        _ => None,
    }
}

/// Every element read by `f`, or nothing when one of them cannot be read.
pub open spec fn all_of<T>(s: Seq<JsonV>, f: spec_fn(JsonV) -> Option<T>) -> Option<Seq<T>>
    decreases s.len(),
{
    if s.len() == 0 {
        Some(Seq::empty())
    } else {
        match all_of(s.drop_last(), f) {
            None => None,
            Some(r) => match f(s.last()) {
                None => None,
                Some(x) => Some(r.push(x)),
            },
        }
    }
}

/// When a prefix of the elements cannot be read, neither can all of them.
pub proof fn lemma_all_of_prefix<T>(s: Seq<JsonV>, f: spec_fn(JsonV) -> Option<T>, i: int)
    requires
        0 <= i <= s.len(),
        all_of(s.take(i), f) is None,
    ensures
        all_of(s, f) is None,
    decreases s.len() - i,
{
    if i == s.len() {
        assert(s.take(i) =~= s);
    } else {
        assert(s.take(i + 1).drop_last() =~= s.take(i));
        lemma_all_of_prefix(s, f, i + 1);
    }
}

/// The elements of a JSON array read as texts.
pub open spec fn texts_of(s: Seq<JsonV>) -> Option<Seq<Seq<char>>> {
    all_of(s, |j: JsonV| text_of(j))
}

/// A [`Link`] read from its fields.
pub open spec fn link_from(f0: Option<JsonV>, f1: Option<JsonV>) -> Option<LinkV> {
    match (req_text_field(f0), req_text_field(f1)) {
        (Some(label), Some(url)) => Some(LinkV { label, url }),
        _ => None,
    }
}

/// A [`Link`] read from an object or from an array of its fields.
pub open spec fn link_of(j: JsonV) -> Option<LinkV> {
    match j {
        JsonV::Object(e) => link_from(lookup(e, "label"@), lookup(e, "url"@)),
        JsonV::Array(a) => if a.len() <= 2 {
            link_from(elem(a, 0), elem(a, 1))
        } else {
            None
        },
        _ => None,
    }
}

/// The elements of a JSON array read as links.
pub open spec fn links_of(s: Seq<JsonV>) -> Option<Seq<LinkV>> {
    all_of(s, |j: JsonV| link_of(j))
}

/// A [`License`] read from its fields; the URL may be missing.
pub open spec fn license_from(f0: Option<JsonV>, f1: Option<JsonV>, f2: Option<JsonV>) -> Option<
    LicenseV,
> {
    match (req_text_field(f0), req_text_field(f1), opt_text_field(f2, None)) {
        (Some(spdx), Some(name), Some(url)) => Some(LicenseV { spdx, name, url }),
        _ => None,
    }
}

/// A [`License`] read from an object or from an array of its fields.
pub open spec fn license_of(j: JsonV) -> Option<LicenseV> {
    match j {
        JsonV::Object(e) => license_from(lookup(e, "spdx"@), lookup(e, "name"@), lookup(e, "url"@)),
        JsonV::Array(a) => if a.len() <= 3 {
            license_from(elem(a, 0), elem(a, 1), elem(a, 2))
        } else {
            None
        },
        _ => None,
    }
}

/// The elements of a JSON array read as licenses.
pub open spec fn licenses_of(s: Seq<JsonV>) -> Option<Seq<LicenseV>> {
    all_of(s, |j: JsonV| license_of(j))
}

/// A [`Release`] read from its fields; the description defaults to empty.
pub open spec fn release_from(f0: Option<JsonV>, f1: Option<JsonV>, f2: Option<JsonV>) -> Option<
    ReleaseV,
> {
    match (req_text_field(f0), req_time_field(f1), text_field(f2, Seq::empty())) {
        (Some(name), Some(release_date), Some(description)) => Some(
            ReleaseV { name, release_date, description },
        ),
        _ => None,
    }
}

/// A [`Release`] read from an object or from an array of its fields.
pub open spec fn release_of(j: JsonV) -> Option<ReleaseV> {
    match j {
        JsonV::Object(e) => release_from(
            lookup(e, "name"@),
            lookup(e, "release_date"@),
            lookup(e, "description"@),
        ),
        JsonV::Array(a) => if a.len() <= 3 {
            release_from(elem(a, 0), elem(a, 1), elem(a, 2))
        } else {
            None
        },
        _ => None,
    }
}

/// The elements of a JSON array read as releases.
pub open spec fn releases_of(s: Seq<JsonV>) -> Option<Seq<ReleaseV>> {
    all_of(s, |j: JsonV| release_of(j))
}

/// A [`LinkSpec`]: a string is a bare link type, otherwise a [`Link`].
pub open spec fn link_spec_of(j: JsonV) -> Option<LinkSpecV> {
    match j {
        JsonV::Str(t) => Some(LinkSpecV::Type(t)),
        _ => match link_of(j) {
            Some(l) => Some(LinkSpecV::Link(l)),
            None => None,
        },
    }
}

/// The elements of a JSON array read as link specs.
pub open spec fn link_specs_of(s: Seq<JsonV>) -> Option<Seq<LinkSpecV>> {
    all_of(s, |j: JsonV| link_spec_of(j))
}

// fields: `req_` ones must be there, the others have a default

/// A text field that must be given.
pub open spec fn req_text_field(f: Option<JsonV>) -> Option<Seq<char>> {
    match f {
        Some(j) => text_of(j),
        None => None,
    }
}

/// A text field, `default` when it is not given.
pub open spec fn text_field(f: Option<JsonV>, default: Seq<char>) -> Option<Seq<char>> {
    match f {
        Some(j) => text_of(j),
        None => Some(default),
    }
}

/// An optional text field, `default` when it is not given.
pub open spec fn opt_text_field(f: Option<JsonV>, default: Option<Seq<char>>) -> Option<Option<Seq<char>>> {
    match f {
        Some(j) => opt_text_of(j),
        None => Some(default),
    }
}

/// An instant field that must be given.
pub open spec fn req_time_field(f: Option<JsonV>) -> Option<Timestamp> {
    match f {
        Some(j) => time_of(j),
        None => None,
    }
}

/// An optional instant field, `default` when it is not given.
pub open spec fn opt_time_field(f: Option<JsonV>, default: Option<Timestamp>) -> Option<Option<Timestamp>> {
    match f {
        Some(j) => opt_time_of(j),
        None => Some(default),
    }
}

/// An object field, `default` when it is not given.
pub open spec fn object_field(f: Option<JsonV>, default: Seq<(Seq<char>, JsonV)>) -> Option<Seq<(Seq<char>, JsonV)>> {
    match f {
        Some(j) => object_of(j),
        None => Some(default),
    }
}

/// A field holding a list of texts, `default` when it is not given.
pub open spec fn texts_field(f: Option<JsonV>, default: Seq<Seq<char>>) -> Option<Seq<Seq<char>>> {
    match f {
        Some(JsonV::Array(a)) => texts_of(a),
        Some(_) => None,
        None => Some(default),
    }
}

/// A field holding a list of links, `default` when it is not given.
pub open spec fn links_field(f: Option<JsonV>, default: Seq<LinkV>) -> Option<Seq<LinkV>> {
    match f {
        Some(JsonV::Array(a)) => links_of(a),
        Some(_) => None,
        None => Some(default),
    }
}

/// A field holding a list of licenses, `default` when it is not given.
pub open spec fn licenses_field(f: Option<JsonV>, default: Seq<LicenseV>) -> Option<Seq<LicenseV>> {
    match f {
        Some(JsonV::Array(a)) => licenses_of(a),
        Some(_) => None,
        None => Some(default),
    }
}

/// A field holding a list of releases, `default` when it is not given.
pub open spec fn releases_field(f: Option<JsonV>, default: Seq<ReleaseV>) -> Option<Seq<ReleaseV>> {
    match f {
        Some(JsonV::Array(a)) => releases_of(a),
        Some(_) => None,
        None => Some(default),
    }
}

/// A field holding a list of link specs, `default` when it is not given.
pub open spec fn link_specs_field(f: Option<JsonV>, default: Seq<LinkSpecV>) -> Option<Seq<LinkSpecV>> {
    match f {
        Some(JsonV::Array(a)) => link_specs_of(a),
        Some(_) => None,
        None => Some(default),
    }
}

/// A [`BaseProduct`] read from its fields, in their order.
pub open spec fn base_from(
    f0: Option<JsonV>,
    f1: Option<JsonV>,
    f2: Option<JsonV>,
    f3: Option<JsonV>,
    f4: Option<JsonV>,
    f5: Option<JsonV>,
    f6: Option<JsonV>,
) -> Option<BaseProductV> {
    match (req_text_field(f0), req_text_field(f1), opt_text_field(f2, None), text_field(f3, "github"@)) {
        (Some(owner), Some(name), Some(logo), Some(service)) => match (
            object_field(f4, Seq::empty()),
            opt_time_field(f5, None),
            link_specs_field(f6, Seq::empty()),
        ) {
            (Some(overrides), Some(last_updated), Some(links)) => Some(
                BaseProductV { owner, name, logo, service, overrides, last_updated, links },
            ),
            _ => None,
        },
        _ => None,
    }
}

/// A [`BaseProduct`] read from an object or from an array of its fields;
/// `service` is `"github"` when it is not given.
pub open spec fn base_of(j: JsonV) -> Option<BaseProductV> {
    match j {
        JsonV::Object(e) => base_from(
            lookup(e, "owner"@),
            lookup(e, "name"@),
            lookup(e, "logo"@),
            lookup(e, "service"@),
            lookup(e, "overrides"@),
            lookup(e, "last_updated"@),
            lookup(e, "links"@),
        ),
        JsonV::Array(a) => if a.len() <= 7 {
            base_from(
                elem(a, 0),
                elem(a, 1),
                elem(a, 2),
                elem(a, 3),
                elem(a, 4),
                elem(a, 5),
                elem(a, 6),
            )
        } else {
            None
        },
        _ => None,
    }
}

/// The entries of an object whose key is not a field of [`Product`].
pub open spec fn non_fields(s: Seq<(Seq<char>, JsonV)>) -> Seq<(Seq<char>, JsonV)>
    decreases s.len(),
{
    if s.len() == 0 {
        s
    } else if !is_product_key(s.last().0) {
        non_fields(s.drop_last()).push(s.last())
    } else {
        non_fields(s.drop_last())
    }
}

/// A [`Product`] read from an object: the keys that are not its fields are
/// kept in `others`.
pub open spec fn product_of(j: JsonV) -> Option<ProductV> {
    match j {
        JsonV::Object(e) => match (
            req_text_field(lookup(e, "owner"@)),
            req_text_field(lookup(e, "name"@)),
            opt_text_field(lookup(e, "description"@), None),
            releases_field(lookup(e, "releases"@), Seq::empty()),
            licenses_field(lookup(e, "license"@), Seq::empty()),
        ) {
            (Some(owner), Some(name), Some(description), Some(releases), Some(license)) => match (
                links_field(lookup(e, "links"@), Seq::empty()),
                texts_field(lookup(e, "languages"@), Seq::empty()),
                texts_field(lookup(e, "topics"@), Seq::empty()),
                object_field(lookup(e, "overrides"@), Seq::empty()),
                opt_time_field(lookup(e, "last_updated"@), None),
            ) {
                (Some(links), Some(languages), Some(topics), Some(overrides), Some(last_updated)) => Some(
                    ProductV {
                        owner,
                        name,
                        description,
                        releases,
                        license,
                        links,
                        languages,
                        topics,
                        overrides,
                        last_updated,
                        others: non_fields(e),
                    },
                ),
                _ => None,
            },
            _ => None,
        },
        _ => None,
    }
}

/// Whether an input entry is a full product: an object with one of the keys
/// that only a full product has. `links` does not tell the two apart, since
/// a base product has it too.
pub open spec fn is_full_product_spec(j: JsonV) -> bool {
    match j {
        JsonV::Object(e) => has_full_product_key(e),
        _ => false,
    }
}

/// Whether one of the entries has a key that only a full product has.
pub open spec fn has_full_product_key(e: Seq<(Seq<char>, JsonV)>) -> bool
    decreases e.len(),
{
    e.len() > 0 && (is_full_product_key(e.last().0) || has_full_product_key(e.drop_last()))
}

/// The value of an optional value.
pub open spec fn opt_view<T: View>(o: Option<T>) -> Option<T::V> {
    match o {
        Some(x) => Some(x@),
        None => None,
    }
}

pub(crate) fn elem_at(a: &Vec<Json>, i: usize) -> (r: Option<&Json>)
    ensures
        opt_json(r) == elem(jsons_view(a@), i as int),
{
    if i < a.len() {
        Some(&a[i])
    } else {
        None
    }
}

pub(crate) fn decode_text(j: &Json) -> (r: Option<String>)
    ensures
        opt_view(r) == text_of(j@),
{
    match j {
        Json::Str(s) => Some(s.clone()),
        _ => None,
    }
}

pub(crate) fn decode_time(j: &Json) -> (r: Option<Timestamp>)
    ensures
        r == time_of(j@),
{
    match j {
        Json::Str(s) => parse_timestamp(s.as_str()),
        _ => None,
    }
}

pub(crate) fn req_text(f: Option<&Json>) -> (r: Option<String>)
    ensures
        opt_view(r) == req_text_field(opt_json(f)),
{
    match f {
        Some(j) => decode_text(j),
        None => None,
    }
}

fn text_or(f: Option<&Json>, default: &str) -> (r: Option<String>)
    ensures
        opt_view(r) == text_field(opt_json(f), default@),
{
    match f {
        Some(j) => decode_text(j),
        None => Some(text(default)),
    }
}

pub(crate) fn opt_text_at(f: Option<&Json>) -> (r: Option<Option<String>>)
    ensures
        match r {
            Some(o) => opt_text_field(opt_json(f), None) == Some(opt_view(o)),
            None => opt_text_field(opt_json(f), None) is None,
        },
{
    match f {
        Some(Json::Null) => Some(None),
        Some(Json::Str(s)) => Some(Some(s.clone())),
        Some(_) => None,
        None => Some(None),
    }
}

pub(crate) fn req_time(f: Option<&Json>) -> (r: Option<Timestamp>)
    ensures
        r == req_time_field(opt_json(f)),
{
    match f {
        Some(j) => decode_time(j),
        None => None,
    }
}

pub(crate) fn opt_time(f: Option<&Json>) -> (r: Option<Option<Timestamp>>)
    ensures
        r == opt_time_field(opt_json(f), None),
{
    match f {
        Some(Json::Null) => Some(None),
        Some(Json::Str(s)) => match parse_timestamp(s.as_str()) {
            Some(t) => Some(Some(t)),
            None => None,
        },
        Some(_) => None,
        None => Some(None),
    }
}

fn object_or_empty(f: Option<&Json>) -> (r: Option<Vec<(String, Json)>>)
    ensures
        match r {
            Some(v) => object_field(opt_json(f), Seq::empty()) == Some(entries_view(v@)),
            None => object_field(opt_json(f), Seq::empty()) is None,
        },
{
    match f {
        Some(Json::Object(e)) => {
            proof {
                lemma_object_view(*e);
            }
            Some(copy_entries(e))
        },
        Some(_) => None,
        None => Some(Vec::new()),
    }
}

fn decode_texts(a: &Vec<Json>) -> (r: Option<Vec<String>>)
    ensures
        match r {
            Some(v) => texts_of(jsons_view(a@)) == Some(texts_view(v@)),
            None => texts_of(jsons_view(a@)) is None,
        },
{
    let mut out: Vec<String> = Vec::new();
    let mut i: usize = 0;
    while i < a.len()
        invariant
            i <= a.len(),
            texts_of(jsons_view(a@).take(i as int)) == Some(texts_view(out@)),
        decreases a.len() - i,
    {
        proof {
            assert(jsons_view(a@).take(i + 1).drop_last() =~= jsons_view(a@).take(i as int));
        }
        match decode_text(&a[i]) {
            Some(x) => {
                let ghost before = out@;
                out.push(x);
                proof {
                    assert(texts_view(out@) =~= texts_view(before).push(x@));
                }
            },
            None => {
                proof {
                    lemma_all_of_prefix(jsons_view(a@), |j: JsonV| text_of(j), i + 1);
                }
                return None;
            },
        }
        i = i + 1;
    }
    assert(jsons_view(a@).take(a.len() as int) =~= jsons_view(a@));
    Some(out)
}

fn link_from_fields(f0: Option<&Json>, f1: Option<&Json>) -> (r: Option<Link>)
    ensures
        opt_view(r) == link_from(opt_json(f0), opt_json(f1)),
{
    let label = match req_text(f0) {
        Some(x) => x,
        None => return None,
    };
    let url = match req_text(f1) {
        Some(x) => x,
        None => return None,
    };
    Some(Link { label, url })
}

fn decode_link(j: &Json) -> (r: Option<Link>)
    ensures
        opt_view(r) == link_of(j@),
{
    match j {
        Json::Object(e) => {
            proof {
                lemma_object_view(*e);
            }
            link_from_fields(get(e, "label"), get(e, "url"))
        },
        Json::Array(a) => {
            proof {
                lemma_array_view(*a);
            }
            if a.len() <= 2 {
                link_from_fields(elem_at(a, 0), elem_at(a, 1))
            } else {
                None
            }
        },
        _ => None,
    }
}

fn license_from_fields(f0: Option<&Json>, f1: Option<&Json>, f2: Option<&Json>) -> (r: Option<License>)
    ensures
        opt_view(r) == license_from(opt_json(f0), opt_json(f1), opt_json(f2)),
{
    let spdx = match req_text(f0) {
        Some(x) => x,
        None => return None,
    };
    let name = match req_text(f1) {
        Some(x) => x,
        None => return None,
    };
    let url = match opt_text_at(f2) {
        Some(x) => x,
        None => return None,
    };
    Some(License { spdx, name, url })
}

fn decode_license(j: &Json) -> (r: Option<License>)
    ensures
        opt_view(r) == license_of(j@),
{
    match j {
        Json::Object(e) => {
            proof {
                lemma_object_view(*e);
            }
            license_from_fields(get(e, "spdx"), get(e, "name"), get(e, "url"))
        },
        Json::Array(a) => {
            proof {
                lemma_array_view(*a);
            }
            if a.len() <= 3 {
                license_from_fields(elem_at(a, 0), elem_at(a, 1), elem_at(a, 2))
            } else {
                None
            }
        },
        _ => None,
    }
}

fn release_from_fields(f0: Option<&Json>, f1: Option<&Json>, f2: Option<&Json>) -> (r: Option<Release>)
    ensures
        opt_view(r) == release_from(opt_json(f0), opt_json(f1), opt_json(f2)),
{
    let name = match req_text(f0) {
        Some(x) => x,
        None => return None,
    };
    let release_date = match req_time(f1) {
        Some(x) => x,
        None => return None,
    };
    proof {
        reveal_strlit("");
        assert(""@ =~= Seq::<char>::empty());
    }
    let description = match text_or(f2, "") {
        Some(x) => x,
        None => return None,
    };
    Some(Release { name, release_date, description })
}

fn decode_release(j: &Json) -> (r: Option<Release>)
    ensures
        opt_view(r) == release_of(j@),
{
    match j {
        Json::Object(e) => {
            proof {
                lemma_object_view(*e);
            }
            release_from_fields(get(e, "name"), get(e, "release_date"), get(e, "description"))
        },
        Json::Array(a) => {
            proof {
                lemma_array_view(*a);
            }
            if a.len() <= 3 {
                release_from_fields(elem_at(a, 0), elem_at(a, 1), elem_at(a, 2))
            } else {
                None
            }
        },
        _ => None,
    }
}

fn decode_link_spec(j: &Json) -> (r: Option<LinkSpec>)
    ensures
        opt_view(r) == link_spec_of(j@),
{
    match j {
        Json::Str(t) => Some(LinkSpec::Type(t.clone())),
        _ => match decode_link(j) {
            Some(l) => Some(LinkSpec::Link(l)),
            None => None,
        },
    }
}

fn decode_links(a: &Vec<Json>) -> (r: Option<Vec<Link>>)
    ensures
        match r {
            Some(v) => links_of(jsons_view(a@)) == Some(links_view(v@)),
            None => links_of(jsons_view(a@)) is None,
        },
{
    let mut out: Vec<Link> = Vec::new();
    let mut i: usize = 0;
    while i < a.len()
        invariant
            i <= a.len(),
            links_of(jsons_view(a@).take(i as int)) == Some(links_view(out@)),
        decreases a.len() - i,
    {
        proof {
            assert(jsons_view(a@).take(i + 1).drop_last() =~= jsons_view(a@).take(i as int));
        }
        match decode_link(&a[i]) {
            Some(x) => {
                let ghost before = out@;
                out.push(x);
                proof {
                    assert(links_view(out@) =~= links_view(before).push(x@));
                }
            },
            None => {
                proof {
                    lemma_all_of_prefix(jsons_view(a@), |j: JsonV| link_of(j), i + 1);
                }
                return None;
            },
        }
        i = i + 1;
    }
    assert(jsons_view(a@).take(a.len() as int) =~= jsons_view(a@));
    Some(out)
}

fn decode_licenses(a: &Vec<Json>) -> (r: Option<Vec<License>>)
    ensures
        match r {
            Some(v) => licenses_of(jsons_view(a@)) == Some(licenses_view(v@)),
            None => licenses_of(jsons_view(a@)) is None,
        },
{
    let mut out: Vec<License> = Vec::new();
    let mut i: usize = 0;
    while i < a.len()
        invariant
            i <= a.len(),
            licenses_of(jsons_view(a@).take(i as int)) == Some(licenses_view(out@)),
        decreases a.len() - i,
    {
        proof {
            assert(jsons_view(a@).take(i + 1).drop_last() =~= jsons_view(a@).take(i as int));
        }
        match decode_license(&a[i]) {
            Some(x) => {
                let ghost before = out@;
                out.push(x);
                proof {
                    assert(licenses_view(out@) =~= licenses_view(before).push(x@));
                }
            },
            None => {
                proof {
                    lemma_all_of_prefix(jsons_view(a@), |j: JsonV| license_of(j), i + 1);
                }
                return None;
            },
        }
        i = i + 1;
    }
    assert(jsons_view(a@).take(a.len() as int) =~= jsons_view(a@));
    Some(out)
}

fn decode_releases(a: &Vec<Json>) -> (r: Option<Vec<Release>>)
    ensures
        match r {
            Some(v) => releases_of(jsons_view(a@)) == Some(releases_view(v@)),
            None => releases_of(jsons_view(a@)) is None,
        },
{
    let mut out: Vec<Release> = Vec::new();
    let mut i: usize = 0;
    while i < a.len()
        invariant
            i <= a.len(),
            releases_of(jsons_view(a@).take(i as int)) == Some(releases_view(out@)),
        decreases a.len() - i,
    {
        proof {
            assert(jsons_view(a@).take(i + 1).drop_last() =~= jsons_view(a@).take(i as int));
        }
        match decode_release(&a[i]) {
            Some(x) => {
                let ghost before = out@;
                out.push(x);
                proof {
                    assert(releases_view(out@) =~= releases_view(before).push(x@));
                }
            },
            None => {
                proof {
                    lemma_all_of_prefix(jsons_view(a@), |j: JsonV| release_of(j), i + 1);
                }
                return None;
            },
        }
        i = i + 1;
    }
    assert(jsons_view(a@).take(a.len() as int) =~= jsons_view(a@));
    Some(out)
}

fn decode_link_specs(a: &Vec<Json>) -> (r: Option<Vec<LinkSpec>>)
    ensures
        match r {
            Some(v) => link_specs_of(jsons_view(a@)) == Some(link_specs_view(v@)),
            None => link_specs_of(jsons_view(a@)) is None,
        },
{
    let mut out: Vec<LinkSpec> = Vec::new();
    let mut i: usize = 0;
    while i < a.len()
        invariant
            i <= a.len(),
            link_specs_of(jsons_view(a@).take(i as int)) == Some(link_specs_view(out@)),
        decreases a.len() - i,
    {
        proof {
            assert(jsons_view(a@).take(i + 1).drop_last() =~= jsons_view(a@).take(i as int));
        }
        match decode_link_spec(&a[i]) {
            Some(x) => {
                let ghost before = out@;
                out.push(x);
                proof {
                    assert(link_specs_view(out@) =~= link_specs_view(before).push(x@));
                }
            },
            None => {
                proof {
                    lemma_all_of_prefix(jsons_view(a@), |j: JsonV| link_spec_of(j), i + 1);
                }
                return None;
            },
        }
        i = i + 1;
    }
    assert(jsons_view(a@).take(a.len() as int) =~= jsons_view(a@));
    Some(out)
}

fn texts_or_empty(f: Option<&Json>) -> (r: Option<Vec<String>>)
    ensures
        match r {
            Some(v) => texts_field(opt_json(f), Seq::empty()) == Some(texts_view(v@)),
            None => texts_field(opt_json(f), Seq::empty()) is None,
        },
{
    match f {
        Some(Json::Array(a)) => {
            proof {
                lemma_array_view(*a);
            }
            decode_texts(a)
        },
        Some(_) => None,
        None => Some(Vec::new()),
    }
}

fn links_or_empty(f: Option<&Json>) -> (r: Option<Vec<Link>>)
    ensures
        match r {
            Some(v) => links_field(opt_json(f), Seq::empty()) == Some(links_view(v@)),
            None => links_field(opt_json(f), Seq::empty()) is None,
        },
{
    match f {
        Some(Json::Array(a)) => {
            proof {
                lemma_array_view(*a);
            }
            decode_links(a)
        },
        Some(_) => None,
        None => Some(Vec::new()),
    }
}

fn licenses_or_empty(f: Option<&Json>) -> (r: Option<Vec<License>>)
    ensures
        match r {
            Some(v) => licenses_field(opt_json(f), Seq::empty()) == Some(licenses_view(v@)),
            None => licenses_field(opt_json(f), Seq::empty()) is None,
        },
{
    match f {
        Some(Json::Array(a)) => {
            proof {
                lemma_array_view(*a);
            }
            decode_licenses(a)
        },
        Some(_) => None,
        None => Some(Vec::new()),
    }
}

fn releases_or_empty(f: Option<&Json>) -> (r: Option<Vec<Release>>)
    ensures
        match r {
            Some(v) => releases_field(opt_json(f), Seq::empty()) == Some(releases_view(v@)),
            None => releases_field(opt_json(f), Seq::empty()) is None,
        },
{
    match f {
        Some(Json::Array(a)) => {
            proof {
                lemma_array_view(*a);
            }
            decode_releases(a)
        },
        Some(_) => None,
        None => Some(Vec::new()),
    }
}

fn link_specs_or_empty(f: Option<&Json>) -> (r: Option<Vec<LinkSpec>>)
    ensures
        match r {
            Some(v) => link_specs_field(opt_json(f), Seq::empty()) == Some(link_specs_view(v@)),
            None => link_specs_field(opt_json(f), Seq::empty()) is None,
        },
{
    match f {
        Some(Json::Array(a)) => {
            proof {
                lemma_array_view(*a);
            }
            decode_link_specs(a)
        },
        Some(_) => None,
        None => Some(Vec::new()),
    }
}

/// The service of a base product that gives none.
fn default_service() -> (r: String)
    ensures
        r@ == "github"@,
{
    text("github")
}

fn base_from_fields(
    f0: Option<&Json>,
    f1: Option<&Json>,
    f2: Option<&Json>,
    f3: Option<&Json>,
    f4: Option<&Json>,
    f5: Option<&Json>,
    f6: Option<&Json>,
) -> (r: Option<BaseProduct>)
    ensures
        opt_view(r) == base_from(
            opt_json(f0),
            opt_json(f1),
            opt_json(f2),
            opt_json(f3),
            opt_json(f4),
            opt_json(f5),
            opt_json(f6),
        ),
{
    let owner = match req_text(f0) {
        Some(x) => x,
        None => return None,
    };
    let name = match req_text(f1) {
        Some(x) => x,
        None => return None,
    };
    let logo = match opt_text_at(f2) {
        Some(x) => x,
        None => return None,
    };
    let dflt = default_service();
    let service = match text_or(f3, dflt.as_str()) {
        Some(x) => x,
        None => return None,
    };
    let overrides = match object_or_empty(f4) {
        Some(x) => x,
        None => return None,
    };
    let last_updated = match opt_time(f5) {
        Some(x) => x,
        None => return None,
    };
    let links = match link_specs_or_empty(f6) {
        Some(x) => x,
        None => return None,
    };
    Some(BaseProduct { owner, name, logo, service, overrides, last_updated, links })
}

/// Reads a [`BaseProduct`] from a JSON value, as deserializing it does.
fn decode_base(j: &Json) -> (r: Option<BaseProduct>)
    ensures
        opt_view(r) == base_of(j@),
{
    match j {
        Json::Object(e) => {
            proof {
                lemma_object_view(*e);
            }
            base_from_fields(
                get(e, "owner"),
                get(e, "name"),
                get(e, "logo"),
                get(e, "service"),
                get(e, "overrides"),
                get(e, "last_updated"),
                get(e, "links"),
            )
        },
        Json::Array(a) => {
            proof {
                lemma_array_view(*a);
            }
            if a.len() <= 7 {
                base_from_fields(
                    elem_at(a, 0),
                    elem_at(a, 1),
                    elem_at(a, 2),
                    elem_at(a, 3),
                    elem_at(a, 4),
                    elem_at(a, 5),
                    elem_at(a, 6),
                )
            } else {
                None
            }
        },
        _ => None,
    }
}

/// The entries whose key is not a field of [`Product`].
fn other_entries(e: &Vec<(String, Json)>) -> (r: Vec<(String, Json)>)
    ensures
        entries_view(r@) == non_fields(entries_view(e@)),
{
    let mut out: Vec<(String, Json)> = Vec::new();
    let mut i: usize = 0;
    while i < e.len()
        invariant
            i <= e.len(),
            entries_view(out@) == non_fields(entries_view(e@.take(i as int))),
        decreases e.len() - i,
    {
        proof {
            assert(entries_view(e@.take(i + 1)).drop_last() =~= entries_view(e@.take(i as int)));
        }
        if !product_key(e[i].0.as_str()) {
            let ghost before = out@;
            let v = e[i].1.copy();
            out.push((e[i].0.clone(), v));
            proof {
                assert(entries_view(out@) =~= entries_view(before).push((e[i as int].0@, e[i as int].1@)));
            }
        }
        i = i + 1;
    }
    assert(e@.take(e.len() as int) =~= e@);
    out
}

/// Reads a [`Product`] from a JSON object, as deserializing it does: the
/// keys that are not its fields go to `others`.
fn decode_product(j: &Json) -> (r: Option<Product>)
    ensures
        opt_view(r) == product_of(j@),
{
    match j {
        Json::Object(e) => {
            proof {
                lemma_object_view(*e);
            }
            let owner = match req_text(get(e, "owner")) {
                Some(x) => x,
                None => return None,
            };
            let name = match req_text(get(e, "name")) {
                Some(x) => x,
                None => return None,
            };
            let description = match opt_text_at(get(e, "description")) {
                Some(x) => x,
                None => return None,
            };
            let releases = match releases_or_empty(get(e, "releases")) {
                Some(x) => x,
                None => return None,
            };
            let license = match licenses_or_empty(get(e, "license")) {
                Some(x) => x,
                None => return None,
            };
            let links = match links_or_empty(get(e, "links")) {
                Some(x) => x,
                None => return None,
            };
            let languages = match texts_or_empty(get(e, "languages")) {
                Some(x) => x,
                None => return None,
            };
            let topics = match texts_or_empty(get(e, "topics")) {
                Some(x) => x,
                None => return None,
            };
            let overrides = match object_or_empty(get(e, "overrides")) {
                Some(x) => x,
                None => return None,
            };
            let last_updated = match opt_time(get(e, "last_updated")) {
                Some(x) => x,
                None => return None,
            };
            let others = other_entries(e);
            Some(
                Product {
                    owner,
                    name,
                    description,
                    releases,
                    license,
                    links,
                    languages,
                    topics,
                    overrides,
                    last_updated,
                    others,
                },
            )
        },
        _ => None,
    }
}

fn full_product_key(k: &str) -> (r: bool)
    ensures
        r == is_full_product_key(k@),
{
    text_eq(k, "url") || text_eq(k, "repository") || text_eq(k, "sbom") || text_eq(
        k,
        "description",
    ) || text_eq(k, "releases") || text_eq(k, "license") || text_eq(k, "languages") || text_eq(
        k,
        "topics",
    )
}

/// Whether an input entry is a full product: an object with a key that only
/// a full product has (`url`, `repository`, `sbom`, `description`,
/// `releases`, `license`, `languages` or `topics`).
fn is_full_product(value: &Json) -> (r: bool)
    ensures
        r == is_full_product_spec(value@),
{
    match value {
        Json::Object(e) => {
            proof {
                lemma_object_view(*e);
            }
            let mut i: usize = 0;
            let mut found = false;
            while i < e.len()
                invariant
                    i <= e.len(),
                    found == has_full_product_key(entries_view(e@.take(i as int))),
                decreases e.len() - i,
            {
                proof {
                    assert(entries_view(e@.take(i + 1)).drop_last() =~= entries_view(e@.take(i as int)));
                }
                if full_product_key(e[i].0.as_str()) {
                    found = true;
                }
                i = i + 1;
            }
            assert(e@.take(e.len() as int) =~= e@);
            found
        },
        _ => false,
    }
}

// ---------- the input list ----------

/// What one entry of the input becomes: a full product when it has a key
/// that only a full product has (unless `force_base`), a base product
/// otherwise; an error when it does not fit that type.
pub open spec fn item_of(j: JsonV, force_base: bool) -> Result<InputItemV, ErrorV> {
    if !force_base && is_full_product_spec(j) {
        match product_of(j) {
            Some(p) => Ok(
                InputItemV::Product(
                    ProductV {
                        owner: p.owner,
                        name: p.name,
                        description: p.description,
                        releases: p.releases,
                        license: p.license,
                        links: p.links,
                        languages: p.languages,
                        topics: p.topics,
                        overrides: p.overrides,
                        last_updated: p.last_updated,
                        others: retained(p.others),
                    },
                ),
            ),
            None => Err(ErrorV::Parse("the entry is not a valid product"@)),
        }
    } else {
        match base_of(j) {
            Some(b) => Ok(InputItemV::Base(b)),
            None => Err(ErrorV::Parse("the entry is not a valid base product"@)),
        }
    }
}

/// The entries that could be read, and the errors of the others, in order.
pub open spec fn items_and_errors(vals: Seq<JsonV>, force_base: bool) -> (
    Seq<InputItemV>,
    Seq<ErrorV>,
)
    decreases vals.len(),
{
    if vals.len() == 0 {
        (Seq::empty(), Seq::empty())
    } else {
        let (items, errs) = items_and_errors(vals.drop_last(), force_base);
        match item_of(vals.last(), force_base) {
            Ok(item) => (items.push(item), errs),
            Err(e) => (items, errs.push(e)),
        }
    }
}

/// What [`items_from_values`] gives for the entries of the input: the items
/// read when no entry fails, or the error(s) of the entries that fail.
pub open spec fn items_of_values(vals: Seq<JsonV>, force_base: bool) -> Result<Seq<InputItemV>, ErrorV> {
    let (items, errs) = items_and_errors(vals, force_base);
    match combined(errs) {
        None => Ok(items),
        Some(e) => Err(e),
    }
}

/// What [`parse_items`] gives for a text: the error of the JSON parser, or
/// what the entries of the array give.
pub open spec fn parse_items_spec(text: Seq<char>, force_base: bool) -> Result<
    Seq<InputItemV>,
    ErrorV,
> {
    match json_array_of_text(text) {
        Err(m) => Err(ErrorV::Parse(m)),
        Ok(vals) => items_of_values(vals, force_base),
    }
}

fn parse_item(value: &Json, force_base: bool) -> (r: Result<InputItem, Error>)
    ensures
        match r {
            Ok(item) => item_of(value@, force_base) == Ok::<InputItemV, ErrorV>(item@),
            Err(e) => item_of(value@, force_base) == Err::<InputItemV, ErrorV>(e@),
        },
{
    if !force_base && is_full_product(value) {
        match decode_product(value) {
            Some(p) => {
                let mut p = p;
                let mut others: Vec<(String, Json)> = Vec::new();
                std::mem::swap(&mut others, &mut p.others);
                p.others = retain_others(others);
                Ok(InputItem::Product(Box::new(p)))
            },
            None => Err(Error::Parse(text("the entry is not a valid product"))),
        }
    } else {
        match decode_base(value) {
            Some(b) => Ok(InputItem::Base(b)),
            None => Err(Error::Parse(text("the entry is not a valid base product"))),
        }
    }
}

/// Reads the entries of the input JSON array, already parsed: each one
/// becomes a full product or a base product, as [`parse_items`] describes,
/// and the errors of the entries that fail are gathered.
pub fn items_from_values(values: &Vec<Json>, force_base: bool) -> (r: Result<Vec<InputItem>, Error>)
    ensures
        match r {
            Ok(v) => items_of_values(jsons_view(values@), force_base) == Ok::<Seq<InputItemV>, ErrorV>(
                items_view(v@),
            ),
            Err(e) => items_of_values(jsons_view(values@), force_base) == Err::<Seq<InputItemV>, ErrorV>(e@),
        },
{
    let mut items: Vec<InputItem> = Vec::new();
    let mut errs: Vec<Error> = Vec::new();
    let mut i: usize = 0;
    while i < values.len()
        invariant
            i <= values.len(),
            items_and_errors(jsons_view(values@).take(i as int), force_base) == (
                items_view(items@),
                errors_view(errs@),
            ),
        decreases values.len() - i,
    {
        proof {
            assert(jsons_view(values@).take(i + 1).drop_last() =~= jsons_view(values@).take(
                i as int,
            ));
        }
        match parse_item(&values[i], force_base) {
            Ok(item) => {
                let ghost before = items@;
                items.push(item);
                proof {
                    assert(items_view(items@) =~= items_view(before).push(item@));
                }
            },
            Err(e) => {
                let ghost before = errs@;
                errs.push(e);
                proof {
                    assert(errors_view(errs@) =~= errors_view(before).push(e@));
                }
            },
        }
        i = i + 1;
    }
    assert(jsons_view(values@).take(values.len() as int) =~= jsons_view(values@));
    Error::from(items, errs)
}

/// Parses the input JSON text into a list of [`InputItem`]s. Each element is
/// recognized as a full [`Product`] when it contains product-specific keys
/// (`url`, `repository`, `sbom`, `releases`, `license`, `languages`, ...),
/// and as a [`BaseProduct`] otherwise. If `force_base` is true, all the
/// elements are parsed as [`BaseProduct`]s.
pub fn parse_items(text: &str, force_base: bool) -> (r: Result<Vec<InputItem>, Error>)
    ensures
        match r {
            Ok(v) => parse_items_spec(text@, force_base) == Ok::<Seq<InputItemV>, ErrorV>(
                items_view(v@),
            ),
            Err(e) => parse_items_spec(text@, force_base) == Err::<Seq<InputItemV>, ErrorV>(e@),
        },
{
    let values = match parse_json_array(text) {
        Ok(v) => v,
        Err(m) => return Err(Error::Parse(m)),
    };
    items_from_values(&values, force_base)
}

// ---------- links ----------

/// `https://{owner}.github.io/{name}`
pub open spec fn url_of(owner: Seq<char>, name: Seq<char>) -> Seq<char> {
    "https://"@ + owner + ".github.io/"@ + name
}

/// `https://github.com/{owner}/{name}`
pub open spec fn repository_of(owner: Seq<char>, name: Seq<char>) -> Seq<char> {
    "https://github.com/"@ + owner + "/"@ + name
}

/// `https://api.github.com/repos/{owner}/{name}/dependency-graph/sbom`
pub open spec fn sbom_of(owner: Seq<char>, name: Seq<char>) -> Seq<char> {
    "https://api.github.com/repos/"@ + owner + "/"@ + name + "/dependency-graph/sbom"@
}

/// The web site derived from the owner and the name of a repository.
pub fn default_url(owner: &str, name: &str) -> (r: String)
    ensures
        r@ == url_of(owner@, name@),
{
    let mut r = text("https://");
    r.append(owner);
    r.append(".github.io/");
    r.append(name);
    r
}

/// The repository URL derived from its owner and its name.
pub fn default_repository(owner: &str, name: &str) -> (r: String)
    ensures
        r@ == repository_of(owner@, name@),
{
    let mut r = text("https://github.com/");
    r.append(owner);
    r.append("/");
    r.append(name);
    r
}

/// The URL of the SBOM of a repository, derived from its owner and its name.
pub fn default_sbom(owner: &str, name: &str) -> (r: String)
    ensures
        r@ == sbom_of(owner@, name@),
{
    let mut r = text("https://api.github.com/repos/");
    r.append(owner);
    r.append("/");
    r.append(name);
    r.append("/dependency-graph/sbom");
    r
}

/// The URLs of the repository fetched from GitHub. They are preferred to the
/// URLs derived from `owner` and `name` when resolving the bare link types.
/// Both are absent when GitHub is not accessed.
pub struct FetchedUrls {
    /// `homepageUrl` of the repository, trimmed, when it is not blank.
    pub www: Option<String>,
    /// `url` of the repository.
    pub repository: Option<String>,
}

/// The URL of a bare link type: `www` and `repository` take the fetched value,
/// falling back to the derived one; `sbom` is always derived; the other types
/// have none.
pub open spec fn derived_url(
    label: Seq<char>,
    owner: Seq<char>,
    name: Seq<char>,
    www: Option<Seq<char>>,
    repository: Option<Seq<char>>,
) -> Option<Seq<char>> {
    if label == "www"@ {
        Some(
            match www {
                Some(u) => u,
                None => url_of(owner, name),
            },
        )
    } else if label == "repository"@ {
        Some(
            match repository {
                Some(u) => u,
                None => repository_of(owner, name),
            },
        )
    } else if label == "sbom"@ {
        Some(sbom_of(owner, name))
    } else {
        None
    }
}

fn derive_link_url(label: &str, owner: &str, name: &str, fetched: &FetchedUrls) -> (r: Option<
    String,
>)
    ensures
        opt_view(r) == derived_url(
            label@,
            owner@,
            name@,
            opt_view(fetched.www),
            opt_view(fetched.repository),
        ),
{
    if text_eq(label, "www") {
        Some(
            match &fetched.www {
                Some(u) => u.clone(),
                None => default_url(owner, name),
            },
        )
    } else if text_eq(label, "repository") {
        Some(
            match &fetched.repository {
                Some(u) => u.clone(),
                None => default_repository(owner, name),
            },
        )
    } else if text_eq(label, "sbom") {
        Some(default_sbom(owner, name))
    } else {
        None
    }
}

/// The link that a link spec resolves to: a link given with its URL is kept,
/// a bare type gets its derived URL, and a type without one is dropped.
pub open spec fn resolve_one(
    spec: LinkSpecV,
    owner: Seq<char>,
    name: Seq<char>,
    www: Option<Seq<char>>,
    repository: Option<Seq<char>>,
) -> Option<LinkV> {
    match spec {
        LinkSpecV::Link(l) => Some(l),
        LinkSpecV::Type(label) => match derived_url(label, owner, name, www, repository) {
            Some(url) => Some(LinkV { label, url }),
            None => None,
        },
    }
}

/// The links that the link specs resolve to, in order.
pub open spec fn resolved(
    specs: Seq<LinkSpecV>,
    owner: Seq<char>,
    name: Seq<char>,
    www: Option<Seq<char>>,
    repository: Option<Seq<char>>,
) -> Seq<LinkV>
    decreases specs.len(),
{
    if specs.len() == 0 {
        Seq::empty()
    } else {
        let rest = resolved(specs.drop_last(), owner, name, www, repository);
        match resolve_one(specs.last(), owner, name, www, repository) {
            Some(l) => rest.push(l),
            None => rest,
        }
    }
}

fn copy_link(l: &Link) -> (r: Link)
    ensures
        r@ == l@,
{
    Link { label: l.label.clone(), url: l.url.clone() }
}

fn copy_link_spec(s: &LinkSpec) -> (r: LinkSpec)
    ensures
        r@ == s@,
{
    match s {
        LinkSpec::Type(t) => LinkSpec::Type(t.clone()),
        LinkSpec::Link(l) => LinkSpec::Link(copy_link(l)),
    }
}

/// Resolves the bare link types into concrete [`Link`]s, keeping the links
/// given with their own URL as they are. The types that cannot be derived
/// (`logo`, `docs`, `registry`, `container`) are dropped.
fn resolve_links(specs: &Vec<LinkSpec>, owner: &str, name: &str, fetched: &FetchedUrls) -> (r: Vec<
    Link,
>)
    ensures
        links_view(r@) == resolved(
            link_specs_view(specs@),
            owner@,
            name@,
            opt_view(fetched.www),
            opt_view(fetched.repository),
        ),
{
    let ghost www = opt_view(fetched.www);
    let ghost repo = opt_view(fetched.repository);
    let mut out: Vec<Link> = Vec::new();
    let mut i: usize = 0;
    while i < specs.len()
        invariant
            i <= specs.len(),
            www == opt_view(fetched.www),
            repo == opt_view(fetched.repository),
            links_view(out@) == resolved(
                link_specs_view(specs@).take(i as int),
                owner@,
                name@,
                www,
                repo,
            ),
        decreases specs.len() - i,
    {
        proof {
            assert(link_specs_view(specs@).take(i + 1).drop_last() =~= link_specs_view(
                specs@,
            ).take(i as int));
        }
        let ghost before = out@;
        match &specs[i] {
            LinkSpec::Link(l) => {
                out.push(copy_link(l));
                proof {
                    assert(links_view(out@) =~= links_view(before).push(l@));
                }
            },
            LinkSpec::Type(label) => {
                match derive_link_url(label.as_str(), owner, name, fetched) {
                    Some(url) => {
                        let ghost u = url@;
                        out.push(Link { label: label.clone(), url });
                        proof {
                            assert(links_view(out@) =~= links_view(before).push(
                                LinkV { label: label@, url: u },
                            ));
                        }
                    },
                    None => {},
                }
            },
        }
        i = i + 1;
    }
    assert(link_specs_view(specs@).take(specs.len() as int) =~= link_specs_view(specs@));
    out
}

/// Whether a link spec is a `logo` one.
pub open spec fn is_logo(spec: LinkSpecV) -> bool {
    match spec {
        LinkSpecV::Link(l) => l.label == "logo"@,
        LinkSpecV::Type(t) => t == "logo"@,
    }
}

/// Whether the links already have a `logo`.
pub open spec fn has_logo(links: Seq<LinkSpecV>) -> bool
    decreases links.len(),
{
    links.len() > 0 && (is_logo(links.last()) || has_logo(links.drop_last()))
}

/// The link specs of a base product: its `logo` key becomes a first `logo`
/// link, unless the links already have one.
pub open spec fn with_logo(logo: Option<Seq<char>>, links: Seq<LinkSpecV>) -> Seq<LinkSpecV> {
    match logo {
        Some(url) => if !has_logo(links) {
            seq![LinkSpecV::Link(LinkV { label: "logo"@, url })] + links
        } else {
            links
        },
        None => links,
    }
}

/// Builds the link specs of a base product, turning its `logo` key into a
/// `logo` link. The key is ignored when the links already have their own.
fn link_specs(logo: &Option<String>, links: &Vec<LinkSpec>) -> (r: Vec<LinkSpec>)
    ensures
        link_specs_view(r@) == with_logo(opt_view(*logo), link_specs_view(links@)),
{
    let mut found_logo = false;
    let mut i: usize = 0;
    while i < links.len()
        invariant
            i <= links.len(),
            found_logo == has_logo(link_specs_view(links@).take(i as int)),
        decreases links.len() - i,
    {
        proof {
            assert(link_specs_view(links@).take(i + 1).drop_last() =~= link_specs_view(
                links@,
            ).take(i as int));
        }
        let this = match &links[i] {
            LinkSpec::Link(l) => text_eq(l.label.as_str(), "logo"),
            LinkSpec::Type(t) => text_eq(t.as_str(), "logo"),
        };
        if this {
            found_logo = true;
        }
        i = i + 1;
    }
    proof {
        assert(link_specs_view(links@).take(links.len() as int) =~= link_specs_view(links@));
    }
    let mut out: Vec<LinkSpec> = Vec::new();
    match logo {
        Some(url) => {
            if !found_logo {
                out.push(LinkSpec::Link(Link { label: text("logo"), url: url.clone() }));
            }
        },
        None => {},
    }
    let ghost head = link_specs_view(out@);
    let mut k: usize = 0;
    while k < links.len()
        invariant
            k <= links.len(),
            link_specs_view(out@) == head + link_specs_view(links@).take(k as int),
        decreases links.len() - k,
    {
        let ghost before = out@;
        out.push(copy_link_spec(&links[k]));
        proof {
            assert(link_specs_view(out@) =~= link_specs_view(before).push(links@[k as int]@));
            assert(link_specs_view(links@).take(k + 1) =~= link_specs_view(links@).take(
                k as int,
            ).push(links@[k as int]@));
        }
        k = k + 1;
    }
    proof {
        assert(link_specs_view(links@).take(links.len() as int) =~= link_specs_view(links@));
        assert(head + link_specs_view(links@) =~= with_logo(
            opt_view(*logo),
            link_specs_view(links@),
        ));
    }
    out
}

// ---------- overrides ----------

/// The entries of `overrides` that may be applied: all but `overrides`,
/// `owner` and `name`.
pub open spec fn unprotected(s: Seq<(Seq<char>, JsonV)>) -> Seq<(Seq<char>, JsonV)>
    decreases s.len(),
{
    if s.len() == 0 {
        s
    } else if !is_protected_key(s.last().0) {
        unprotected(s.drop_last()).push(s.last())
    } else {
        unprotected(s.drop_last())
    }
}

/// The product with each field given by `patch` read from its value, the
/// fields that `patch` does not give unchanged, and the other keys of
/// `patch` as `others`; nothing when a value does not fit its field.
pub open spec fn patched(p: ProductV, patch: Seq<(Seq<char>, JsonV)>) -> Option<ProductV> {
    match (
        text_field(lookup(patch, "owner"@), p.owner),
        text_field(lookup(patch, "name"@), p.name),
        opt_text_field(lookup(patch, "description"@), p.description),
        releases_field(lookup(patch, "releases"@), p.releases),
        licenses_field(lookup(patch, "license"@), p.license),
    ) {
        (Some(owner), Some(name), Some(description), Some(releases), Some(license)) => match (
            links_field(lookup(patch, "links"@), p.links),
            texts_field(lookup(patch, "languages"@), p.languages),
            texts_field(lookup(patch, "topics"@), p.topics),
            object_field(lookup(patch, "overrides"@), p.overrides),
            opt_time_field(lookup(patch, "last_updated"@), p.last_updated),
        ) {
            (Some(links), Some(languages), Some(topics), Some(overrides), Some(last_updated)) => Some(
                ProductV {
                    owner,
                    name,
                    description,
                    releases,
                    license,
                    links,
                    languages,
                    topics,
                    overrides,
                    last_updated,
                    others: retained(patch),
                },
            ),
            _ => None,
        },
        _ => None,
    }
}

/// What applying `overrides` makes of a product. The product written as a
/// JSON object holds its fields and then its `others`; the `overrides`
/// entries, but for the protected keys, are put over it; it is read back as
/// a product, whose `others` then lose the field and the retired keys. When
/// a value does not fit its field, the product is left untouched; so it is
/// when `overrides` is empty.
pub open spec fn overridden(p: ProductV) -> ProductV {
    if p.overrides.len() == 0 {
        p
    } else {
        match patched(p, p.others + unprotected(p.overrides)) {
            Some(q) => q,
            None => p,
        }
    }
}

/// Overwrites the fields of the given product with the values in its
/// `overrides` map. The keys identifying the repository (`owner`, `name`)
/// and the `overrides` key itself are not overridable. When a value does not
/// fit the field type, the product is left untouched.
pub fn apply_overrides(product: Product) -> (r: Product)
    ensures
        r@ == overridden(product@),
{
    if product.overrides.len() == 0 {
        return product;
    }
    let mut patch = copy_entries(&product.others);
    let ghost head = entries_view(patch@);
    let mut i: usize = 0;
    while i < product.overrides.len()
        invariant
            i <= product.overrides.len(),
            head == entries_view(product.others@),
            entries_view(patch@) == head + unprotected(entries_view(product.overrides@).take(i as int)),
        decreases product.overrides.len() - i,
    {
        proof {
            assert(entries_view(product.overrides@).take(i + 1).drop_last() =~= entries_view(
                product.overrides@,
            ).take(i as int));
        }
        if !protected_key(product.overrides[i].0.as_str()) {
            let ghost before = patch@;
            let v = product.overrides[i].1.copy();
            patch.push((product.overrides[i].0.clone(), v));
            proof {
                assert(entries_view(patch@) =~= entries_view(before).push(
                    (product.overrides@[i as int].0@, product.overrides@[i as int].1@),
                ));
            }
        }
        i = i + 1;
    }
    proof {
        assert(entries_view(product.overrides@).take(product.overrides.len() as int) =~= entries_view(
            product.overrides@,
        ));
    }
    let ghost pv = product@;
    let ghost pt = entries_view(patch@);
    assert(pt == pv.others + unprotected(pv.overrides));
    let owner = match get(&patch, "owner") {
        None => None,
        Some(j) => match decode_text(j) {
            Some(x) => Some(x),
            None => return product,
        },
    };
    let name = match get(&patch, "name") {
        None => None,
        Some(j) => match decode_text(j) {
            Some(x) => Some(x),
            None => return product,
        },
    };
    let description = match get(&patch, "description") {
        None => None,
        Some(j) => match opt_text_at(Some(j)) {
            Some(x) => Some(x),
            None => return product,
        },
    };
    let releases = match get(&patch, "releases") {
        None => None,
        Some(j) => match releases_or_empty(Some(j)) {
            Some(x) => Some(x),
            None => return product,
        },
    };
    let license = match get(&patch, "license") {
        None => None,
        Some(j) => match licenses_or_empty(Some(j)) {
            Some(x) => Some(x),
            None => return product,
        },
    };
    let links = match get(&patch, "links") {
        None => None,
        Some(j) => match links_or_empty(Some(j)) {
            Some(x) => Some(x),
            None => return product,
        },
    };
    let languages = match get(&patch, "languages") {
        None => None,
        Some(j) => match texts_or_empty(Some(j)) {
            Some(x) => Some(x),
            None => return product,
        },
    };
    let topics = match get(&patch, "topics") {
        None => None,
        Some(j) => match texts_or_empty(Some(j)) {
            Some(x) => Some(x),
            None => return product,
        },
    };
    let overrides = match get(&patch, "overrides") {
        None => None,
        Some(j) => match object_or_empty(Some(j)) {
            Some(x) => Some(x),
            None => return product,
        },
    };
    let last_updated = match get(&patch, "last_updated") {
        None => None,
        Some(j) => match opt_time(Some(j)) {
            Some(x) => Some(x),
            None => return product,
        },
    };
    let others = retain_others(patch);
    let mut p = product;
    if let Some(x) = owner {
        p.owner = x;
    }
    if let Some(x) = name {
        p.name = x;
    }
    if let Some(x) = description {
        p.description = x;
    }
    if let Some(x) = releases {
        p.releases = x;
    }
    if let Some(x) = license {
        p.license = x;
    }
    if let Some(x) = links {
        p.links = x;
    }
    if let Some(x) = languages {
        p.languages = x;
    }
    if let Some(x) = topics {
        p.topics = x;
    }
    if let Some(x) = overrides {
        p.overrides = x;
    }
    if let Some(x) = last_updated {
        p.last_updated = x;
    }
    p.others = others;
    p
}

// ---------- products ----------

/// The product that a base product stands for before `overrides` are
/// applied: no description, releases, licenses, languages nor topics, and
/// the links resolved without what GitHub would report.
pub open spec fn base_product_spec(b: BaseProductV) -> ProductV {
    ProductV {
        owner: b.owner,
        name: b.name,
        description: None,
        releases: Seq::empty(),
        license: Seq::empty(),
        links: resolved(with_logo(b.logo, b.links), b.owner, b.name, None, None),
        languages: Seq::empty(),
        topics: Seq::empty(),
        overrides: b.overrides,
        last_updated: b.last_updated,
        others: Seq::empty(),
    }
}

impl BaseProduct {
    /// Builds a [`Product`] filled with the default values, without
    /// accessing GitHub, then applies `overrides`.
    pub fn to_product(&self) -> (r: Product)
        ensures
            r@ == overridden(base_product_spec(self@)),
    {
        let fetched = FetchedUrls { www: None, repository: None };
        let specs = link_specs(&self.logo, &self.links);
        let links = resolve_links(&specs, self.owner.as_str(), self.name.as_str(), &fetched);
        let product = Product {
            owner: self.owner.clone(),
            name: self.name.clone(),
            description: None,
            releases: Vec::new(),
            license: Vec::new(),
            links,
            languages: Vec::new(),
            topics: Vec::new(),
            overrides: copy_entries(&self.overrides),
            last_updated: self.last_updated,
            others: Vec::new(),
        };
        proof {
            assert(releases_view(product.releases@) =~= Seq::empty());
            assert(licenses_view(product.license@) =~= Seq::empty());
            assert(texts_view(product.languages@) =~= Seq::empty());
            assert(texts_view(product.topics@) =~= Seq::empty());
            assert(entries_view(product.others@) =~= Seq::empty());
            assert(product@ == base_product_spec(self@));
        }
        apply_overrides(product)
    }
}

/// The web site that GitHub reports: `homepageUrl` trimmed, unless it is
/// blank.
pub open spec fn fetched_www(d: RepoDetail) -> Option<Seq<char>> {
    match d.homepage_url {
        Some(u) => if trim_spec(u@).len() == 0 {
            None
        } else {
            Some(trim_spec(u@))
        },
        None => None,
    }
}

impl FetchedUrls {
    /// The URLs that GitHub reports for a repository.
    pub fn of(detail: &RepoDetail) -> (r: FetchedUrls)
        ensures
            opt_view(r.www) == fetched_www(*detail),
            opt_view(r.repository) == Some(detail.url@),
    {
        let www = match &detail.homepage_url {
            Some(u) => {
                let t = trim(u.as_str());
                if t.as_str().is_empty() {
                    None
                } else {
                    Some(t)
                }
            },
            None => None,
        };
        FetchedUrls { www, repository: Some(detail.url.clone()) }
    }
}

/// The name of the latest release: its name unless that is blank, its tag
/// otherwise.
pub open spec fn release_name(r: ReleaseNode) -> Seq<char> {
    match r.name {
        Some(n) => if !is_blank(n@) {
            n@
        } else {
            r.tag_name@
        },
        None => r.tag_name@,
    }
}

/// Whether one of the releases has the name.
pub open spec fn has_release_named(rs: Seq<ReleaseV>, n: Seq<char>) -> bool
    decreases rs.len(),
{
    rs.len() > 0 && (rs.last().name == n || has_release_named(rs.drop_last(), n))
}

/// The known releases, with the latest release that GitHub reports added at
/// the end when it is not a draft and no known release has its name.
pub open spec fn with_latest(rs: Seq<ReleaseV>, latest: Option<ReleaseNode>) -> Seq<ReleaseV> {
    match latest {
        Some(r) => if !r.is_draft && !has_release_named(rs, release_name(r)) {
            rs.push(
                ReleaseV {
                    name: release_name(r),
                    release_date: match r.published_at {
                        Some(t) => t,
                        None => r.created_at,
                    },
                    description: match r.description {
                        Some(d) => d@,
                        None => Seq::empty(),
                    },
                },
            )
        } else {
            rs
        },
        None => rs,
    }
}

/// `x` put into the releases `sorted` before the first one that is strictly
/// older than it.
pub open spec fn insert_desc(sorted: Seq<ReleaseV>, x: ReleaseV) -> Seq<ReleaseV>
    decreases sorted.len(),
{
    if sorted.len() == 0 {
        seq![x]
    } else if before(sorted[0].release_date, x.release_date) {
        seq![x] + sorted
    } else {
        seq![sorted[0]] + insert_desc(sorted.drop_first(), x)
    }
}

/// The releases sorted from the newest to the oldest; the releases of the
/// same date keep their order (a stable sort).
pub open spec fn sort_desc(s: Seq<ReleaseV>) -> Seq<ReleaseV>
    decreases s.len(),
{
    if s.len() == 0 {
        s
    } else {
        insert_desc(sort_desc(s.drop_last()), s.last())
    }
}

/// The license that GitHub reports, `unknown` standing for a missing SPDX id.
pub open spec fn license_list(d: RepoDetail) -> Seq<LicenseV> {
    match d.license_info {
        Some(l) => seq![
            LicenseV {
                spdx: match l.spdx {
                    Some(s) => s@,
                    None => "unknown"@,
                },
                name: l.name@,
                url: opt_view(l.url),
            },
        ],
        None => Seq::empty(),
    }
}

/// The names of the languages that GitHub reports.
pub open spec fn language_list(d: RepoDetail) -> Seq<Seq<char>> {
    match d.languages {
        Some(l) => Seq::new(l.nodes.len() as nat, |i: int| l.nodes@[i].name@),
        None => Seq::empty(),
    }
}

/// The names of the topics that GitHub reports.
pub open spec fn topic_list(d: RepoDetail) -> Seq<Seq<char>> {
    match d.topics {
        Some(t) => Seq::new(t.nodes.len() as nat, |i: int| t.nodes@[i].topic.name@),
        None => Seq::empty(),
    }
}

/// The product built from the detail of its repository, before `overrides`
/// are applied: `last_updated` is the one given, else the time of the last
/// push, else `now`.
pub open spec fn fetched_product(
    d: RepoDetail,
    logo: Option<Seq<char>>,
    overrides: Seq<(Seq<char>, JsonV)>,
    others: Seq<(Seq<char>, JsonV)>,
    releases: Seq<ReleaseV>,
    last_updated: Option<Timestamp>,
    links: Seq<LinkSpecV>,
    now: Timestamp,
) -> ProductV {
    ProductV {
        owner: d.owner.login@,
        name: d.name@,
        description: opt_view(d.description),
        releases: sort_desc(with_latest(releases, d.latest_release)),
        license: license_list(d),
        links: resolved(with_logo(logo, links), d.owner.login@, d.name@, fetched_www(d), Some(d.url@)),
        languages: language_list(d),
        topics: topic_list(d),
        overrides,
        last_updated: Some(
            match last_updated {
                Some(t) => t,
                None => match d.last_modified_at {
                    Some(t) => t,
                    None => now,
                },
            },
        ),
        others,
    }
}

fn latest_release_name(r: &ReleaseNode) -> (n: String)
    ensures
        n@ == release_name(*r),
{
    match &r.name {
        Some(n) => if !is_blank_text(n.as_str()) {
            n.clone()
        } else {
            r.tag_name.clone()
        },
        None => r.tag_name.clone(),
    }
}

fn add_latest(releases: Vec<Release>, latest: &Option<ReleaseNode>) -> (r: Vec<Release>)
    ensures
        releases_view(r@) == with_latest(releases_view(releases@), *latest),
{
    let mut releases = releases;
    match latest {
        Some(r) => {
            if !r.is_draft {
                let n = latest_release_name(r);
                let mut known = false;
                let mut i: usize = 0;
                while i < releases.len()
                    invariant
                        i <= releases.len(),
                        known == has_release_named(releases_view(releases@).take(i as int), n@),
                    decreases releases.len() - i,
                {
                    proof {
                        assert(releases_view(releases@).take(i + 1).drop_last() =~= releases_view(
                            releases@,
                        ).take(i as int));
                    }
                    if releases[i].name == n {
                        known = true;
                    }
                    i = i + 1;
                }
                proof {
                    assert(releases_view(releases@).take(releases.len() as int) =~= releases_view(
                        releases@,
                    ));
                }
                if !known {
                    let release_date = match r.published_at {
                        Some(t) => t,
                        None => r.created_at,
                    };
                    let description = match &r.description {
                        Some(d) => d.clone(),
                        None => String::new(),
                    };
                    let ghost before = releases@;
                    releases.push(Release { name: n, release_date, description });
                    proof {
                        assert(releases_view(releases@) =~= releases_view(before).push(
                            releases@.last()@,
                        ));
                    }
                }
            }
            releases
        },
        None => releases,
    }
}

proof fn lemma_insert_desc_at(sorted: Seq<ReleaseV>, x: ReleaseV, k: int)
    requires
        0 <= k <= sorted.len(),
        forall|j: int| 0 <= j < k ==> !before(#[trigger] sorted[j].release_date, x.release_date),
        k < sorted.len() ==> before(sorted[k].release_date, x.release_date),
    ensures
        insert_desc(sorted, x) == sorted.take(k) + seq![x] + sorted.skip(k),
    decreases k,
{
    if k == 0 {
        assert(sorted.take(0) + seq![x] + sorted.skip(0) =~= seq![x] + sorted);
    } else {
        let rest = sorted.drop_first();
        assert forall|j: int| 0 <= j < k - 1 implies !before(
            #[trigger] rest[j].release_date,
            x.release_date,
        ) by {
            assert(rest[j] == sorted[j + 1]);
        }
        lemma_insert_desc_at(rest, x, k - 1);
        assert(!before(sorted[0].release_date, x.release_date));
        assert(seq![sorted[0]] + (rest.take(k - 1) + seq![x] + rest.skip(k - 1)) =~= sorted.take(k)
            + seq![x] + sorted.skip(k));
    }
}

/// The releases sorted from the newest to the oldest, as
/// `sort_by_key(|r| Reverse(r.release_date))` sorts them (stable).
fn sort_releases(releases: Vec<Release>) -> (r: Vec<Release>)
    ensures
        releases_view(r@) == sort_desc(releases_view(releases@)),
{
    let ghost src = releases@;
    let mut out: Vec<Release> = Vec::new();
    for x in it: releases.into_iter()
        invariant
            it.seq() == src,
            releases_view(out@) == sort_desc(releases_view(src.take(it.index() as int))),
    {
        let ghost i = it.index() as int;
        let mut k: usize = 0;
        while k < out.len() && x.release_date.not_after(&out[k].release_date)
            invariant
                k <= out.len(),
                forall|j: int| 0 <= j < k ==> !before(#[trigger] out@[j].release_date, x.release_date),
            decreases out.len() - k,
        {
            k = k + 1;
        }
        let ghost old_out = releases_view(out@);
        proof {
            assert forall|j: int| 0 <= j < k implies !before(
                #[trigger] old_out[j].release_date,
                x@.release_date,
            ) by {
                assert(old_out[j] == out@[j]@);
            }
            if k < out.len() {
                assert(old_out[k as int] == out@[k as int]@);
            }
            lemma_insert_desc_at(old_out, x@, k as int);
        }
        let ghost xv = x@;
        out.insert(k, x);
        proof {
            assert(releases_view(out@) =~= old_out.take(k as int) + seq![xv] + old_out.skip(k as int));
            assert(releases_view(src.take(i + 1)).drop_last() =~= releases_view(src.take(i)));
            assert(releases_view(src.take(i + 1)).last() == xv);
        }
    }
    proof {
        assert(src.take(src.len() as int) =~= src);
    }
    out
}

fn license_list_of(d: &RepoDetail) -> (r: Vec<License>)
    ensures
        licenses_view(r@) == license_list(*d),
{
    let mut out: Vec<License> = Vec::new();
    match &d.license_info {
        Some(l) => {
            let spdx = match &l.spdx {
                Some(s) => s.clone(),
                None => text("unknown"),
            };
            let url = match &l.url {
                Some(u) => Some(u.clone()),
                None => None,
            };
            out.push(License { spdx, name: l.name.clone(), url });
            proof {
                assert(licenses_view(out@) =~= license_list(*d));
            }
        },
        None => {
            proof {
                assert(licenses_view(out@) =~= license_list(*d));
            }
        },
    }
    out
}

fn language_list_of(d: &RepoDetail) -> (r: Vec<String>)
    ensures
        texts_view(r@) == language_list(*d),
{
    let mut out: Vec<String> = Vec::new();
    match &d.languages {
        Some(l) => {
            let mut i: usize = 0;
            while i < l.nodes.len()
                invariant
                    i <= l.nodes.len(),
                    out.len() == i,
                    forall|k: int| 0 <= k < i ==> (#[trigger] out@[k])@ == l.nodes@[k].name@,
                decreases l.nodes.len() - i,
            {
                out.push(l.nodes[i].name.clone());
                i = i + 1;
            }
            proof {
                assert(texts_view(out@) =~= language_list(*d));
            }
        },
        None => {
            proof {
                assert(texts_view(out@) =~= language_list(*d));
            }
        },
    }
    out
}

fn topic_list_of(d: &RepoDetail) -> (r: Vec<String>)
    ensures
        texts_view(r@) == topic_list(*d),
{
    let mut out: Vec<String> = Vec::new();
    match &d.topics {
        Some(t) => {
            let mut i: usize = 0;
            while i < t.nodes.len()
                invariant
                    i <= t.nodes.len(),
                    out.len() == i,
                    forall|k: int| 0 <= k < i ==> (#[trigger] out@[k])@ == t.nodes@[k].topic.name@,
                decreases t.nodes.len() - i,
            {
                out.push(t.nodes[i].topic.name.clone());
                i = i + 1;
            }
            proof {
                assert(texts_view(out@) =~= topic_list(*d));
            }
        },
        None => {
            proof {
                assert(texts_view(out@) =~= topic_list(*d));
            }
        },
    }
    out
}

/// Builds a [`Product`] from the repository detail obtained from GitHub,
/// keeping the information (links, overrides, known releases, and extra
/// keys) of the previous product or the base product, then applies
/// `overrides` on the fetched values. `now` stands for `last_updated` when
/// neither the given one nor the time of the last push is known.
pub fn build_product_at(
    detail: RepoDetail,
    logo: Option<String>,
    overrides: Vec<(String, Json)>,
    others: Vec<(String, Json)>,
    releases: Vec<Release>,
    last_updated: Option<Timestamp>,
    links: &Vec<LinkSpec>,
    now: Timestamp,
) -> (r: Product)
    ensures
        r@ == overridden(
            fetched_product(
                detail,
                opt_view(logo),
                entries_view(overrides@),
                entries_view(others@),
                releases_view(releases@),
                last_updated,
                link_specs_view(links@),
                now,
            ),
        ),
{
    let fetched = FetchedUrls::of(&detail);
    let owner = detail.owner.login.clone();
    let name = detail.name.clone();
    let releases = add_latest(releases, &detail.latest_release);
    let releases = sort_releases(releases);
    let license = license_list_of(&detail);
    let languages = language_list_of(&detail);
    let topics = topic_list_of(&detail);
    let last_updated = match last_updated {
        Some(t) => Some(t),
        None => match detail.last_modified_at {
            Some(t) => Some(t),
            None => Some(now),
        },
    };
    let specs = link_specs(&logo, links);
    let links = resolve_links(&specs, owner.as_str(), name.as_str(), &fetched);
    let description = match &detail.description {
        Some(d) => Some(d.clone()),
        None => None,
    };
    let product = Product {
        owner,
        name,
        description,
        releases,
        license,
        links,
        languages,
        topics,
        overrides,
        last_updated,
        others,
    };
    apply_overrides(product)
}

/// Builds a [`Product`] from the repository detail obtained from GitHub, as
/// [`build_product_at`] does, with the current time standing for
/// `last_updated` when neither the given one nor the time of the last push is
/// known; the clock is read only then.
pub fn build_product(
    detail: RepoDetail,
    logo: Option<String>,
    overrides: Vec<(String, Json)>,
    others: Vec<(String, Json)>,
    releases: Vec<Release>,
    last_updated: Option<Timestamp>,
    links: &Vec<LinkSpec>,
) -> (r: Product)
    ensures
        exists|t: Timestamp|
            r@ == overridden(
                #[trigger] fetched_product(
                    detail,
                    opt_view(logo),
                    entries_view(overrides@),
                    entries_view(others@),
                    releases_view(releases@),
                    last_updated,
                    link_specs_view(links@),
                    t,
                ),
            ),
        last_updated is Some || detail.last_modified_at is Some ==> forall|t: Timestamp|
            r@ == overridden(
                #[trigger] fetched_product(
                    detail,
                    opt_view(logo),
                    entries_view(overrides@),
                    entries_view(others@),
                    releases_view(releases@),
                    last_updated,
                    link_specs_view(links@),
                    t,
                ),
            ),
{
    let t = match last_updated {
        Some(x) => x,
        None => match detail.last_modified_at {
            Some(x) => x,
            None => now(),
        },
    };
    build_product_at(detail, logo, overrides, others, releases, last_updated, links, t)
}

} // verus!
