//! What GitHub reports of a repository, and the embedded GraphQL queries.

use vstd::prelude::*;
use vstd::string::*;

use crate::json::{
    get, json_array_of_text, json_value_of_text, jsons_view, lemma_array_view, lemma_object_view,
    lookup, parse_json_array, parse_json_value, Json, JsonV,
};
use crate::product::{
    all_of, elem, elem_at, lemma_all_of_prefix, opt_json, opt_text_at, opt_text_field, opt_text_of,
    opt_time, opt_time_field, opt_view, req_text, req_text_field, req_time, req_time_field,
};
use crate::text::{decimal, decimal_of, text};
use crate::time::Timestamp;
use crate::{Error, ErrorV};

verus! {

/// `owner` of a repository.
#[derive(Debug)]
pub struct OwnerNode {
    pub login: String,
}

/// A node that only has a name (a language, a topic).
#[derive(Debug)]
pub struct NameNode {
    pub name: String,
}

/// `licenseInfo` of a repository.
#[derive(Debug)]
pub struct LicenseNode {
    pub spdx: Option<String>,
    pub name: String,
    pub url: Option<String>,
}

/// `languages` of a repository.
#[derive(Debug)]
pub struct LanguagesNode {
    pub nodes: Vec<NameNode>,
}

/// `latestRelease` of a repository.
#[derive(Debug)]
pub struct ReleaseNode {
    pub name: Option<String>,
    pub tag_name: String,
    pub description: Option<String>,
    pub is_draft: bool,
    pub created_at: Timestamp,
    pub published_at: Option<Timestamp>,
}

/// `repositoryTopics` of a repository.
#[derive(Debug)]
pub struct TopicsNode {
    pub nodes: Vec<TopicNode>,
}

/// An element of `repositoryTopics`.
#[derive(Debug)]
pub struct TopicNode {
    pub topic: NameNode,
}

/// The repository detail obtained by `queries/products.graphql`.
#[derive(Debug)]
pub struct RepoDetail {
    pub name: String,
    pub owner: OwnerNode,
    pub description: Option<String>,
    pub homepage_url: Option<String>,
    pub url: String,
    pub created_at: Timestamp,
    /// `pushedAt` of the repository (aliased to `lastModifiedAt` in the query).
    pub last_modified_at: Option<Timestamp>,
    pub is_archived: bool,
    pub license_info: Option<LicenseNode>,
    pub languages: Option<LanguagesNode>,
    pub latest_release: Option<ReleaseNode>,
    pub topics: Option<TopicsNode>,
}

/// The value of a [`LicenseNode`].
pub struct LicenseNodeV {
    pub spdx: Option<Seq<char>>,
    pub name: Seq<char>,
    pub url: Option<Seq<char>>,
}

/// The value of a [`ReleaseNode`].
pub struct ReleaseNodeV {
    pub name: Option<Seq<char>>,
    pub tag_name: Seq<char>,
    pub description: Option<Seq<char>>,
    pub is_draft: bool,
    pub created_at: Timestamp,
    pub published_at: Option<Timestamp>,
}

/// The value of a [`RepoDetail`]: the owner by its login, the languages and
/// the topics by their names.
pub struct RepoDetailV {
    pub name: Seq<char>,
    pub owner: Seq<char>,
    pub description: Option<Seq<char>>,
    pub homepage_url: Option<Seq<char>>,
    pub url: Seq<char>,
    pub created_at: Timestamp,
    pub last_modified_at: Option<Timestamp>,
    pub is_archived: bool,
    pub license_info: Option<LicenseNodeV>,
    pub languages: Option<Seq<Seq<char>>>,
    pub latest_release: Option<ReleaseNodeV>,
    pub topics: Option<Seq<Seq<char>>>,
}

impl View for LicenseNode {
    type V = LicenseNodeV;

    open spec fn view(&self) -> LicenseNodeV {
        LicenseNodeV { spdx: opt_view(self.spdx), name: self.name@, url: opt_view(self.url) }
    }
}

impl View for ReleaseNode {
    type V = ReleaseNodeV;

    open spec fn view(&self) -> ReleaseNodeV {
        ReleaseNodeV {
            name: opt_view(self.name),
            tag_name: self.tag_name@,
            description: opt_view(self.description),
            is_draft: self.is_draft,
            created_at: self.created_at,
            published_at: self.published_at,
        }
    }
}

/// The names of name nodes.
pub open spec fn name_nodes_view(s: Seq<NameNode>) -> Seq<Seq<char>> {
    Seq::new(s.len(), |i: int| s[i].name@)
}

/// The names of the topics of topic nodes.
pub open spec fn topic_nodes_view(s: Seq<TopicNode>) -> Seq<Seq<char>> {
    Seq::new(s.len(), |i: int| s[i].topic.name@)
}

impl View for RepoDetail {
    type V = RepoDetailV;

    open spec fn view(&self) -> RepoDetailV {
        RepoDetailV {
            name: self.name@,
            owner: self.owner.login@,
            description: opt_view(self.description),
            homepage_url: opt_view(self.homepage_url),
            url: self.url@,
            created_at: self.created_at,
            last_modified_at: self.last_modified_at,
            is_archived: self.is_archived,
            license_info: opt_view(self.license_info),
            languages: match self.languages {
                Some(l) => Some(name_nodes_view(l.nodes@)),
                None => None,
            },
            latest_release: opt_view(self.latest_release),
            topics: match self.topics {
                Some(t) => Some(topic_nodes_view(t.nodes@)),
                None => None,
            },
        }
    }
}

/// The text of the error that `std::str::from_utf8` reports for bytes that
/// are not UTF-8 (its `Display`).
pub uninterp spec fn utf8_error_text(bytes: Seq<u8>) -> Seq<char>;

/// Calls `std::str::from_utf8`, which by its documentation accepts exactly
/// the UTF-8 byte sequences (`valid_utf8`), whose characters are then
/// `decode_utf8` of them. The text of the error is named, not written out.
#[verifier::external_body]
fn utf8_text(bytes: &[u8]) -> (r: Result<String, String>)
    ensures
        match r {
            Ok(s) => vstd::utf8::valid_utf8(bytes@) && s@ == vstd::utf8::decode_utf8(bytes@),
            Err(m) => !vstd::utf8::valid_utf8(bytes@) && m@ == utf8_error_text(bytes@),
        },
{
    match std::str::from_utf8(bytes) {
        Ok(s) => Ok(s.to_string()),
        Err(e) => Err(e.to_string()),
    }
}

/// What [`load_query`] gives for a query path and the embedded file found
/// under it, if any.
pub open spec fn query_of(path: Seq<char>, embedded: Option<Seq<u8>>) -> Result<Seq<char>, ErrorV> {
    match embedded {
        None => Err(ErrorV::Fatal(path + ": embedded query not found"@)),
        Some(bytes) => if vstd::utf8::valid_utf8(bytes) {
            Ok(vstd::utf8::decode_utf8(bytes))
        } else {
            Err(ErrorV::Fatal(path + ": "@ + utf8_error_text(bytes)))
        },
    }
}

/// The text of an embedded GraphQL query: `embedded` is the content of the
/// embedded file at `path`, if there is one.
pub fn load_query(path: &str, embedded: Option<&[u8]>) -> (r: Result<String, Error>)
    ensures
        match r {
            Ok(s) => query_of(path@, opt_bytes(embedded)) == Ok::<Seq<char>, ErrorV>(s@),
            Err(e) => query_of(path@, opt_bytes(embedded)) == Err::<Seq<char>, ErrorV>(e@),
        },
{
    match embedded {
        Some(bytes) => match utf8_text(bytes) {
            Ok(s) => Ok(s),
            Err(m) => {
                let mut msg = text(path);
                msg.append(": ");
                msg.append(m.as_str());
                Err(Error::Fatal(msg))
            },
        },
        None => {
            let mut msg = text(path);
            msg.append(": embedded query not found");
            Err(Error::Fatal(msg))
        },
    }
}

/// The bytes of an embedded file, if there is one.
pub open spec fn opt_bytes(o: Option<&[u8]>) -> Option<Seq<u8>> {
    match o {
        Some(b) => Some(b@),
        None => None,
    }
}

// ---------- the GitHub CLI ----------

/// What `gh auth status` tells by how it ended: it succeeded, or it failed
/// with the exit code `code` (none when it was stopped by a signal).
pub open spec fn auth_result(success: bool, code: Option<i32>) -> Result<(), ErrorV> {
    if success {
        Ok(())
    } else {
        let c: int = match code {
            Some(c) => c as int,
            None => -1,
        };
        if c == 1 {
            Err(
                ErrorV::GitHub(
                    "GitHub CLI is not authenticated. Please run `gh auth login` to authenticate."@,
                ),
            )
        } else {
            Err(ErrorV::GitHub("GitHub CLI authentication check failed with exit code: "@ + decimal_of(c)))
        }
    }
}

/// Whether the GitHub CLI is authenticated, from how `gh auth status` ended:
/// `success` and its exit code `code`.
pub fn auth_check(success: bool, code: Option<i32>) -> (r: Result<(), Error>)
    ensures
        match r {
            Ok(_) => auth_result(success, code) is Ok,
            Err(e) => auth_result(success, code) == Err::<(), ErrorV>(e@),
        },
{
    if success {
        return Ok(());
    }
    let c: i32 = match code {
        Some(c) => c,
        None => -1,
    };
    if c == 1 {
        Err(
            Error::GitHub(
                text("GitHub CLI is not authenticated. Please run `gh auth login` to authenticate."),
            ),
        )
    } else {
        let mut m = text("GitHub CLI authentication check failed with exit code: ");
        let d = decimal(c as i64);
        m.append(d.as_str());
        Err(Error::GitHub(m))
    }
}

/// The text that `String::from_utf8_lossy` makes of some bytes: each
/// sequence that is not UTF-8 becomes a replacement character.
pub uninterp spec fn utf8_lossy_text(bytes: Seq<u8>) -> Seq<char>;

/// Calls `String::from_utf8_lossy` and takes the text. Its documentation
/// says that UTF-8 bytes give their text; what it makes of other bytes is
/// named, not written out.
#[verifier::external_body]
fn utf8_lossy(bytes: &[u8]) -> (r: String)
    ensures
        r@ == utf8_lossy_text(bytes@),
        vstd::utf8::valid_utf8(bytes@) ==> r@ == vstd::utf8::decode_utf8(bytes@),
{
    String::from_utf8_lossy(bytes).to_string()
}

/// What a run of `gh` gives: its standard output when it succeeded, a GitHub
/// error with its standard error otherwise, each read as text.
pub fn gh_output(success: bool, stdout: &[u8], stderr: &[u8]) -> (r: Result<String, Error>)
    ensures
        success ==> r is Ok && r->Ok_0@ == utf8_lossy_text(stdout@),
        !success ==> r is Err && r->Err_0@ == ErrorV::GitHub(utf8_lossy_text(stderr@)),
{
    if success {
        Ok(utf8_lossy(stdout))
    } else {
        Err(Error::GitHub(utf8_lossy(stderr)))
    }
}

/// The arguments of `gh` that list the repositories of `owner`, page by page,
/// with the GraphQL query `query`.
pub open spec fn list_args(owner: Seq<char>, query: Seq<char>) -> Seq<Seq<char>> {
    seq![
        "api"@,
        "graphql"@,
        "--paginate"@,
        "--slurp"@,
        "-F"@,
        "owner="@ + owner,
        "-f"@,
        "query="@ + query,
    ]
}

/// The arguments of `gh` that fetch the detail of the repository
/// `owner/name` with the GraphQL query `query`.
pub open spec fn detail_args(owner: Seq<char>, name: Seq<char>, query: Seq<char>) -> Seq<Seq<char>> {
    seq!["api"@, "graphql"@, "-F"@, "owner="@ + owner, "-F"@, "name="@ + name, "-f"@, "query="@ + query]
}

/// `value` after `prefix`.
fn prefixed(prefix: &str, value: &str) -> (r: String)
    ensures
        r@ == prefix@ + value@,
{
    let mut r = text(prefix);
    r.append(value);
    r
}

/// The arguments of `gh` that list the repositories of an owner.
pub fn list_query_args(owner: &str, query: &str) -> (r: Vec<String>)
    ensures
        crate::product::texts_view(r@) == list_args(owner@, query@),
{
    let r = vec![
        text("api"),
        text("graphql"),
        text("--paginate"),
        text("--slurp"),
        text("-F"),
        prefixed("owner=", owner),
        text("-f"),
        prefixed("query=", query),
    ];
    assert(crate::product::texts_view(r@) =~= list_args(owner@, query@));
    r
}

/// The arguments of `gh` that fetch the detail of a repository.
pub fn detail_query_args(owner: &str, name: &str, query: &str) -> (r: Vec<String>)
    ensures
        crate::product::texts_view(r@) == detail_args(owner@, name@, query@),
{
    let r = vec![
        text("api"),
        text("graphql"),
        text("-F"),
        prefixed("owner=", owner),
        text("-F"),
        prefixed("name=", name),
        text("-f"),
        prefixed("query=", query),
    ];
    assert(crate::product::texts_view(r@) =~= detail_args(owner@, name@, query@));
    r
}

/// The repositories of the pages of a listing, in order: each node that is
/// there gives its name and its last updated time.
pub open spec fn listed(pages: Seq<Seq<Option<(Seq<char>, Timestamp)>>>) -> Seq<(Seq<char>, Timestamp)>
    decreases pages.len(),
{
    if pages.len() == 0 {
        Seq::empty()
    } else {
        listed(pages.drop_last()) + present(pages.last())
    }
}

/// The nodes that are there, in order.
pub open spec fn present(nodes: Seq<Option<(Seq<char>, Timestamp)>>) -> Seq<(Seq<char>, Timestamp)>
    decreases nodes.len(),
{
    if nodes.len() == 0 {
        Seq::empty()
    } else {
        match nodes.last() {
            Some(n) => present(nodes.drop_last()).push(n),
            None => present(nodes.drop_last()),
        }
    }
}

/// The value of a listing page: its nodes.
pub open spec fn page_view(p: Vec<Option<(String, Timestamp)>>) -> Seq<Option<(Seq<char>, Timestamp)>> {
    Seq::new(
        p.len() as nat,
        |i: int|
            match p@[i] {
                Some(n) => Some((n.0@, n.1)),
                None => None,
            },
    )
}

/// The values of the pages of a listing.
pub open spec fn pages_view(pages: Seq<Vec<Option<(String, Timestamp)>>>) -> Seq<
    Seq<Option<(Seq<char>, Timestamp)>>,
> {
    Seq::new(pages.len(), |i: int| page_view(pages[i]))
}

/// The name and the last updated time of the repositories that the pages of
/// a listing hold, in order, skipping the nodes that are not there.
pub fn listed_repositories(pages: Vec<Vec<Option<(String, Timestamp)>>>) -> (r: Vec<(String, Timestamp)>)
    ensures
        crate::updater::names_view(r@) == listed(pages_view(pages@)),
{
    let ghost src = pages@;
    let mut out: Vec<(String, Timestamp)> = Vec::new();
    for page in it: pages.into_iter()
        invariant
            it.seq() == src,
            crate::updater::names_view(out@) == listed(pages_view(src.take(it.index() as int))),
    {
        let ghost i = it.index() as int;
        let ghost start = out@;
        let ghost pv = page_view(page);
        proof {
            assert(pages_view(src.take(i + 1)).drop_last() =~= pages_view(src.take(i)));
            assert(pages_view(src.take(i + 1)).last() == pv);
        }
        let n = page.len();
        let mut k: usize = 0;
        while k < n
            invariant
                n == page.len(),
                k <= n,
                pv == page_view(page),
                crate::updater::names_view(out@) == crate::updater::names_view(start) + present(pv.take(k as int)),
            decreases n - k,
        {
            proof {
                assert(pv.take(k + 1).drop_last() =~= pv.take(k as int));
            }
            match &page[k] {
                Some(node) => {
                    let ghost before = out@;
                    out.push((node.0.clone(), node.1));
                    proof {
                        assert(crate::updater::names_view(out@) =~= crate::updater::names_view(before).push(
                            (node.0@, node.1),
                        ));
                    }
                },
                None => {},
            }
            k = k + 1;
        }
        proof {
            assert(pv.take(n as int) =~= pv);
        }
    }
    proof {
        assert(src.take(src.len() as int) =~= src);
    }
    out
}

/// The only field of a one-field struct: the entry of an object with the
/// key, or the element of an array of one.
pub open spec fn only_field(j: JsonV, key: Seq<char>) -> Option<JsonV> {
    match j {
        JsonV::Object(e) => lookup(e, key),
        JsonV::Array(a) => if a.len() == 1 {
            Some(a[0])
        } else {
            None
        },
        _ => None,
    }
}

/// A node of a listing page: `null`, or a repository with its `name` and
/// its `updatedAt`, as an object or an array of those two fields.
pub open spec fn node_of(j: JsonV) -> Option<Option<(Seq<char>, Timestamp)>> {
    let fields: Option<(Option<JsonV>, Option<JsonV>)> = match j {
        JsonV::Object(e) => Some((lookup(e, "name"@), lookup(e, "updatedAt"@))),
        JsonV::Array(a) => if a.len() == 2 {
            Some((Some(a[0]), Some(a[1])))
        } else {
            None
        },
        _ => None,
    };
    match j {
        JsonV::Null => Some(None),
        _ => match fields {
            Some((f0, f1)) => match (req_text_field(f0), req_time_field(f1)) {
                (Some(name), Some(t)) => Some(Some((name, t))),
                _ => None,
            },
            None => None,
        },
    }
}

/// The nodes of a listing page: `data.user.repositories.nodes`.
pub open spec fn page_of(j: JsonV) -> Option<Seq<Option<(Seq<char>, Timestamp)>>> {
    match only_field(j, "data"@) {
        Some(d) => match only_field(d, "user"@) {
            Some(u) => match only_field(u, "repositories"@) {
                Some(r) => match only_field(r, "nodes"@) {
                    Some(JsonV::Array(ns)) => all_of(ns, |n: JsonV| node_of(n)),
                    _ => None,
                },
                None => None,
            },
            None => None,
        },
        None => None,
    }
}

/// What the pages of the listing give: their repositories, in order; a parse
/// error when one of them is not a page.
pub open spec fn listing_of_values(vals: Seq<JsonV>) -> Result<Seq<(Seq<char>, Timestamp)>, ErrorV> {
    match all_of(vals, |j: JsonV| page_of(j)) {
        Some(pages) => Ok(listed(pages)),
        None => Err(ErrorV::Parse("the reply is not a list of repository pages"@)),
    }
}

/// What the reply of the listing gives: the repositories of its pages, in
/// order; a parse error when it is not JSON, or not a list of pages.
pub open spec fn listing_of_text(text: Seq<char>) -> Result<Seq<(Seq<char>, Timestamp)>, ErrorV> {
    match json_array_of_text(text) {
        Err(m) => Err(ErrorV::Parse(m)),
        Ok(vals) => listing_of_values(vals),
    }
}

fn only_field_of<'a>(j: &'a Json, key: &str) -> (r: Option<&'a Json>)
    ensures
        opt_json(r) == only_field(j@, key@),
{
    match j {
        Json::Object(e) => {
            proof {
                lemma_object_view(*e);
            }
            get(e, key)
        },
        Json::Array(a) => {
            proof {
                lemma_array_view(*a);
            }
            if a.len() == 1 {
                Some(&a[0])
            } else {
                None
            }
        },
        _ => None,
    }
}

/// The value of a node of a listing page.
pub open spec fn node_view(n: Option<(String, Timestamp)>) -> Option<(Seq<char>, Timestamp)> {
    match n {
        Some(x) => Some((x.0@, x.1)),
        None => None,
    }
}

fn decode_node(j: &Json) -> (r: Option<Option<(String, Timestamp)>>)
    ensures
        match r {
            Some(n) => node_of(j@) == Some(node_view(n)),
            None => node_of(j@) is None,
        },
{
    let (f0, f1): (Option<&Json>, Option<&Json>) = match j {
        Json::Null => return Some(None),
        Json::Object(e) => {
            proof {
                lemma_object_view(*e);
            }
            (get(e, "name"), get(e, "updatedAt"))
        },
        Json::Array(a) => {
            proof {
                lemma_array_view(*a);
            }
            if a.len() == 2 {
                (Some(&a[0]), Some(&a[1]))
            } else {
                return None;
            }
        },
        _ => return None,
    };
    let name = match req_text(f0) {
        Some(x) => x,
        None => return None,
    };
    let t = match req_time(f1) {
        Some(x) => x,
        None => return None,
    };
    Some(Some((name, t)))
}

fn decode_page(j: &Json) -> (r: Option<Vec<Option<(String, Timestamp)>>>)
    ensures
        match r {
            Some(p) => page_of(j@) == Some(page_view(p)),
            None => page_of(j@) is None,
        },
{
    let d = match only_field_of(j, "data") {
        Some(x) => x,
        None => return None,
    };
    let u = match only_field_of(d, "user") {
        Some(x) => x,
        None => return None,
    };
    let rp = match only_field_of(u, "repositories") {
        Some(x) => x,
        None => return None,
    };
    let ns = match only_field_of(rp, "nodes") {
        Some(Json::Array(ns)) => ns,
        _ => return None,
    };
    proof {
        lemma_array_view(*ns);
    }
    let ghost whole = page_of(j@);
    assert(whole == all_of(jsons_view(ns@), |n: JsonV| node_of(n)));
    let mut out: Vec<Option<(String, Timestamp)>> = Vec::new();
    let mut i: usize = 0;
    while i < ns.len()
        invariant
            i <= ns.len(),
            whole == page_of(j@),
            whole == all_of(jsons_view(ns@), |n: JsonV| node_of(n)),
            all_of(jsons_view(ns@).take(i as int), |n: JsonV| node_of(n)) == Some(page_view(out)),
        decreases ns.len() - i,
    {
        proof {
            assert(jsons_view(ns@).take(i + 1).drop_last() =~= jsons_view(ns@).take(i as int));
        }
        match decode_node(&ns[i]) {
            Some(n) => {
                let ghost before = out;
                out.push(n);
                proof {
                    assert(page_view(out) =~= page_view(before).push(node_view(n)));
                }
            },
            None => {
                proof {
                    lemma_all_of_prefix(jsons_view(ns@), |n: JsonV| node_of(n), i + 1);
                }
                return None;
            },
        }
        i = i + 1;
    }
    assert(jsons_view(ns@).take(ns.len() as int) =~= jsons_view(ns@));
    Some(out)
}

/// Reads the pages of the listing of an owner's repositories, already
/// parsed: the name and the last updated time of each repository, in order.
pub fn listing_from_values(values: &Vec<Json>) -> (r: Result<Vec<(String, Timestamp)>, Error>)
    ensures
        match r {
            Ok(v) => listing_of_values(jsons_view(values@)) == Ok::<
                Seq<(Seq<char>, Timestamp)>,
                ErrorV,
            >(crate::updater::names_view(v@)),
            Err(e) => listing_of_values(jsons_view(values@)) == Err::<
                Seq<(Seq<char>, Timestamp)>,
                ErrorV,
            >(e@),
        },
{
    let mut pages: Vec<Vec<Option<(String, Timestamp)>>> = Vec::new();
    let mut i: usize = 0;
    while i < values.len()
        invariant
            i <= values.len(),
            all_of(jsons_view(values@).take(i as int), |j: JsonV| page_of(j)) == Some(
                pages_view(pages@),
            ),
        decreases values.len() - i,
    {
        proof {
            assert(jsons_view(values@).take(i + 1).drop_last() =~= jsons_view(values@).take(
                i as int,
            ));
        }
        match decode_page(&values[i]) {
            Some(p) => {
                let ghost before = pages@;
                pages.push(p);
                proof {
                    assert(pages_view(pages@) =~= pages_view(before).push(page_view(p)));
                }
            },
            None => {
                proof {
                    lemma_all_of_prefix(jsons_view(values@), |j: JsonV| page_of(j), i + 1);
                }
                return Err(Error::Parse(text("the reply is not a list of repository pages")));
            },
        }
        i = i + 1;
    }
    assert(jsons_view(values@).take(values.len() as int) =~= jsons_view(values@));
    Ok(listed_repositories(pages))
}

/// Reads the reply of the paginated listing of an owner's repositories: the
/// name and the last updated time (`updatedAt`) of each repository, in order.
pub fn parse_list(json: &str) -> (r: Result<Vec<(String, Timestamp)>, Error>)
    ensures
        match r {
            Ok(v) => listing_of_text(json@) == Ok::<Seq<(Seq<char>, Timestamp)>, ErrorV>(
                crate::updater::names_view(v@),
            ),
            Err(e) => listing_of_text(json@) == Err::<Seq<(Seq<char>, Timestamp)>, ErrorV>(e@),
        },
{
    let values = match parse_json_array(json) {
        Ok(v) => v,
        Err(m) => return Err(Error::Parse(m)),
    };
    listing_from_values(&values)
}

// ---------- the detail reply ----------

/// The field `key`, at position `i`, of a struct: the entry of an object
/// with the key, or the element of an array of the fields at the position.
pub open spec fn struct_field(j: JsonV, key: Seq<char>, i: int) -> Option<JsonV> {
    match j {
        JsonV::Object(e) => lookup(e, key),
        JsonV::Array(a) => elem(a, i),
        _ => None,
    }
}

/// Whether a value can hold a struct of `n` fields: an object, or an array
/// of at most `n` elements.
pub open spec fn fits_struct(j: JsonV, n: int) -> bool {
    match j {
        JsonV::Object(_) => true,
        JsonV::Array(a) => a.len() <= n,
        _ => false,
    }
}

/// An optional text field without a default: none when an object lacks it,
/// an error when an array lacks it.
pub open spec fn strict_opt_text(j: JsonV, key: Seq<char>, i: int) -> Option<Option<Seq<char>>> {
    match j {
        JsonV::Array(a) => match elem(a, i) {
            Some(v) => opt_text_of(v),
            None => None,
        },
        _ => opt_text_field(struct_field(j, key, i), None),
    }
}

/// A boolean field, `default` when it is not given.
pub open spec fn bool_field(f: Option<JsonV>, default: bool) -> Option<bool> {
    match f {
        Some(JsonV::Bool(b)) => Some(b),
        Some(_) => None,
        None => Some(default),
    }
}

/// A field that is none when it is missing or `null`, and read by `read`
/// otherwise.
pub open spec fn nullable<T>(f: Option<JsonV>, read: spec_fn(JsonV) -> Option<T>) -> Option<Option<T>> {
    match f {
        None => Some(None),
        Some(JsonV::Null) => Some(None),
        Some(v) => match read(v) {
            Some(x) => Some(Some(x)),
            None => None,
        },
    }
}

/// A node with a `name`.
pub open spec fn name_node_of(j: JsonV) -> Option<Seq<char>> {
    req_text_field(only_field(j, "name"@))
}

/// A topic node: its `topic`, a node with a `name`.
pub open spec fn topic_node_of(j: JsonV) -> Option<Seq<char>> {
    match only_field(j, "topic"@) {
        Some(t) => name_node_of(t),
        None => None,
    }
}

/// The `languages` of a repository: the names of its `nodes`.
pub open spec fn languages_node_of(j: JsonV) -> Option<Seq<Seq<char>>> {
    match only_field(j, "nodes"@) {
        Some(JsonV::Array(a)) => all_of(a, |n: JsonV| name_node_of(n)),
        _ => None,
    }
}

/// The `repositoryTopics` of a repository: the topic names of its `nodes`.
pub open spec fn topics_node_of(j: JsonV) -> Option<Seq<Seq<char>>> {
    match only_field(j, "nodes"@) {
        Some(JsonV::Array(a)) => all_of(a, |n: JsonV| topic_node_of(n)),
        _ => None,
    }
}

/// The `owner` of a repository: its `login`.
pub open spec fn owner_of(f: Option<JsonV>) -> Option<Seq<char>> {
    match f {
        Some(v) => req_text_field(only_field(v, "login"@)),
        None => None,
    }
}

/// The `licenseInfo` of a repository.
pub open spec fn license_node_of(j: JsonV) -> Option<LicenseNodeV> {
    if !fits_struct(j, 3) {
        None
    } else {
        match (
            strict_opt_text(j, "spdx"@, 0),
            req_text_field(struct_field(j, "name"@, 1)),
            opt_text_field(struct_field(j, "url"@, 2), None),
        ) {
            (Some(spdx), Some(name), Some(url)) => Some(LicenseNodeV { spdx, name, url }),
            _ => None,
        }
    }
}

/// The `latestRelease` of a repository.
pub open spec fn release_node_of(j: JsonV) -> Option<ReleaseNodeV> {
    if !fits_struct(j, 6) {
        None
    } else {
        match (
            strict_opt_text(j, "name"@, 0),
            req_text_field(struct_field(j, "tagName"@, 1)),
            opt_text_field(struct_field(j, "description"@, 2), None),
            bool_field(struct_field(j, "isDraft"@, 3), false),
            req_time_field(struct_field(j, "createdAt"@, 4)),
            opt_time_field(struct_field(j, "publishedAt"@, 5), None),
        ) {
            (
                Some(name),
                Some(tag_name),
                Some(description),
                Some(is_draft),
                Some(created_at),
                Some(published_at),
            ) => Some(ReleaseNodeV { name, tag_name, description, is_draft, created_at, published_at }),
            _ => None,
        }
    }
}

/// A repository detail, as `queries/products.graphql` reports it.
pub open spec fn repo_detail_of(j: JsonV) -> Option<RepoDetailV> {
    if !fits_struct(j, 12) {
        None
    } else {
        match (
            req_text_field(struct_field(j, "name"@, 0)),
            owner_of(struct_field(j, "owner"@, 1)),
            opt_text_field(struct_field(j, "description"@, 2), None),
            opt_text_field(struct_field(j, "homepageUrl"@, 3), None),
            req_text_field(struct_field(j, "url"@, 4)),
            req_time_field(struct_field(j, "createdAt"@, 5)),
        ) {
            (Some(name), Some(owner), Some(description), Some(homepage_url), Some(url), Some(created_at)) => {
                match (
                    opt_time_field(struct_field(j, "lastModifiedAt"@, 6), None),
                    bool_field(struct_field(j, "isArchived"@, 7), false),
                    nullable(struct_field(j, "licenseInfo"@, 8), |v: JsonV| license_node_of(v)),
                    nullable(struct_field(j, "languages"@, 9), |v: JsonV| languages_node_of(v)),
                    nullable(struct_field(j, "latestRelease"@, 10), |v: JsonV| release_node_of(v)),
                    nullable(struct_field(j, "repositoryTopics"@, 11), |v: JsonV| topics_node_of(v)),
                ) {
                    (
                        Some(last_modified_at),
                        Some(is_archived),
                        Some(license_info),
                        Some(languages),
                        Some(latest_release),
                        Some(topics),
                    ) => Some(
                        RepoDetailV {
                            name,
                            owner,
                            description,
                            homepage_url,
                            url,
                            created_at,
                            last_modified_at,
                            is_archived,
                            license_info,
                            languages,
                            latest_release,
                            topics,
                        },
                    ),
                    _ => None,
                }
            },
            _ => None,
        }
    }
}

/// What the reply of the detail query gives once parsed: `data.repository`
/// read as a repository detail; a parse error when it is not that.
pub open spec fn detail_of_value(v: JsonV) -> Result<RepoDetailV, ErrorV> {
    match only_field(v, "data"@) {
        Some(d) => match only_field(d, "repository"@) {
            Some(r) => match repo_detail_of(r) {
                Some(x) => Ok(x),
                None => Err(ErrorV::Parse("the reply is not a repository detail"@)),
            },
            None => Err(ErrorV::Parse("the reply is not a repository detail"@)),
        },
        None => Err(ErrorV::Parse("the reply is not a repository detail"@)),
    }
}

/// What the reply of the detail query gives: a parse error when it is not
/// JSON, what [`detail_of_value`] gives otherwise.
pub open spec fn detail_of_text(text: Seq<char>) -> Result<RepoDetailV, ErrorV> {
    match json_value_of_text(text) {
        Err(m) => Err(ErrorV::Parse(m)),
        Ok(v) => detail_of_value(v),
    }
}

fn struct_field_at<'a>(j: &'a Json, key: &str, i: usize) -> (r: Option<&'a Json>)
    ensures
        opt_json(r) == struct_field(j@, key@, i as int),
{
    match j {
        Json::Object(e) => {
            proof {
                lemma_object_view(*e);
            }
            get(e, key)
        },
        Json::Array(a) => {
            proof {
                lemma_array_view(*a);
            }
            elem_at(a, i)
        },
        _ => None,
    }
}

fn fits_struct_of(j: &Json, n: usize) -> (r: bool)
    ensures
        r == fits_struct(j@, n as int),
{
    match j {
        Json::Object(_) => true,
        Json::Array(a) => {
            proof {
                lemma_array_view(*a);
            }
            a.len() <= n
        },
        _ => false,
    }
}

fn strict_opt_text_at(j: &Json, key: &str, i: usize) -> (r: Option<Option<String>>)
    ensures
        match r {
            Some(o) => strict_opt_text(j@, key@, i as int) == Some(opt_view(o)),
            None => strict_opt_text(j@, key@, i as int) is None,
        },
{
    match j {
        Json::Array(a) => {
            proof {
                lemma_array_view(*a);
            }
            match elem_at(a, i) {
                Some(v) => opt_text_at(Some(v)),
                None => None,
            }
        },
        _ => opt_text_at(struct_field_at(j, key, i)),
    }
}

fn bool_at(f: Option<&Json>, default: bool) -> (r: Option<bool>)
    ensures
        r == bool_field(opt_json(f), default),
{
    match f {
        Some(Json::Bool(b)) => Some(*b),
        Some(_) => None,
        None => Some(default),
    }
}

fn decode_name_node(j: &Json) -> (r: Option<NameNode>)
    ensures
        match r {
            Some(n) => name_node_of(j@) == Some(n.name@),
            None => name_node_of(j@) is None,
        },
{
    match req_text(only_field_of(j, "name")) {
        Some(name) => Some(NameNode { name }),
        None => None,
    }
}

fn decode_topic_node(j: &Json) -> (r: Option<TopicNode>)
    ensures
        match r {
            Some(n) => topic_node_of(j@) == Some(n.topic.name@),
            None => topic_node_of(j@) is None,
        },
{
    match only_field_of(j, "topic") {
        Some(t) => match decode_name_node(t) {
            Some(topic) => Some(TopicNode { topic }),
            None => None,
        },
        None => None,
    }
}

fn decode_languages(j: &Json) -> (r: Option<LanguagesNode>)
    ensures
        match r {
            Some(l) => languages_node_of(j@) == Some(name_nodes_view(l.nodes@)),
            None => languages_node_of(j@) is None,
        },
{
    let ns = match only_field_of(j, "nodes") {
        Some(Json::Array(ns)) => ns,
        _ => return None,
    };
    proof {
        lemma_array_view(*ns);
    }
    let ghost whole = languages_node_of(j@);
    assert(whole == all_of(jsons_view(ns@), |n: JsonV| name_node_of(n)));
    let mut out: Vec<NameNode> = Vec::new();
    let mut i: usize = 0;
    while i < ns.len()
        invariant
            i <= ns.len(),
            whole == languages_node_of(j@),
            whole == all_of(jsons_view(ns@), |n: JsonV| name_node_of(n)),
            all_of(jsons_view(ns@).take(i as int), |n: JsonV| name_node_of(n)) == Some(
                name_nodes_view(out@),
            ),
        decreases ns.len() - i,
    {
        proof {
            assert(jsons_view(ns@).take(i + 1).drop_last() =~= jsons_view(ns@).take(i as int));
        }
        match decode_name_node(&ns[i]) {
            Some(n) => {
                let ghost before = out@;
                let ghost nv = n.name@;
                out.push(n);
                proof {
                    assert(name_nodes_view(out@) =~= name_nodes_view(before).push(nv));
                }
            },
            None => {
                proof {
                    lemma_all_of_prefix(jsons_view(ns@), |n: JsonV| name_node_of(n), i + 1);
                }
                return None;
            },
        }
        i = i + 1;
    }
    assert(jsons_view(ns@).take(ns.len() as int) =~= jsons_view(ns@));
    Some(LanguagesNode { nodes: out })
}

fn decode_topics(j: &Json) -> (r: Option<TopicsNode>)
    ensures
        match r {
            Some(t) => topics_node_of(j@) == Some(topic_nodes_view(t.nodes@)),
            None => topics_node_of(j@) is None,
        },
{
    let ns = match only_field_of(j, "nodes") {
        Some(Json::Array(ns)) => ns,
        _ => return None,
    };
    proof {
        lemma_array_view(*ns);
    }
    let ghost whole = topics_node_of(j@);
    assert(whole == all_of(jsons_view(ns@), |n: JsonV| topic_node_of(n)));
    let mut out: Vec<TopicNode> = Vec::new();
    let mut i: usize = 0;
    while i < ns.len()
        invariant
            i <= ns.len(),
            whole == topics_node_of(j@),
            whole == all_of(jsons_view(ns@), |n: JsonV| topic_node_of(n)),
            all_of(jsons_view(ns@).take(i as int), |n: JsonV| topic_node_of(n)) == Some(
                topic_nodes_view(out@),
            ),
        decreases ns.len() - i,
    {
        proof {
            assert(jsons_view(ns@).take(i + 1).drop_last() =~= jsons_view(ns@).take(i as int));
        }
        match decode_topic_node(&ns[i]) {
            Some(n) => {
                let ghost before = out@;
                let ghost nv = n.topic.name@;
                out.push(n);
                proof {
                    assert(topic_nodes_view(out@) =~= topic_nodes_view(before).push(nv));
                }
            },
            None => {
                proof {
                    lemma_all_of_prefix(jsons_view(ns@), |n: JsonV| topic_node_of(n), i + 1);
                }
                return None;
            },
        }
        i = i + 1;
    }
    assert(jsons_view(ns@).take(ns.len() as int) =~= jsons_view(ns@));
    Some(TopicsNode { nodes: out })
}

fn decode_license_node(j: &Json) -> (r: Option<LicenseNode>)
    ensures
        match r {
            Some(l) => license_node_of(j@) == Some(l@),
            None => license_node_of(j@) is None,
        },
{
    if !fits_struct_of(j, 3) {
        return None;
    }
    let spdx = match strict_opt_text_at(j, "spdx", 0) {
        Some(x) => x,
        None => return None,
    };
    let name = match req_text(struct_field_at(j, "name", 1)) {
        Some(x) => x,
        None => return None,
    };
    let url = match opt_text_at(struct_field_at(j, "url", 2)) {
        Some(x) => x,
        None => return None,
    };
    Some(LicenseNode { spdx, name, url })
}

fn decode_release_node(j: &Json) -> (r: Option<ReleaseNode>)
    ensures
        match r {
            Some(x) => release_node_of(j@) == Some(x@),
            None => release_node_of(j@) is None,
        },
{
    if !fits_struct_of(j, 6) {
        return None;
    }
    let name = match strict_opt_text_at(j, "name", 0) {
        Some(x) => x,
        None => return None,
    };
    let tag_name = match req_text(struct_field_at(j, "tagName", 1)) {
        Some(x) => x,
        None => return None,
    };
    let description = match opt_text_at(struct_field_at(j, "description", 2)) {
        Some(x) => x,
        None => return None,
    };
    let is_draft = match bool_at(struct_field_at(j, "isDraft", 3), false) {
        Some(x) => x,
        None => return None,
    };
    let created_at = match req_time(struct_field_at(j, "createdAt", 4)) {
        Some(x) => x,
        None => return None,
    };
    let published_at = match opt_time(struct_field_at(j, "publishedAt", 5)) {
        Some(x) => x,
        None => return None,
    };
    Some(ReleaseNode { name, tag_name, description, is_draft, created_at, published_at })
}

fn decode_owner(f: Option<&Json>) -> (r: Option<OwnerNode>)
    ensures
        match r {
            Some(o) => owner_of(opt_json(f)) == Some(o.login@),
            None => owner_of(opt_json(f)) is None,
        },
{
    match f {
        Some(v) => match req_text(only_field_of(v, "login")) {
            Some(login) => Some(OwnerNode { login }),
            None => None,
        },
        None => None,
    }
}

fn decode_repo_detail(j: &Json) -> (r: Option<RepoDetail>)
    ensures
        match r {
            Some(d) => repo_detail_of(j@) == Some(d@),
            None => repo_detail_of(j@) is None,
        },
{
    if !fits_struct_of(j, 12) {
        return None;
    }
    let name = match req_text(struct_field_at(j, "name", 0)) {
        Some(x) => x,
        None => return None,
    };
    let owner = match decode_owner(struct_field_at(j, "owner", 1)) {
        Some(x) => x,
        None => return None,
    };
    let description = match opt_text_at(struct_field_at(j, "description", 2)) {
        Some(x) => x,
        None => return None,
    };
    let homepage_url = match opt_text_at(struct_field_at(j, "homepageUrl", 3)) {
        Some(x) => x,
        None => return None,
    };
    let url = match req_text(struct_field_at(j, "url", 4)) {
        Some(x) => x,
        None => return None,
    };
    let created_at = match req_time(struct_field_at(j, "createdAt", 5)) {
        Some(x) => x,
        None => return None,
    };
    let last_modified_at = match opt_time(struct_field_at(j, "lastModifiedAt", 6)) {
        Some(x) => x,
        None => return None,
    };
    let is_archived = match bool_at(struct_field_at(j, "isArchived", 7), false) {
        Some(x) => x,
        None => return None,
    };
    let license_info = match struct_field_at(j, "licenseInfo", 8) {
        None => None,
        Some(Json::Null) => None,
        Some(v) => match decode_license_node(v) {
            Some(x) => Some(x),
            None => return None,
        },
    };
    let languages = match struct_field_at(j, "languages", 9) {
        None => None,
        Some(Json::Null) => None,
        Some(v) => match decode_languages(v) {
            Some(x) => Some(x),
            None => return None,
        },
    };
    let latest_release = match struct_field_at(j, "latestRelease", 10) {
        None => None,
        Some(Json::Null) => None,
        Some(v) => match decode_release_node(v) {
            Some(x) => Some(x),
            None => return None,
        },
    };
    let topics = match struct_field_at(j, "repositoryTopics", 11) {
        None => None,
        Some(Json::Null) => None,
        Some(v) => match decode_topics(v) {
            Some(x) => Some(x),
            None => return None,
        },
    };
    Some(
        RepoDetail {
            name,
            owner,
            description,
            homepage_url,
            url,
            created_at,
            last_modified_at,
            is_archived,
            license_info,
            languages,
            latest_release,
            topics,
        },
    )
}

/// Reads the reply of the detail query of a repository, already parsed: its
/// `data.repository`.
pub fn detail_from_value(value: &Json) -> (r: Result<RepoDetail, Error>)
    ensures
        match r {
            Ok(d) => detail_of_value(value@) == Ok::<RepoDetailV, ErrorV>(d@),
            Err(e) => detail_of_value(value@) == Err::<RepoDetailV, ErrorV>(e@),
        },
{
    let repository = match only_field_of(value, "data") {
        Some(d) => only_field_of(d, "repository"),
        None => None,
    };
    let found = match repository {
        Some(r) => decode_repo_detail(r),
        None => None,
    };
    match found {
        Some(d) => Ok(d),
        None => Err(Error::Parse(text("the reply is not a repository detail"))),
    }
}

/// Reads the reply of the detail query of a repository: its
/// `data.repository`.
pub fn parse_detail(json: &str) -> (r: Result<RepoDetail, Error>)
    ensures
        match r {
            Ok(d) => detail_of_text(json@) == Ok::<RepoDetailV, ErrorV>(d@),
            Err(e) => detail_of_text(json@) == Err::<RepoDetailV, ErrorV>(e@),
        },
{
    let value = match parse_json_value(json) {
        Ok(v) => v,
        Err(m) => return Err(Error::Parse(m)),
    };
    detail_from_value(&value)
}

} // verus!
