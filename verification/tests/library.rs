use api::github::{
    auth_check, detail_query_args, gh_output, list_query_args, listed_repositories, load_query,
    OwnerNode, ReleaseNode, RepoDetail,
};
use api::json::{get, Json};
use api::merger::{Level, Opts};
use api::product::{
    apply_overrides, build_product, build_product_at, default_repository, default_sbom, default_url,
    items_from_values, parse_items, FetchedUrls,
};
use api::text::{decimal, is_blank_text, trim};
use api::time::{instant_of_clock, Timestamp};
use api::updater::{
    github_owners, is_up_to_date, less_text, needs_fetch, update_item_at, UpdatedMap,
};
use api::{Error, InputItem, LinkSpec, Product, Release};

fn ts(text: &str) -> Timestamp {
    let d = text.parse::<chrono::DateTime<chrono::Utc>>().unwrap();
    Timestamp { secs: d.timestamp(), nanos: d.timestamp_subsec_nanos() }
}

fn detail() -> RepoDetail {
    RepoDetail {
        name: "totebag".to_string(),
        owner: OwnerNode { login: "tamada".to_string() },
        description: Some("archiver".to_string()),
        homepage_url: None,
        url: "https://github.com/tamada/totebag".to_string(),
        created_at: ts("2024-01-01T00:00:00Z"),
        last_modified_at: Some(ts("2026-06-01T00:00:00Z")),
        is_archived: false,
        license_info: None,
        languages: None,
        latest_release: None,
        topics: None,
    }
}

fn release(name: &str, date: &str) -> Release {
    Release { name: name.to_string(), release_date: ts(date), description: String::new() }
}

fn product(overrides: Vec<(String, Json)>) -> Product {
    Product {
        owner: "tamada".to_string(),
        name: "totebag".to_string(),
        description: Some("archiver".to_string()),
        releases: Vec::new(),
        license: Vec::new(),
        links: Vec::new(),
        languages: vec!["Rust".to_string()],
        topics: Vec::new(),
        overrides,
        last_updated: Some(ts("2026-06-01T00:00:00Z")),
        others: Vec::new(),
    }
}

fn names(items: &[InputItem]) -> Vec<&str> {
    items.iter().map(|i| i.name()).collect()
}

#[test]
fn derived_urls() {
    assert_eq!(default_url("tamada", "totebag"), "https://tamada.github.io/totebag");
    assert_eq!(default_repository("tamada", "totebag"), "https://github.com/tamada/totebag");
    assert_eq!(
        default_sbom("tamada", "totebag"),
        "https://api.github.com/repos/tamada/totebag/dependency-graph/sbom"
    );
}

#[test]
fn error_from_counts_the_errors() {
    assert!(matches!(Error::from(7, Vec::new()), Ok(7)));
    match Error::from(7, vec![Error::Fatal("one".to_string())]) {
        Err(Error::Fatal(m)) => assert_eq!(m, "one"),
        other => panic!("unexpected {:?}", other),
    }
    match Error::from((), vec![Error::Fatal("a".to_string()), Error::GitHub("b".to_string())]) {
        Err(Error::Array(v)) => {
            assert_eq!(v.len(), 2);
            assert!(matches!(&v[1], Error::GitHub(m) if m == "b"));
        }
        other => panic!("unexpected {:?}", other),
    }
}

#[test]
fn queries_are_read_as_utf8() {
    let ok = load_query("queries/a.graphql", Some("query { x }".as_bytes()));
    assert_eq!(ok.unwrap(), "query { x }");
    match load_query("queries/b.graphql", None) {
        Err(Error::Fatal(m)) => assert_eq!(m, "queries/b.graphql: embedded query not found"),
        other => panic!("unexpected {:?}", other),
    }
    match load_query("queries/c.graphql", Some(&[0xff, 0xfe])) {
        Err(Error::Fatal(m)) => {
            assert!(m.starts_with("queries/c.graphql: "));
            assert!(m.len() > "queries/c.graphql: ".len());
        }
        other => panic!("unexpected {:?}", other),
    }
}

#[test]
fn level_filters() {
    assert_eq!(Level::Trace.filter(), "trace");
    assert_eq!(Level::Debug.filter(), "debug");
    assert_eq!(Level::Info.filter(), "info");
    assert_eq!(Level::Warn.filter(), "warn");
    assert_eq!(Level::Error.filter(), "error");
}

fn opts(input: &str, output: Option<&str>) -> Opts {
    Opts {
        input: input.to_string(),
        output: output.map(|s| s.to_string()),
        base_project_json: false,
        level: Level::Info,
        pretty: false,
    }
}

#[test]
fn options_are_checked() {
    assert!(opts("-", None).verify(false, false).is_ok());
    assert!(opts("-", Some("-")).verify(false, true).is_ok());
    assert!(opts("in.json", Some("out.json")).verify(true, false).is_ok());
    match opts("in.json", None).verify(false, false) {
        Err(Error::FileNotFound(p)) => assert_eq!(p, "in.json"),
        other => panic!("unexpected {:?}", other),
    }
    match opts("in.json", Some("out.json")).verify(false, true) {
        Err(Error::Array(v)) => {
            assert!(matches!(&v[0], Error::FileNotFound(p) if p == "in.json"));
            assert!(matches!(&v[1], Error::FileExists(p) if p == "out.json"));
        }
        other => panic!("unexpected {:?}", other),
    }
}

#[test]
fn parse_errors() {
    assert!(matches!(parse_items("not json", false), Err(Error::Parse(_))));
    assert!(matches!(parse_items(r#"{"owner": "a"}"#, false), Err(Error::Parse(_))));
    match parse_items(r#"[{"owner": "a", "name": "b"}, {"name": "c"}]"#, false) {
        Err(Error::Parse(m)) => assert_eq!(m, "the entry is not a valid base product"),
        other => panic!("unexpected {:?}", other),
    }
    match parse_items(r#"[{"name": "c"}, {"owner": "a", "name": "b", "releases": 3}]"#, false) {
        Err(Error::Array(v)) => {
            assert_eq!(v.len(), 2);
            assert!(matches!(&v[1], Error::Parse(m) if m == "the entry is not a valid product"));
        }
        other => panic!("unexpected {:?}", other),
    }
    assert_eq!(parse_items("[]", false).unwrap().len(), 0);
}

#[test]
fn parse_reads_times_and_defaults() {
    let items = parse_items(
        r#"[{"owner": "a", "name": "b", "last_updated": "2026-06-01T09:30:00+09:00"},
            ["a", "c", null, "gitlab"]]"#,
        false,
    )
    .unwrap();
    match &items[0] {
        InputItem::Base(b) => {
            assert_eq!(b.service, "github");
            assert_eq!(b.last_updated, Some(ts("2026-06-01T00:30:00Z")));
            assert!(b.logo.is_none());
        }
        _ => panic!("expected a base product"),
    }
    match &items[1] {
        InputItem::Base(b) => {
            assert_eq!(b.name, "c");
            assert_eq!(b.service, "gitlab");
        }
        _ => panic!("expected a base product"),
    }
}

#[test]
fn other_keys_of_a_product_are_kept() {
    let items = parse_items(
        r#"[{"owner": "a", "name": "b", "topics": [], "stars": 3, "logo": "x", "sbom": "y"}]"#,
        false,
    )
    .unwrap();
    match &items[0] {
        InputItem::Product(p) => {
            assert!(matches!(get(&p.others, "stars"), Some(Json::Number(n)) if n == "3"));
            assert!(get(&p.others, "logo").is_none());
            assert!(get(&p.others, "sbom").is_none());
            assert!(get(&p.others, "topics").is_none());
        }
        _ => panic!("expected a full product"),
    }
}

#[test]
fn unfit_overrides_leave_the_product() {
    let p = apply_overrides(product(vec![
        ("description".to_string(), Json::Str("new".to_string())),
        ("releases".to_string(), Json::Str("not a list".to_string())),
    ]));
    assert_eq!(p.description.as_deref(), Some("archiver"));
    assert_eq!(p.overrides.len(), 2);
}

#[test]
fn overrides_apply_once_and_for_all() {
    let overrides = vec![
        ("description".to_string(), Json::Str("new".to_string())),
        ("owner".to_string(), Json::Str("someone".to_string())),
        ("languages".to_string(), Json::Array(vec![Json::Str("Go".to_string())])),
        ("stars".to_string(), Json::Number("5".to_string())),
        ("url".to_string(), Json::Str("https://example.com".to_string())),
    ];
    let once = apply_overrides(product(overrides));
    assert_eq!(once.owner, "tamada");
    assert_eq!(once.description.as_deref(), Some("new"));
    assert_eq!(once.languages, vec!["Go".to_string()]);
    assert!(get(&once.others, "url").is_none());
    assert!(matches!(get(&once.others, "stars"), Some(Json::Number(n)) if n == "5"));
    let twice = apply_overrides(once);
    assert_eq!(twice.owner, "tamada");
    assert_eq!(twice.description.as_deref(), Some("new"));
    assert_eq!(twice.languages, vec!["Go".to_string()]);
    assert!(matches!(get(&twice.others, "stars"), Some(Json::Number(n)) if n == "5"));
}

#[test]
fn fetched_homepage_is_trimmed() {
    let mut d = detail();
    d.homepage_url = Some("  https://totebag.example.com \n".to_string());
    let f = FetchedUrls::of(&d);
    assert_eq!(f.www.as_deref(), Some("https://totebag.example.com"));
    assert_eq!(f.repository.as_deref(), Some("https://github.com/tamada/totebag"));
    d.homepage_url = Some(" \t ".to_string());
    assert!(FetchedUrls::of(&d).www.is_none());
}

#[test]
fn trimming_text() {
    assert_eq!(trim("  a b \t"), "a b");
    assert_eq!(trim(""), "");
    assert_eq!(trim("\u{3000}x\u{3000}"), "x");
    assert_eq!(trim("\u{85}\u{a0}\u{2028}x\u{202f}\u{205f}"), "x");
    assert_eq!(trim("\u{180e}x\u{200b}"), "\u{180e}x\u{200b}");
    assert!(is_blank_text(" \n\t"));
    assert!(!is_blank_text(" x "));
}

#[test]
fn releases_are_sorted_newest_first() {
    let mut d = detail();
    d.latest_release = Some(ReleaseNode {
        name: Some("  ".to_string()),
        tag_name: "v3".to_string(),
        description: Some("latest".to_string()),
        is_draft: false,
        created_at: ts("2026-03-01T00:00:00Z"),
        published_at: None,
    });
    let releases = vec![
        release("v1", "2025-01-01T00:00:00Z"),
        release("v2a", "2025-06-01T00:00:00Z"),
        release("v2b", "2025-06-01T00:00:00Z"),
    ];
    let p = build_product(d, None, Vec::new(), Vec::new(), releases, None, &Vec::new());
    let got: Vec<&str> = p.releases.iter().map(|r| r.name.as_str()).collect();
    assert_eq!(got, vec!["v3", "v2a", "v2b", "v1"]);
    assert_eq!(p.releases[0].description, "latest");
    assert_eq!(p.last_updated, Some(ts("2026-06-01T00:00:00Z")));
    assert_eq!(p.description.as_deref(), Some("archiver"));
}

#[test]
fn known_or_draft_latest_release_is_not_added() {
    let mut d = detail();
    d.latest_release = Some(ReleaseNode {
        name: Some("v1".to_string()),
        tag_name: "t1".to_string(),
        description: None,
        is_draft: false,
        created_at: ts("2026-03-01T00:00:00Z"),
        published_at: None,
    });
    let p = build_product(d, None, Vec::new(), Vec::new(), vec![release("v1", "2025-01-01T00:00:00Z")], None, &Vec::new());
    assert_eq!(p.releases.len(), 1);
    let mut d = detail();
    d.latest_release = Some(ReleaseNode {
        name: None,
        tag_name: "t2".to_string(),
        description: None,
        is_draft: true,
        created_at: ts("2026-03-01T00:00:00Z"),
        published_at: None,
    });
    let p = build_product(d, None, Vec::new(), Vec::new(), Vec::new(), None, &Vec::new());
    assert!(p.releases.is_empty());
}

#[test]
fn last_updated_falls_back_to_now() {
    let mut d = detail();
    d.last_modified_at = None;
    let p = build_product(d, None, Vec::new(), Vec::new(), Vec::new(), None, &Vec::new());
    let t = p.last_updated.unwrap();
    assert!(t.secs > ts("2024-01-01T00:00:00Z").secs);
    let mut d = detail();
    d.last_modified_at = None;
    let at = ts("2020-02-02T00:00:00Z");
    let p = build_product_at(d, Some("https://l".to_string()), Vec::new(), Vec::new(), Vec::new(), None, &vec![LinkSpec::Type("www".to_string())], at);
    assert_eq!(p.last_updated, Some(at));
    assert_eq!(p.links[0].label, "logo");
    assert_eq!(p.links[1].url, "https://tamada.github.io/totebag");
}

#[test]
fn owners_are_listed_once_in_order() {
    let items = parse_items(
        r#"[{"owner": "b", "name": "x"}, {"owner": "a", "name": "y"},
            {"owner": "b", "name": "z", "topics": []},
            {"owner": "c", "name": "w", "service": "gitlab"}]"#,
        false,
    )
    .unwrap();
    assert_eq!(names(&items), vec!["x", "y", "z", "w"]);
    assert_eq!(github_owners(&items), vec!["a".to_string(), "b".to_string()]);
    assert!(less_text("ab", "b"));
    assert!(less_text("a", "ab"));
    assert!(!less_text("b", "b"));
}

#[test]
fn updated_times_read_back() {
    let mut m = UpdatedMap::new();
    m.insert(
        "tamada".to_string(),
        vec![
            ("totebag".to_string(), ts("2026-01-01T00:00:00Z")),
            ("totebag".to_string(), ts("2026-02-01T00:00:00Z")),
        ],
    );
    m.insert("other".to_string(), vec![("x".to_string(), ts("2026-03-01T00:00:00Z"))]);
    assert_eq!(m.updated_at("tamada", "totebag"), Some(ts("2026-02-01T00:00:00Z")));
    assert_eq!(m.updated_at("other", "x"), Some(ts("2026-03-01T00:00:00Z")));
    assert_eq!(m.updated_at("tamada", "x"), None);
    assert_eq!(m.updated_at("nobody", "x"), None);
}

#[test]
fn items_are_fetched_when_stale() {
    let items = parse_items(
        r#"[{"owner": "a", "name": "b"}, {"owner": "a", "name": "c", "service": "gitlab"},
            {"owner": "a", "name": "d", "topics": [], "last_updated": "2026-06-01T00:00:00Z"}]"#,
        false,
    )
    .unwrap();
    assert!(needs_fetch(&items[0], None));
    assert!(!needs_fetch(&items[1], None));
    assert!(needs_fetch(&items[2], None));
    assert!(!needs_fetch(&items[2], Some(ts("2026-05-01T00:00:00Z"))));
    assert!(needs_fetch(&items[2], Some(ts("2026-07-01T00:00:00Z"))));
}

#[test]
fn refreshed_product_is_up_to_date() {
    let items = parse_items(
        r#"[{"owner": "tamada", "name": "totebag", "topics": ["old"], "stars": 1,
             "links": [{"label": "docs", "url": "https://docs.example.com"}],
             "last_updated": "2025-01-01T00:00:00Z"}]"#,
        false,
    )
    .unwrap();
    let u = ts("2026-06-15T00:00:00Z");
    let item = items.into_iter().next().unwrap();
    let p = update_item_at(item, Some(u), Some(detail()), ts("2000-01-01T00:00:00Z"));
    assert!(is_up_to_date(&p, Some(u)));
    assert!(p.topics.is_empty());
    assert!(matches!(get(&p.others, "stars"), Some(Json::Number(n)) if n == "1"));
    assert_eq!(p.description.as_deref(), Some("archiver"));
    assert_eq!(p.links.len(), 1);
    assert_eq!(p.links[0].label, "docs");
    assert_eq!(p.links[0].url, "https://docs.example.com");
}

#[test]
fn failed_fetch_keeps_the_item() {
    let items = parse_items(
        r#"[{"owner": "tamada", "name": "totebag", "topics": ["old"]},
            {"owner": "tamada", "name": "fauxrest", "links": ["sbom"]}]"#,
        false,
    )
    .unwrap();
    let mut it = items.into_iter();
    let p = update_item_at(it.next().unwrap(), None, None, ts("2000-01-01T00:00:00Z"));
    assert_eq!(p.topics, vec!["old".to_string()]);
    let b = update_item_at(it.next().unwrap(), None, None, ts("2000-01-01T00:00:00Z"));
    assert_eq!(b.links[0].url, "https://api.github.com/repos/tamada/fauxrest/dependency-graph/sbom");
    assert!(b.last_updated.is_none());
}

#[test]
fn json_lookup_takes_the_last_entry() {
    let entries = vec![
        ("k".to_string(), Json::Bool(true)),
        ("k".to_string(), Json::Null),
    ];
    assert!(matches!(get(&entries, "k"), Some(Json::Null)));
    assert!(get(&entries, "x").is_none());
    let copy = Json::Object(entries).copy();
    match copy {
        Json::Object(e) => assert_eq!(e.len(), 2),
        _ => panic!("expected an object"),
    }
}

#[test]
fn error_messages() {
    assert_eq!(Error::Io("denied".to_string()).message(), "io error: denied");
    assert_eq!(Error::GitHub("x".to_string()).message(), "github error: x");
    assert_eq!(Error::Parse("bad".to_string()).message(), "parse error: bad");
    assert_eq!(Error::Fatal("f".to_string()).message(), "fatal error: f");
    assert_eq!(Error::Clap("usage".to_string()).message(), "usage");
    assert_eq!(Error::FileExists("o.json".to_string()).message(), "o.json: already exists");
    assert_eq!(Error::FileNotFound("i.json".to_string()).message(), "i.json: file not found");
    let e = Error::Array(vec![
        Error::FileNotFound("i.json".to_string()),
        Error::FileExists("o.json".to_string()),
    ]);
    assert_eq!(
        e.message(),
        "multiple errors:  - i.json: file not found\n - o.json: already exists"
    );
}

#[test]
fn decimal_texts() {
    assert_eq!(decimal(0), "0");
    assert_eq!(decimal(7), "7");
    assert_eq!(decimal(-1), "-1");
    assert_eq!(decimal(1234567890), "1234567890");
    assert_eq!(decimal(i64::MIN), "-9223372036854775808");
    assert_eq!(decimal(i64::MAX), "9223372036854775807");
}

#[test]
fn auth_status_is_told_by_the_exit_code() {
    assert!(auth_check(true, Some(0)).is_ok());
    match auth_check(false, Some(1)) {
        Err(Error::GitHub(m)) => assert_eq!(
            m,
            "GitHub CLI is not authenticated. Please run `gh auth login` to authenticate."
        ),
        other => panic!("unexpected {:?}", other),
    }
    match auth_check(false, Some(4)) {
        Err(Error::GitHub(m)) => assert_eq!(m, "GitHub CLI authentication check failed with exit code: 4"),
        other => panic!("unexpected {:?}", other),
    }
    match auth_check(false, None) {
        Err(Error::GitHub(m)) => assert_eq!(m, "GitHub CLI authentication check failed with exit code: -1"),
        other => panic!("unexpected {:?}", other),
    }
}

#[test]
fn gh_output_is_read_as_text() {
    assert_eq!(gh_output(true, "out".as_bytes(), "err".as_bytes()).unwrap(), "out");
    match gh_output(false, "out".as_bytes(), "err".as_bytes()) {
        Err(Error::GitHub(m)) => assert_eq!(m, "err"),
        other => panic!("unexpected {:?}", other),
    }
    assert_eq!(gh_output(true, &[b'a', 0xff], &[]).unwrap(), "a\u{fffd}");
}

#[test]
fn gh_arguments() {
    assert_eq!(
        list_query_args("tamada", "q"),
        vec!["api", "graphql", "--paginate", "--slurp", "-F", "owner=tamada", "-f", "query=q"]
    );
    assert_eq!(
        detail_query_args("tamada", "totebag", "q"),
        vec!["api", "graphql", "-F", "owner=tamada", "-F", "name=totebag", "-f", "query=q"]
    );
}

#[test]
fn listed_repositories_skip_missing_nodes() {
    let t1 = ts("2026-06-30T12:43:00Z");
    let t2 = ts("2026-01-15T08:00:00Z");
    let pages = vec![
        vec![Some(("fauxrest".to_string(), t1)), None],
        vec![],
        vec![Some(("totebag".to_string(), t2))],
    ];
    let got = listed_repositories(pages);
    assert_eq!(got, vec![("fauxrest".to_string(), t1), ("totebag".to_string(), t2)]);
}

#[test]
fn standard_streams_are_dashes() {
    assert!(opts("-", None).reads_stdin());
    assert!(!opts("in.json", None).reads_stdin());
    assert!(!opts("-x", None).reads_stdin());
    assert!(!opts("", None).reads_stdin());
    assert!(opts("-", None).output_file().is_none());
    assert!(opts("-", Some("-")).output_file().is_none());
    assert_eq!(opts("-", Some("out.json")).output_file().map(|s| s.as_str()), Some("out.json"));
}

#[test]
fn clock_readings_become_instants() {
    assert_eq!(instant_of_clock(Ok((5, 7))), Timestamp { secs: 5, nanos: 7 });
    assert_eq!(instant_of_clock(Err((1, 0))), Timestamp { secs: -1, nanos: 0 });
    assert_eq!(instant_of_clock(Err((1, 250_000_000))), Timestamp { secs: -2, nanos: 750_000_000 });
    assert_eq!(instant_of_clock(Ok((u64::MAX, 0))), Timestamp { secs: i64::MAX, nanos: 999_999_999 });
    assert_eq!(instant_of_clock(Err((u64::MAX, 1))), Timestamp { secs: i64::MIN, nanos: 0 });
    assert_eq!(instant_of_clock(Err((1u64 << 63, 0))), Timestamp { secs: i64::MIN, nanos: 0 });
}

#[test]
fn known_times_leave_the_clock_alone() {
    let items = parse_items(r#"[{"owner": "tamada", "name": "totebag"}]"#, false).unwrap();
    let u = ts("2026-06-15T00:00:00Z");
    let item = items.into_iter().next().unwrap();
    let p = api::updater::update_item(item, Some(u), Some(detail()));
    assert_eq!(p.last_updated, Some(u));
    let p = build_product(detail(), None, Vec::new(), Vec::new(), Vec::new(), None, &Vec::new());
    assert_eq!(p.last_updated, Some(ts("2026-06-01T00:00:00Z")));
}

#[test]
fn items_from_parsed_values() {
    let values = vec![
        Json::Object(vec![
            ("owner".to_string(), Json::Str("a".to_string())),
            ("name".to_string(), Json::Str("b".to_string())),
        ]),
        Json::Object(vec![
            ("owner".to_string(), Json::Str("a".to_string())),
            ("name".to_string(), Json::Str("c".to_string())),
            ("topics".to_string(), Json::Array(vec![])),
        ]),
    ];
    let items = items_from_values(&values, false).unwrap();
    assert!(matches!(items[0], InputItem::Base(_)));
    assert!(matches!(items[1], InputItem::Product(_)));
    let items = items_from_values(&values, true).unwrap();
    assert!(items.iter().all(|i| matches!(i, InputItem::Base(_))));
    match items_from_values(&vec![Json::Null], false) {
        Err(Error::Parse(m)) => assert_eq!(m, "the entry is not a valid base product"),
        other => panic!("unexpected {:?}", other),
    }
}
