use api::github::{detail_from_value, listing_from_values, parse_detail, parse_list};
use api::json::Json;
use api::time::Timestamp;
use api::Error;

fn rfc3339(t: &Timestamp) -> String {
    chrono::DateTime::<chrono::Utc>::from_timestamp(t.secs, t.nanos).unwrap().to_rfc3339()
}

#[test]
fn parse_list_pages() -> Result<(), Error> {
    let json = r#"[{"data":{"user":{"repositories":{"totalCount":2,"nodes":[
        {"name":"fauxrest","description":null,"isArchived":false,"isPrivate":false,
         "createdAt":"2025-05-01T00:00:00Z","updatedAt":"2026-06-30T12:43:00Z"},
        {"name":"totebag","description":"archiver","isArchived":false,"isPrivate":false,
         "createdAt":"2024-01-01T00:00:00Z","updatedAt":"2026-01-15T08:00:00Z"}
    ],"pageInfo":{"endCursor":"abc","hasNextPage":false}}}}}]"#;
    let map = parse_list(json)?;
    assert_eq!(map.len(), 2);
    assert_eq!(
        map.iter().rev().find(|(n, _)| n == "fauxrest").map(|(_, d)| rfc3339(d)),
        Some("2026-06-30T12:43:00+00:00".to_string())
    );
    Ok(())
}

#[test]
fn listing_pages_are_joined_and_checked() {
    let json = r#"[
        {"data":{"user":{"repositories":{"nodes":[null,{"name":"a","updatedAt":"2026-01-01T00:00:00Z"}]}}}},
        {"data":{"user":{"repositories":{"nodes":[["b","2026-02-01T00:00:00+09:00"]]}}}}
    ]"#;
    let list = parse_list(json).unwrap();
    let names: Vec<&str> = list.iter().map(|(n, _)| n.as_str()).collect();
    assert_eq!(names, vec!["a", "b"]);
    assert_eq!(rfc3339(&list[1].1), "2026-01-31T15:00:00+00:00");
    assert!(matches!(parse_list("[]"), Ok(v) if v.is_empty()));
    assert!(matches!(parse_list("{}"), Err(Error::Parse(_))));
    match parse_list(r#"[{"data":{"user":{"repositories":{"nodes":[{"name":"a"}]}}}}]"#) {
        Err(Error::Parse(m)) => assert_eq!(m, "the reply is not a list of repository pages"),
        other => panic!("unexpected {:?}", other),
    }
}

#[test]
fn parse_detail_response() -> Result<(), Error> {
    let json = r#"{"data":{"repository":{
        "name":"totebag","owner":{"login":"tamada"},
        "description":"A tool for archiving/extracting files",
        "homepageUrl":"https://tamada.github.io/totebag",
        "url":"https://github.com/tamada/totebag",
        "createdAt":"2024-01-01T00:00:00Z",
        "lastModifiedAt":"2026-06-01T00:00:00Z",
        "isArchived":false,"isPrivate":false,"visibility":"PUBLIC","diskUsage":1234,
        "licenseInfo":{"spdx":"mit","name":"MIT License","url":"https://api.github.com/licenses/mit"},
        "primaryLanguage":{"name":"Rust","color":"\\#dea584"},
        "languages":{"nodes":[{"name":"Rust","color":"\\#dea584"},{"name":"Shell","color":null}]},
        "latestRelease":{"name":"Release v0.7.6","tagName":"v0.7.6",
          "url":"https://github.com/tamada/totebag/releases/tag/v0.7.6",
          "description":"bug fix","isDraft":false,
          "createdAt":"2026-05-30T00:00:00Z","publishedAt":"2026-06-01T00:00:00Z"},
        "repositoryTopics":{"nodes":[{"topic":{"name":"archive"},"url":"https://github.com/topics/archive"}]},
        "collaborators":{"totalCount":2},
        "stargazerCount":10,"forkCount":2,"watchers":{"totalCount":3}}}}"#;
    let detail = parse_detail(json)?;
    assert_eq!(detail.name, "totebag");
    assert_eq!(detail.owner.login, "tamada");
    assert_eq!(detail.license_info.as_ref().map(|l| l.spdx.as_deref()), Some(Some("mit")));
    assert_eq!(detail.languages.as_ref().map(|l| l.nodes.len()), Some(2));
    assert_eq!(detail.latest_release.as_ref().map(|r| r.tag_name.as_str()), Some("v0.7.6"));
    Ok(())
}

#[test]
fn detail_fields_have_their_defaults() {
    let json = r#"{"data":{"repository":{"name":"x","owner":{"login":"o"},
        "url":"https://github.com/o/x","createdAt":"2024-01-01T00:00:00Z",
        "licenseInfo":{"name":"Other"},"latestRelease":null}}}"#;
    let d = parse_detail(json).unwrap();
    assert!(d.description.is_none());
    assert!(!d.is_archived);
    assert!(d.latest_release.is_none());
    assert!(d.languages.is_none());
    let l = d.license_info.unwrap();
    assert!(l.spdx.is_none());
    assert!(l.url.is_none());
    assert_eq!(rfc3339(&d.created_at), "2024-01-01T00:00:00+00:00");
    match parse_detail(r#"{"data":{"repository":{"name":"x"}}}"#) {
        Err(Error::Parse(m)) => assert_eq!(m, "the reply is not a repository detail"),
        other => panic!("unexpected {:?}", other),
    }
    assert!(matches!(parse_detail("{"), Err(Error::Parse(_))));
}

#[test]
fn replies_from_parsed_values() {
    let node = Json::Array(vec![
        Json::Str("a".to_string()),
        Json::Str("2026-01-01T00:00:00Z".to_string()),
    ]);
    let page = Json::Array(vec![Json::Array(vec![Json::Array(vec![Json::Array(vec![Json::Array(vec![
        Json::Null, node,
    ])])])])]);
    let list = listing_from_values(&vec![page]).unwrap();
    assert_eq!(list.len(), 1);
    assert_eq!(list[0].0, "a");
    assert!(matches!(listing_from_values(&vec![Json::Null]), Err(Error::Parse(_))));
    let repo = Json::Object(vec![
        ("name".to_string(), Json::Str("x".to_string())),
        ("owner".to_string(), Json::Object(vec![("login".to_string(), Json::Str("o".to_string()))])),
        ("url".to_string(), Json::Str("https://github.com/o/x".to_string())),
        ("createdAt".to_string(), Json::Str("2024-01-01T00:00:00Z".to_string())),
        ("isArchived".to_string(), Json::Bool(true)),
    ]);
    let reply = Json::Object(vec![(
        "data".to_string(),
        Json::Object(vec![("repository".to_string(), repo)]),
    )]);
    let d = detail_from_value(&reply).unwrap();
    assert_eq!(d.name, "x");
    assert_eq!(d.owner.login, "o");
    assert!(d.is_archived);
    assert!(matches!(detail_from_value(&Json::Null), Err(Error::Parse(_))));
}
