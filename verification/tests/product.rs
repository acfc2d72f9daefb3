use api::github::{OwnerNode, RepoDetail};
use api::json::{get, Json};
use api::product::{build_product, parse_items};
use api::time::Timestamp;
use api::{Error, InputItem, Link, LinkSpec};

const BASE_JSON: &str = r#"[
    {"owner": "tamada", "name": "fauxrest", "logo": "https://example.com/logo.svg"},
    {"owner": "tamada", "name": "pick-a-boo", "service": "github",
     "overrides": {"url": "https://crates.io/crates/pick-a-boo"}}
]"#;

const MIXED_JSON: &str = r#"[
    {"owner": "tamada", "name": "fauxrest", "logo": null},
    {"owner": "tamada", "name": "totebag",
     "releases": [{"name": "v0.7.5", "release_date": "2025-01-01T00:00:00Z", "description": ""}],
     "license": [{"spdx": "mit", "name": "MIT License", "url": null}],
     "links": [{"label": "www", "url": "https://tamada.github.io/totebag"},
               {"label": "repository", "url": "https://github.com/tamada/totebag"}],
     "languages": ["Rust"],
     "topics": ["archive"],
     "last_updated": "2025-06-01T00:00:00Z"}
]"#;

const LINKS_JSON: &str = r#"[
    {"owner": "tamada", "name": "fauxrest",
     "links": [{"label": "logo", "url": "https://example.com/fauxrest.svg"},
               {"label": "registry", "url": "https://crates.io/crates/fauxrest"},
               "sbom", "repository", "www", "docs"]}
]"#;

fn text_of<'a>(map: &'a Vec<(String, Json)>, key: &str) -> Option<&'a str> {
    get(map, key).and_then(|v| v.as_text()).map(|s| s.as_str())
}

fn ts(text: &str) -> Timestamp {
    let d = text.parse::<chrono::DateTime<chrono::Utc>>().unwrap();
    Timestamp { secs: d.timestamp(), nanos: d.timestamp_subsec_nanos() }
}

/// Builds a [`RepoDetail`] carrying the URLs reported by GitHub.
fn repo_detail(homepage_url: &str) -> RepoDetail {
    RepoDetail {
        name: "totebag".to_string(),
        owner: OwnerNode { login: "tamada".to_string() },
        description: None,
        homepage_url: Some(homepage_url.to_string()),
        url: "https://github.com/tamada/totebag-renamed".to_string(),
        created_at: ts("2024-01-01T00:00:00Z"),
        last_modified_at: None,
        is_archived: false,
        license_info: None,
        languages: None,
        latest_release: None,
        topics: None,
    }
}

#[test]
fn parse_base_products() -> Result<(), Error> {
    let items = parse_items(BASE_JSON, false)?;
    assert_eq!(items.len(), 2);
    assert!(matches!(items[0], InputItem::Base(_)));
    if let InputItem::Base(b) = &items[1] {
        assert_eq!(b.service, "github");
        assert_eq!(text_of(&b.overrides, "url"), Some("https://crates.io/crates/pick-a-boo"));
    }
    Ok(())
}

#[test]
fn parse_mixed_products() -> Result<(), Error> {
    let items = parse_items(MIXED_JSON, false)?;
    assert_eq!(items.len(), 2);
    assert!(matches!(items[0], InputItem::Base(_)));
    match &items[1] {
        InputItem::Product(p) => {
            assert_eq!(p.name, "totebag");
            assert_eq!(p.releases.len(), 1);
            assert_eq!(p.license[0].spdx, "mit");
            assert_eq!(p.links.len(), 2);
            assert!(p.last_updated.is_some());
        }
        _ => panic!("expected a full product"),
    }
    Ok(())
}

#[test]
fn parse_forced_base() -> Result<(), Error> {
    let items = parse_items(BASE_JSON, true)?;
    assert!(items.iter().all(|i| matches!(i, InputItem::Base(_))));
    Ok(())
}

#[test]
fn base_to_product_defaults() {
    let json = r#"[{"owner": "tamada", "name": "fauxrest",
        "logo": "https://example.com/logo.svg",
        "links": ["www", "repository", "sbom"]}]"#;
    let items = parse_items(json, false).unwrap();
    if let InputItem::Base(b) = &items[0] {
        let p = b.to_product();
        let links = p.links.iter()
            .map(|l| (l.label.as_str(), l.url.as_str()))
            .collect::<Vec<_>>();
        // the `logo` key of the base product becomes the first link, and
        // the bare types are derived from the owner and the name.
        assert_eq!(links, vec![
            ("logo", "https://example.com/logo.svg"),
            ("www", "https://tamada.github.io/fauxrest"),
            ("repository", "https://github.com/tamada/fauxrest"),
            ("sbom", "https://api.github.com/repos/tamada/fauxrest/dependency-graph/sbom"),
        ]);
    } else {
        panic!("expected a base product");
    }
}

#[test]
fn retired_keys_never_reach_the_output() {
    let items = parse_items(BASE_JSON, false).unwrap();
    if let InputItem::Base(b) = &items[1] {
        let p = b.to_product();
        // `url` is not a field anymore, hence the override cannot bring it
        // back through the other keys.
        assert!(get(&p.others, "url").is_none());
        // overrides themselves are kept for the next refresh.
        assert_eq!(text_of(&p.overrides, "url"), Some("https://crates.io/crates/pick-a-boo"));
    } else {
        panic!("expected a base product");
    }
}

#[test]
fn resolve_links_of_base_product() {
    let items = parse_items(LINKS_JSON, false).unwrap();
    if let InputItem::Base(b) = &items[0] {
        let p = b.to_product();
        let labels = p.links.iter().map(|l| l.label.as_str()).collect::<Vec<_>>();
        // `docs` has no URL to derive, hence it is dropped.
        assert_eq!(labels, vec!["logo", "registry", "sbom", "repository", "www"]);
        assert_eq!(
            p.links[2].url,
            "https://api.github.com/repos/tamada/fauxrest/dependency-graph/sbom"
        );
        assert_eq!(p.links[3].url, "https://github.com/tamada/fauxrest");
        assert_eq!(p.links[4].url, "https://tamada.github.io/fauxrest");
    } else {
        panic!("expected a base product");
    }
}

#[test]
fn overrides_replace_the_whole_links() {
    let json = r#"[{"owner": "tamada", "name": "pick-a-boo",
        "overrides": {"links": [{"label": "registry", "url": "https://crates.io/crates/pick-a-boo"}]},
        "links": ["www", "repository"]}]"#;
    let items = parse_items(json, false).unwrap();
    if let InputItem::Base(b) = &items[0] {
        let p = b.to_product();
        assert_eq!(p.links.len(), 1);
        assert_eq!(p.links[0].label, "registry");
        assert_eq!(p.links[0].url, "https://crates.io/crates/pick-a-boo");
    } else {
        panic!("expected a base product");
    }
}

#[test]
fn fetched_urls_win_over_the_derived_ones() {
    let links = vec![
        LinkSpec::Type("www".to_string()),
        LinkSpec::Type("repository".to_string()),
        LinkSpec::Type("sbom".to_string()),
    ];
    let p = build_product(
        repo_detail("https://totebag.example.com"),
        None,
        Vec::new(),
        Vec::new(),
        Vec::new(),
        None,
        &links,
    );
    assert_eq!(p.links[0].url, "https://totebag.example.com");
    // the repository may have been renamed, so the fetched URL is used.
    assert_eq!(p.links[1].url, "https://github.com/tamada/totebag-renamed");
    // GitHub does not report the SBOM URL, hence it stays derived.
    assert_eq!(
        p.links[2].url,
        "https://api.github.com/repos/tamada/totebag/dependency-graph/sbom"
    );
}

#[test]
fn blank_homepage_falls_back_to_the_derived_url() {
    let links = vec![LinkSpec::Type("www".to_string())];
    let p = build_product(
        repo_detail("   "),
        None,
        Vec::new(),
        Vec::new(),
        Vec::new(),
        None,
        &links,
    );
    assert_eq!(p.links[0].url, "https://tamada.github.io/totebag");
}

#[test]
fn explicit_link_wins_over_the_fetched_url() {
    let links = vec![LinkSpec::Link(Link {
        label: "www".to_string(),
        url: "https://crates.io/crates/totebag".to_string(),
    })];
    let p = build_product(
        repo_detail("https://totebag.example.com"),
        None,
        Vec::new(),
        Vec::new(),
        Vec::new(),
        None,
        &links,
    );
    assert_eq!(p.links[0].url, "https://crates.io/crates/totebag");
}

#[test]
fn overrides_ignore_protected_keys() {
    let json = r#"[{"owner": "tamada", "name": "fauxrest",
        "overrides": {"name": "renamed", "description": "overridden"}}]"#;
    let items = parse_items(json, false).unwrap();
    if let InputItem::Base(b) = &items[0] {
        let p = b.to_product();
        assert_eq!(p.name, "fauxrest");
        assert_eq!(p.description.as_deref(), Some("overridden"));
    } else {
        panic!("expected a base product");
    }
}
