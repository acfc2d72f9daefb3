use api::product::parse_items;
use api::time::Timestamp;
use api::updater::is_up_to_date;
use api::InputItem;

fn ts(text: &str) -> Timestamp {
    let d = text.parse::<chrono::DateTime<chrono::Utc>>().unwrap();
    Timestamp { secs: d.timestamp(), nanos: d.timestamp_subsec_nanos() }
}

#[test]
fn up_to_date_check() {
    let json = r#"[{"owner":"tamada","name":"totebag","logo":null,
        "url":"https://tamada.github.io/totebag",
        "repository":"https://github.com/tamada/totebag",
        "sbom":"https://api.github.com/repos/tamada/totebag/dependency-graph/sbom",
        "last_updated":"2026-06-01T00:00:00Z"}]"#;
    let items = parse_items(json, false).unwrap();
    if let InputItem::Product(p) = &items[0] {
        let older = ts("2026-05-01T00:00:00Z");
        let newer = ts("2026-07-01T00:00:00Z");
        assert!(is_up_to_date(p, Some(older)));
        assert!(!is_up_to_date(p, Some(newer)));
        assert!(!is_up_to_date(p, None));
    } else {
        panic!("expected a full product");
    }
}
