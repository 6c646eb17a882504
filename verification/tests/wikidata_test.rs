use guesser_backend::wikidata::{parse_bindings, place_classes, row_fields_exec, sparql_query, LocationFields, SparqlBinding};

/// The result rows of a SPARQL JSON answer (empty if it cannot be read).
fn bindings_of(json: &str) -> Vec<SparqlBinding> {
    let value: serde_json::Value = match serde_json::from_str(json) {
        Ok(v) => v,
        Err(_) => return Vec::new(),
    };
    let rows = match value.get("results").and_then(|r| r.get("bindings")).and_then(|b| b.as_array()) {
        Some(rows) => rows,
        None => return Vec::new(),
    };
    rows.iter()
        .map(|row| SparqlBinding {
            item: row["item"]["value"].as_str().unwrap_or_default().to_string(),
            location: row["location"]["value"].as_str().unwrap_or_default().to_string(),
        })
        .collect()
}

fn parse_locations(json: &str) -> Vec<LocationFields> {
    parse_bindings(&bindings_of(json))
}

fn number(text: &str) -> f64 {
    text.parse().unwrap()
}

#[test]
fn parses_single_location() {
    let json = r#"
    {
        "results": {
            "bindings": [{
                "item": { "type": "uri", "value": "http://www.wikidata.org/entity/Q42" },
                "location": {
                    "type": "literal",
                    "value": "Point(2.3522 48.8566)"
                }
            }]
        }
    }"#;

    let locations = parse_locations(json);
    assert_eq!(locations.len(), 1);
    assert_eq!(locations[0].item_id.0, "Q42");
    assert!((number(&locations[0].longitude) - 2.3522).abs() < 1e-4);
    assert!((number(&locations[0].latitude) - 48.8566).abs() < 1e-4);
}

#[test]
fn parses_location_with_crs_prefix() {
    let json = r#"
    {
        "results": {
            "bindings": [{
                "item": { "type": "uri", "value": "http://www.wikidata.org/entity/Q25908933" },
                "location": {
                    "type": "literal",
                    "value": "<http://www.wikidata.org/entity/Q3123> Point(-79.92 -35.5)"
                }
            }]
        }
    }"#;

    let locations = parse_locations(json);
    assert_eq!(locations.len(), 1);
    assert_eq!(locations[0].item_id.0, "Q25908933");
    assert!((number(&locations[0].longitude) - (-79.92)).abs() < 1e-4);
    assert!((number(&locations[0].latitude) - (-35.5)).abs() < 1e-4);
}

#[test]
fn skips_malformed_bindings_gracefully() {
    let json = r#"
    {
        "results": {
            "bindings": [
                {
                    "item": { "value": "http://www.wikidata.org/entity/Q1" },
                    "location": { "value": "not a point" }
                },
                {
                    "item": { "value": "http://www.wikidata.org/entity/Q2" },
                    "location": { "value": "Point(10.0 20.0)" }
                }
            ]
        }
    }"#;

    let locations = parse_locations(json);
    assert_eq!(locations.len(), 1);
    assert_eq!(locations[0].item_id.0, "Q2");
}

#[test]
fn sparql_query_avoids_distinct_and_uses_place_classes() {
    let query = sparql_query(200, 42);
    assert!(!query.contains("DISTINCT"), "DISTINCT + OFFSET is slow on Blazegraph");
    assert!(query.contains("VALUES ?placeClass"), "query should use VALUES");
    assert!(query.contains("wd:Q515"), "query should list place classes");
    assert!(query.contains("?item wdt:P31 ?placeClass."), "query should filter P31");
    assert!(query.contains("?item wdt:P625 ?location."), "query should require coordinates");
    assert!(query.contains("?item wdt:P18 ?image."), "query should require a Wikimedia image");
    assert!(query.contains("LIMIT 200"));
    assert!(query.contains("OFFSET 42"));
}

#[test]
fn deduplicates_items_matching_multiple_place_classes() {
    let json = r#"
    {
        "results": {
            "bindings": [
                {
                    "item": { "value": "http://www.wikidata.org/entity/Q515" },
                    "location": { "value": "Point(2.3522 48.8566)" }
                },
                {
                    "item": { "value": "http://www.wikidata.org/entity/Q515" },
                    "location": { "value": "Point(2.3522 48.8566)" }
                }
            ]
        }
    }"#;

    let locations = parse_locations(json);
    assert_eq!(locations.len(), 1, "duplicate item rows must be collapsed");
}

#[test]
fn empty_bindings_returns_empty() {
    let json = r#"{ "results": { "bindings": [] } }"#;
    assert!(parse_locations(json).is_empty());
}

#[test]
fn malformed_first_row_still_claims_its_item() {
    let rows = vec![
        SparqlBinding { item: "http://x/entity/Q9".to_string(), location: "Point(1.0)".to_string() },
        SparqlBinding { item: "http://x/entity/Q9".to_string(), location: "Point(1.0 2.0)".to_string() },
        SparqlBinding { item: "http://x/entity/Q8".to_string(), location: "Point(3.0 4.0)".to_string() },
    ];
    let fields = parse_bindings(&rows);
    assert_eq!(fields.len(), 1);
    assert_eq!(fields[0].item_id.0, "Q8");
}

#[test]
fn row_fields_trims_and_splits() {
    let r = row_fields_exec("http://x/entity/Q1", "Point(  12.5   -3.25 ))").unwrap();
    assert_eq!(r, ("Q1".to_string(), "12.5".to_string(), "-3.25".to_string()));
    assert!(row_fields_exec("http://x/entity/Q1", "POINT(1 2)").is_none());
    // Text after a second "Point(" is ignored.
    let r = row_fields_exec("Q2", "Point(1 2 Point(3 4)").unwrap();
    assert_eq!(r, ("Q2".to_string(), "1".to_string(), "2".to_string()));
}

#[test]
fn query_lists_every_place_class() {
    let query = sparql_query(10, 0);
    for class in place_classes() {
        assert!(query.contains(class), "missing {class}");
    }
    assert!(query.contains("LIMIT 10"));
    assert!(query.contains("OFFSET 0"));
}
