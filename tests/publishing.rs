use adoptme_processor::json::set_json_value;
use adoptme_processor::publish::{
    build_offer_payload, extract_image_refs, offer_outcome, qualifies_for_publication,
};
use adoptme_processor::{EldoradoListing, ListingError, UploadedImageInfo};
use serde_json::Value;

fn parse(text: &str) -> Value {
    serde_json::from_str(text).unwrap()
}

fn listing(min_potions: u64) -> EldoradoListing {
    EldoradoListing {
        title: "Bundle".to_string(),
        min_potions,
        min_bucks: 10,
        image_path: "img.png".to_string(),
        description: "desc".to_string(),
        accounts: vec!["s1".to_string(), "s2".to_string(), "s3".to_string()],
        sell_price: "12.50".to_string(),
    }
}

#[test]
fn single_key_set_keeps_siblings() {
    let mut doc = parse(r#"{"a": 1, "b": {"c": true}, "d": "x"}"#);
    set_json_value(&mut doc, &["a"], Value::String("new".to_string())).unwrap();
    assert_eq!(doc, parse(r#"{"a": "new", "b": {"c": true}, "d": "x"}"#));
    set_json_value(&mut doc, &["e"], Value::Bool(false)).unwrap();
    assert_eq!(doc, parse(r#"{"a": "new", "b": {"c": true}, "d": "x", "e": false}"#));
}

#[test]
fn non_object_on_the_way_is_replaced() {
    let mut doc = parse(r#"{"details": "scalar", "keep": 3}"#);
    set_json_value(&mut doc, &["details", "offerTitle"], Value::String("T".to_string())).unwrap();
    assert_eq!(doc, parse(r#"{"details": {"offerTitle": "T"}, "keep": 3}"#));
}

#[test]
fn missing_objects_are_created() {
    let mut doc = parse("{}");
    set_json_value(&mut doc, &["x", "y", "z"], Value::Bool(true)).unwrap();
    assert_eq!(doc, parse(r#"{"x": {"y": {"z": true}}}"#));
    let mut top = parse("[1, 2]");
    set_json_value(&mut top, &["k"], Value::Null).unwrap();
    assert_eq!(top, parse(r#"{"k": null}"#));
}

#[test]
fn nested_set_keeps_nested_siblings() {
    let mut doc = parse(r#"{"details": {"pricing": {"quantity": 1, "other": 2}, "t": "x"}}"#);
    set_json_value(&mut doc, &["details", "pricing", "quantity"], Value::from(5u64)).unwrap();
    assert_eq!(doc, parse(r#"{"details": {"pricing": {"quantity": 5, "other": 2}, "t": "x"}}"#));
}

#[test]
fn empty_path_is_refused() {
    let mut doc = parse(r#"{"a": 1}"#);
    let r = set_json_value(&mut doc, &[], Value::Null);
    assert_eq!(r, Err(ListingError::InvalidArgument));
    assert_eq!(doc, parse(r#"{"a": 1}"#));
}

#[test]
fn two_local_paths_are_malformed() {
    let response = parse(r#"{"localPaths": ["/offerimages/aSmall.png", "/offerimages/aLarge.png"]}"#);
    assert!(matches!(extract_image_refs(&response), Err(ListingError::MalformedResponse)));
}

#[test]
fn three_local_paths_give_file_names() {
    let response = parse(
        r#"{"localPaths": ["/offerimages/aSmall.png", "/offerimages/aLarge.png", "/offerimages/aOriginal.png", "/x/extra.png"]}"#,
    );
    let refs = extract_image_refs(&response).unwrap();
    assert_eq!(refs.small, "aSmall.png");
    assert_eq!(refs.large, "aLarge.png");
    assert_eq!(refs.original, "aOriginal.png");
}

#[test]
fn unusable_entries_are_skipped() {
    let response = parse(r#"{"localPaths": [5, "/i/s.png", null, "/i/l.png", "/i/o.png"]}"#);
    let refs = extract_image_refs(&response).unwrap();
    assert_eq!(refs.small, "s.png");
    assert_eq!(refs.large, "l.png");
    assert_eq!(refs.original, "o.png");
    let response = parse(r#"{"localPaths": ["/i/s.png", 1, 2, "/i/l.png"]}"#);
    assert!(matches!(extract_image_refs(&response), Err(ListingError::MalformedResponse)));
}

#[test]
fn missing_local_paths_are_malformed() {
    for text in [r#"{"paths": []}"#, r#"{"localPaths": "a,b,c"}"#, r#"["a", "b", "c"]"#] {
        assert!(matches!(extract_image_refs(&parse(text)), Err(ListingError::MalformedResponse)));
    }
}

#[test]
fn small_buckets_are_not_published() {
    assert!(!qualifies_for_publication(&listing(0)));
    assert!(!qualifies_for_publication(&listing(180)));
    assert!(!qualifies_for_publication(&listing(199)));
    assert!(qualifies_for_publication(&listing(200)));
    assert!(qualifies_for_publication(&listing(400)));
}

#[test]
fn status_decides_the_outcome() {
    assert_eq!(offer_outcome(200, "ok".to_string()), Ok(()));
    assert_eq!(offer_outcome(299, String::new()), Ok(()));
    assert_eq!(
        offer_outcome(404, "missing".to_string()),
        Err(ListingError::HttpFailure { status: 404, body: "missing".to_string() })
    );
    assert_eq!(
        offer_outcome(199, String::new()),
        Err(ListingError::HttpFailure { status: 199, body: String::new() })
    );
}

#[test]
fn payload_merges_listing_into_template() {
    let template = parse(
        r#"{"game": "adoptme", "details": {"offerTitle": "old", "pricing": {"currency": "USD"}, "mainOfferImage": "none"}, "accountSecretDetails": []}"#,
    );
    let images = UploadedImageInfo {
        small: "s.png".to_string(),
        large: "l.png".to_string(),
        original: "o.png".to_string(),
    };
    let payload = build_offer_payload(&template, &listing(220), "Instant", 1250, &images);
    let expected = parse(
        r#"{
            "game": "adoptme",
            "details": {
                "offerTitle": "Bundle",
                "description": "desc",
                "guaranteedDeliveryTime": "Instant",
                "pricing": {"currency": "USD", "quantity": 3, "pricePerUnit": {"amount": 1250}},
                "mainOfferImage": {"smallImage": "s.png", "largeImage": "l.png", "originalSizeImage": "o.png"}
            },
            "accountSecretDetails": ["s1", "s2", "s3"]
        }"#,
    );
    assert_eq!(payload, expected);
    assert_eq!(template["details"]["offerTitle"], Value::String("old".to_string()));
}
