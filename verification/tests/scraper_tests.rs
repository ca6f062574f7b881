use polymarket_monitor::price_scraper::{
    chars_of, contains_text, event_page_url, extract_open_price_from_embedded_json,
    extract_price_from_children, extract_price_from_text, extract_price_to_beat_from_sections,
    parse_price_string, read_event_page, read_event_page_sections, PageSection,
};

fn section(text: &str, children: &[&str]) -> PageSection {
    PageSection { text: text.to_string(), children: children.iter().map(|c| c.to_string()).collect() }
}

#[test]
fn test_extract_open_price_from_embedded_json() {
    // Simulates embedded JSON from Polymarket event page (price to beat = 77,572.06)
    let html = r#"past windows..."openPrice":77461.786,"closePrice":77180.0},{"startTime":"2026-02-01T17:00:00.000Z","endTime":"2026-02-01T17:15:00.000Z","openPrice":77423.78,"closePrice":77572.06425014541},{"startTime":"2026-02-01T17:15:00.000Z","endTime":"2026-02-01T17:30:00.000Z","openPrice":77572.06425014541,"closePrice":77490.31},"dataUpdateCount":1"#;
    let open = extract_open_price_from_embedded_json(html);
    assert!(open.is_some());
    let p = open.unwrap();
    // 77572.06425014541 to the nearest unit
    assert!((p - 7_757_206_425_015).abs() < 100, "expected ~77572.06, got {}", p);
    assert_eq!(p, 7_757_206_425_015);
}

#[test]
fn target_price_scrape_takes_the_last_value() {
    let html = r#"..."openPrice":77423.78,"x":1},{"openPrice":77572.06425014541,"y":2},{"openPrice":77490.31}"#;
    assert_eq!(extract_open_price_from_embedded_json(html), Some(7_749_031_000_000));
}

#[test]
fn values_out_of_range_are_passed_over() {
    let html = r#"{"openPrice":9999.99,"a":{"openPrice":0.5},"openPrice":500000.01,"openPrice":-20000}"#;
    assert_eq!(extract_open_price_from_embedded_json(html), None);
    let html = r#"{"openPrice":77000.5,"later":{"openPrice":9.5},"openPrice":600000}"#;
    assert_eq!(extract_open_price_from_embedded_json(html), Some(7_700_050_000_000));
    // the bounds themselves are in range
    assert_eq!(
        extract_open_price_from_embedded_json(r#""openPrice":10000,"#),
        Some(1_000_000_000_000)
    );
    assert_eq!(
        extract_open_price_from_embedded_json(r#""openPrice":500000}"#),
        Some(50_000_000_000_000)
    );
}

#[test]
fn number_ends_at_comma_brace_space_or_end() {
    assert_eq!(extract_open_price_from_embedded_json(r#""openPrice":12345.5"#), Some(1_234_550_000_000));
    assert_eq!(
        extract_open_price_from_embedded_json(r#""openPrice":12345.5 rest"#),
        Some(1_234_550_000_000)
    );
    assert_eq!(extract_open_price_from_embedded_json(r#""openPrice":12345.5]"#), None);
    assert_eq!(extract_open_price_from_embedded_json(r#""openPrice":"12345.5","#), None);
    assert_eq!(extract_open_price_from_embedded_json(r#""openPrice": 12345.5,"#), None);
    assert_eq!(extract_open_price_from_embedded_json(r#""openPrice":,"#), None);
    assert_eq!(extract_open_price_from_embedded_json(r#""openPrice":"#), None);
    assert_eq!(extract_open_price_from_embedded_json(""), None);
    assert_eq!(extract_open_price_from_embedded_json(r#""openprice":12345.5,"#), None);
}

#[test]
fn page_text_around_the_prices_may_be_anything() {
    let html = "<p>Bitcoin → ↑ é</p>\"openPrice\":88000.25,<b>ü</b>\"openPrice\":abc,";
    assert_eq!(extract_open_price_from_embedded_json(html), Some(8_800_025_000_000));
    assert_eq!(chars_of("a→b"), vec!['a', '→', 'b']);
    assert!(chars_of("").is_empty());
}

#[test]
fn event_page_answers() {
    let html = r#"{"openPrice":77490.31}"#;
    let data = read_event_page(200, html).unwrap();
    assert_eq!(data.open_price, 7_749_031_000_000);
    assert_eq!(data.close_price, None);
    assert!(data.start_time.is_none() && data.end_time.is_none());
    assert!(read_event_page(404, html).is_none());
    assert!(read_event_page(500, html).is_none());
    assert!(read_event_page(200, "<html></html>").is_none());
    assert_eq!(
        event_page_url("btc-updown-15m-1769959800"),
        "https://polymarket.com/event/btc-updown-15m-1769959800"
    );
}

#[test]
fn written_prices_are_read() {
    assert_eq!(parse_price_string("$12,345.67"), Some(1_234_567_000_000));
    assert_eq!(parse_price_string("12345.67"), Some(1_234_567_000_000));
    assert_eq!(parse_price_string("  $ 77,490.31 USD "), Some(7_749_031_000_000));
    assert_eq!(parse_price_string("-5"), Some(-500_000_000));
    assert_eq!(parse_price_string("price to beat"), None);
    assert_eq!(parse_price_string(""), None);
    assert_eq!(parse_price_string("$"), None);
    assert_eq!(parse_price_string("1.2.3"), None);
    assert_eq!(parse_price_string("7-7"), None);
}

#[test]
fn last_written_price_in_a_text_wins() {
    assert_eq!(extract_price_from_text("price to beat $77,490.31"), Some(7_749_031_000_000));
    assert_eq!(
        extract_price_from_text("was $77,000.00, now $77,490.31 (up)"),
        Some(7_749_031_000_000)
    );
    assert_eq!(extract_price_from_text("15 min window, beat 77490"), Some(7_749_000_000_000));
    assert_eq!(extract_price_from_text("no numbers here $ or there"), None);
    assert_eq!(extract_price_from_text(""), None);
    // a run that reads as no number is passed over
    assert_eq!(extract_price_from_text("$5 then 1.2.3"), Some(500_000_000));
    assert_eq!(extract_price_from_text("$$7"), Some(700_000_000));
}

#[test]
fn target_price_from_page_blocks() {
    let sections = vec![
        section("Volume $1,200,000", &["Volume", "$1,200,000"]),
        section("Price To Beat $77,490.31", &["Price To Beat", " $77,490.31 "]),
        section("price to beat $1", &["price to beat", "$1"]),
    ];
    assert_eq!(extract_price_to_beat_from_sections(&sections), Some(7_749_031_000_000));
    let data = read_event_page_sections(&sections).unwrap();
    assert_eq!(data.open_price, 7_749_031_000_000);
    assert_eq!(data.close_price, None);
    // the last element that reads as a price is taken
    assert_eq!(
        extract_price_from_children(&vec!["10".to_string(), "x".to_string(), "20".to_string(), "".to_string()]),
        Some(2_000_000_000)
    );
    assert_eq!(extract_price_from_children(&vec!["PRICE TO BEAT".to_string(), "  ".to_string()]), None);
    assert_eq!(extract_price_from_children(&vec![]), None);
    // without elements that show a price the text of the block is scanned
    let sections = vec![section("PRICE TO BEAT: $88,000.5", &["PRICE TO BEAT"])];
    assert_eq!(extract_price_to_beat_from_sections(&sections), Some(8_800_050_000_000));
    // a block with the label and no price is passed over
    let sections = vec![
        section("price to beat", &["price to beat"]),
        section("the Price to Beat is 5", &[]),
    ];
    assert_eq!(extract_price_to_beat_from_sections(&sections), Some(500_000_000));
    let sections = vec![section("Volume $1", &["$1"])];
    assert_eq!(extract_price_to_beat_from_sections(&sections), None);
    assert!(read_event_page_sections(&vec![]).is_none());
}

#[test]
fn texts_hold_patterns() {
    assert!(contains_text("the price to beat is", "price to beat"));
    assert!(contains_text("price to beat", "price to beat"));
    assert!(!contains_text("price to bea", "price to beat"));
    assert!(!contains_text("Price To Beat", "price to beat"));
    assert!(contains_text("abc", ""));
    assert!(contains_text("", ""));
    assert!(!contains_text("", "a"));
    assert!(contains_text("aab", "ab"));
}
