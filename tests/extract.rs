use refuel::error::{ErrorKind, ParseError};
use refuel::markup::{collect_items, RawItem};
use refuel::parse::{accepted, extract_item, parse, parse_price, parse_text, parse_updated, DEFAULT_YEAR};

fn item(name: Option<&str>, addr: &str, updated: &str, price: &str) -> String {
    let mut s = String::from("<div class=\"PriceList__item\">");
    if let Some(n) = name {
        s.push_str(&format!("<div class=\"PriceList__itemTitle\">{}</div>", n));
    }
    s.push_str(&format!("<div class=\"PriceList__itemSubtitle\">{}</div>", addr));
    s.push_str(&format!("<div class=\"PriceList__itemUpdated\">{}</div>", updated));
    s.push_str(&format!("<div class=\"PriceList__itemPrice\">{}</div>", price));
    s.push_str("</div>");
    s
}

fn document(items: &[String]) -> String {
    let mut s = String::from("<html><head><title>prices</title></head><body><div class=\"PriceList\">");
    for i in items {
        s.push_str(i);
    }
    s.push_str("<div class=\"PriceList__item list-ad\"><div class=\"PriceList__itemTitle\">Ad</div></div>");
    s.push_str("</div></body></html>");
    s
}

const T_14_30: i64 = 1683901800;

fn within_a_day(t: i64, utc: i64) -> bool {
    (t - utc).abs() < 86400
}

#[test]
fn snapshot_with_placeholders_yields_benign_skips_only() {
    let doc = document(&[
        item(Some(" MyESSO "), "Marienfelder Chaussee 171, 12349 Berlin", "12.05. 14:30", "1.78<sup>9</sup>"),
        item(Some("MyJET"), "Rhinstr. 240, 13055 Berlin", "12.05. 14:35", "1.79<sup>8</sup>"),
        item(Some("MyHEM"), "Wittestr. 16, 13509 Berlin", "12.05. 14:30", "-.--<sup>-</sup>"),
        item(Some("MySTAR"), "Prenzlauer Promenade 72-73, 13089 Berlin", "   ", "1.77<sup>9</sup>"),
        item(Some("MySHELL"), "Bundesallee 200, 10717 Berlin", "12.05. 09:05", "1.82<sup>9</sup>"),
    ]);
    let outcomes = parse(&doc).unwrap();
    assert_eq!(outcomes.len(), 5);
    let benign = outcomes.iter().filter(|o| matches!(o, Err(e) if e.is_benign())).count();
    let errors = outcomes.iter().filter(|o| matches!(o, Err(e) if !e.is_benign())).count();
    assert_eq!(benign, 2);
    assert_eq!(errors, 0);
    assert_eq!(outcomes[2].as_ref().unwrap_err().kind(), ErrorKind::InvalidPrice);
    assert_eq!(outcomes[3].as_ref().unwrap_err().kind(), ErrorKind::InvalidUpdated);
    let records = accepted(outcomes);
    assert_eq!(records.len(), 3);
    assert_eq!(records[0].station.name, "MyESSO");
    assert_eq!(records[0].station.addr, "Marienfelder Chaussee 171, 12349 Berlin");
    assert_eq!(records[0].price_change.price, [1, 78, 9]);
    assert!(within_a_day(records[0].price_change.updated, T_14_30));
    assert_eq!(records[1].station.name, "MyJET");
    assert_eq!(records[1].price_change.price, [1, 79, 8]);
    assert_eq!(records[1].price_change.updated - records[0].price_change.updated, 300);
    assert_eq!(records[2].station.name, "MySHELL");
    assert_eq!(records[2].price_change.price, [1, 82, 9]);
}

#[test]
fn missing_name_node_is_a_select_error_and_others_continue() {
    let doc = document(&[
        item(Some("MyESSO"), "Marienfelder Chaussee 171", "12.05. 14:30", "1.78<sup>9</sup>"),
        item(None, "Rhinstr. 240", "12.05. 14:35", "1.79<sup>8</sup>"),
        item(Some("MySHELL"), "Bundesallee 200", "12.05. 09:05", "1.82<sup>9</sup>"),
    ]);
    let outcomes = parse(&doc).unwrap();
    assert_eq!(outcomes.len(), 3);
    match &outcomes[1] {
        Err(ParseError::HtmlSelectError { selector, .. }) => assert_eq!(selector, ".PriceList__itemTitle"),
        other => panic!("unexpected outcome {:?}", other),
    }
    assert!(!outcomes[1].as_ref().unwrap_err().is_benign());
    let records = accepted(outcomes);
    assert_eq!(records.len(), 2);
    assert_eq!(records[0].station.name, "MyESSO");
    assert_eq!(records[1].station.name, "MySHELL");
}

#[test]
fn document_without_list_is_rejected() {
    let r = parse("<html><body><p>maintenance</p></body></html>");
    assert_eq!(r, Err(ParseError::ListNotFoundError));
    assert_eq!(collect_items("<div class=\"Other\"></div>"), Err(ParseError::ListNotFoundError));
}

#[test]
fn advertisements_are_left_out() {
    let doc = document(&[item(Some("A"), "B", "01.01. 00:00", "1.00<sup>0</sup>")]);
    let items = collect_items(&doc).unwrap();
    assert_eq!(items.len(), 1);
    assert_eq!(items[0].name.as_deref(), Some("A"));
    assert_eq!(items[0].price.as_deref(), Some("1.00<sup>0</sup>"));
}

#[test]
fn empty_list_gives_no_outcomes() {
    let outcomes = parse("<div class=\"PriceList\"></div>").unwrap();
    assert!(outcomes.is_empty());
}

fn raw(updated: &str, price: &str) -> RawItem {
    RawItem {
        html: String::from("<entry>"),
        name: Some(String::from("Station")),
        addr: Some(String::from("Street 1")),
        updated: Some(String::from(updated)),
        price: Some(String::from(price)),
    }
}

#[test]
fn text_is_trimmed_to_word_boundaries() {
    let html = String::from("<entry>");
    assert_eq!(parse_text(&html, &Some(String::from("  Total Energies \n")), "x"), Ok(String::from("Total Energies")));
    assert_eq!(
        parse_text(&html, &Some(String::from(" -- ")), "x").unwrap_err().kind(),
        ErrorKind::RegexMismatch
    );
    assert_eq!(parse_text(&html, &None, ".sel").unwrap_err(), ParseError::HtmlSelectError {
        html: String::from("<entry>"),
        selector: String::from(".sel"),
    });
}

#[test]
fn price_is_read_from_its_digits() {
    let html = String::from("<entry>");
    assert_eq!(parse_price(&html, &Some(String::from("1.78<sup>9</sup>"))), Ok([1, 78, 9]));
    assert_eq!(parse_price(&html, &Some(String::from(" 2.05 <span>x</span> <sup>0</sup> "))), Ok([2, 5, 0]));
    assert_eq!(parse_price(&html, &Some(String::from("-.--"))).unwrap_err().kind(), ErrorKind::InvalidPrice);
    assert_eq!(parse_price(&html, &Some(String::from("n/a"))).unwrap_err().kind(), ErrorKind::RegexMismatch);
    assert_eq!(parse_price(&html, &None).unwrap_err().kind(), ErrorKind::HtmlSelect);
}

#[test]
fn updated_is_read_in_local_time() {
    let html = String::from("<entry>");
    let t = parse_updated(&html, &Some(String::from("12.05. 14:30"))).unwrap();
    assert!(within_a_day(t, T_14_30));
    let t2 = parse_updated(&html, &Some(String::from("Stand: 12.05.,14:35 Uhr"))).unwrap();
    assert_eq!(t2 - t, 300);
    assert_eq!(DEFAULT_YEAR, 2023);
}

#[test]
fn updated_failures_are_classified() {
    let html = String::from("<entry>");
    assert_eq!(parse_updated(&html, &Some(String::from(" \n\t "))).unwrap_err().kind(), ErrorKind::InvalidUpdated);
    assert_eq!(parse_updated(&html, &Some(String::new())).unwrap_err().kind(), ErrorKind::InvalidUpdated);
    assert_eq!(parse_updated(&html, &Some(String::from("yesterday"))).unwrap_err().kind(), ErrorKind::RegexMismatch);
    assert_eq!(parse_updated(&html, &Some(String::from("31.02. 10:00"))).unwrap_err().kind(), ErrorKind::Timestamp);
    assert_eq!(parse_updated(&html, &Some(String::from("12.13. 10:00"))).unwrap_err().kind(), ErrorKind::Timestamp);
    assert_eq!(
        parse_updated(&html, &Some(String::from("\u{0661}\u{0662}.05. 10:00"))).unwrap_err().kind(),
        ErrorKind::ParseInt
    );
    assert_eq!(parse_updated(&html, &None).unwrap_err().kind(), ErrorKind::HtmlSelect);
}

#[test]
fn first_failing_field_is_reported() {
    let mut it = raw("   ", "-.--");
    assert_eq!(extract_item(&it).unwrap_err().kind(), ErrorKind::InvalidPrice);
    it.addr = None;
    assert_eq!(extract_item(&it).unwrap_err().kind(), ErrorKind::HtmlSelect);
    let ok = extract_item(&raw("01.03. 08:15", "1.69<sup>9</sup>")).unwrap();
    assert_eq!(ok.station.name, "Station");
    assert_eq!(ok.price_change.price, [1, 69, 9]);
}

#[test]
fn benign_kinds_are_exactly_the_placeholders() {
    assert!(ParseError::InvalidPriceError { html: String::new(), regex: String::new() }.is_benign());
    assert!(ParseError::InvalidUpdatedError { html: String::new(), regex: String::new() }.is_benign());
    assert!(!ParseError::RegexMismatchError { html: String::new(), regex: String::new() }.is_benign());
    assert!(!ParseError::ParseIntError { text: String::new() }.is_benign());
    assert!(!ParseError::TimestampError { html: String::new() }.is_benign());
    assert!(!ParseError::ListNotFoundError.is_benign());
    assert_eq!(ParseError::ListNotFoundError.message(), "price list not found: ");
}

#[test]
fn rejections_carry_the_markup_of_their_node() {
    let html = String::from("<entry>");
    match parse_price(&html, &Some(String::from("-.--"))) {
        Err(ParseError::InvalidPriceError { html, .. }) => assert_eq!(html, "-.--"),
        other => panic!("unexpected {:?}", other),
    }
    match parse_price(&html, &Some(String::from("n/a"))) {
        Err(ParseError::RegexMismatchError { html, .. }) => assert_eq!(html, "n/a"),
        other => panic!("unexpected {:?}", other),
    }
    match parse_updated(&html, &Some(String::from("  "))) {
        Err(ParseError::InvalidUpdatedError { html, .. }) => assert_eq!(html, "  "),
        other => panic!("unexpected {:?}", other),
    }
    match parse_updated(&html, &Some(String::from("soon"))) {
        Err(ParseError::RegexMismatchError { html, .. }) => assert_eq!(html, "soon"),
        other => panic!("unexpected {:?}", other),
    }
    assert_eq!(parse_updated(&html, &None), Err(ParseError::HtmlSelectError {
        html: String::from("<entry>"),
        selector: String::from(".PriceList__itemUpdated"),
    }));
}

#[test]
fn entries_read_from_the_markup_keep_their_fields() {
    let doc = document(&[
        item(Some("A"), "Street 1", "01.02. 03:04", "1.23<sup>4</sup>"),
        item(None, "Street 2", "05.06. 07:08", "-.--"),
    ]);
    let items = collect_items(&doc).unwrap();
    assert_eq!(items.len(), 2);
    assert_eq!(items[0].addr.as_deref(), Some("Street 1"));
    assert_eq!(items[0].updated.as_deref(), Some("01.02. 03:04"));
    assert_eq!(items[1].name, None);
    assert_eq!(items[1].price.as_deref(), Some("-.--"));
    assert!(items[1].html.contains("Street 2"));
}

#[test]
fn attributes_are_written_in_source_order() {
    let price = "1.78<sup data-z=\"3\" class=\"sub\" id=\"p1\" data-a=\"1\">9</sup>";
    let doc = document(&[item(Some("A"), "Street 1", "01.02. 03:04", price)]);
    for _ in 0..5 {
        let items = collect_items(&doc).unwrap();
        assert_eq!(items[0].price.as_deref(), Some(price));
        assert!(items[0].html.contains(price));
    }
}
