use contest_harvest::contest::{ContestRecord, SponsorData};
use contest_harvest::instant::Instant;
use contest_harvest::listing::{
    extract_listing, find_payload, get_active_contests, get_eligible_contests,
    listing_from_payload, listing_in_document, locate_contests, script_blocks, unframe,
    ListingError,
};

/// A page whose carrier holds the given JSON array of contests.
fn page_with(contests: &str) -> String {
    let document = format!(
        "{{\"children\":[0,1,2,{{\"children\":[\"a\",\"b\",\"c\",{{\"contests\":{}}}]}}]}}",
        contests
    );
    let escaped = document.replace('"', "\\\"");
    format!(
        "<html><head><script>var unrelated = 1;</script></head><body>\
         <script>self.__next_f.push([1,\"f:[\\\"$\\\",\\\"div\\\",null,{}]\\n\"])</script>\
         </body></html>",
        escaped
    )
}

const ONE_CONTEST: &str = "[{\"contest_id\":321,\"title\":\"Vault\",\"sponsor\":\"Acme\",\
    \"repo\":\"https://github.com/code-423n4/2024-01-vault\",\
    \"start_time\":\"2024-01-01T20:00:00.000Z\",\"end_time\":\"2024-01-08T20:00:00.000Z\",\
    \"code_access\":\"public\",\"total_award_pool\":60500,\"hide\":false,\
    \"sponsor_data\":{\"name\":\"Acme\",\"link\":null}}]";

#[test]
fn script_blocks_are_the_inner_html_of_the_script_elements() {
    let blocks = script_blocks("<html><script>one</script><p>x</p><script>two</script></html>");
    assert_eq!(blocks, vec!["one".to_string(), "two".to_string()]);
}

#[test]
fn unframe_strips_the_frame_and_unescapes() {
    let block = "self.__next_f.push([1,\"f:[\\\"$\\\",\\\"div\\\",null,{\\\"a\\\":1}]\\n\"])";
    assert_eq!(unframe(block), Some("{\"a\":1}".to_string()));
}

#[test]
fn unframe_refuses_other_blocks() {
    assert_eq!(unframe("self.__next_f.push([1,\"e:x\"])"), None);
    assert_eq!(unframe("var unrelated = 1;"), None);
    assert_eq!(unframe(""), None);
}

#[test]
fn unframe_accepts_a_block_without_the_push_call() {
    assert_eq!(unframe("([1,\"f:tail"), Some("([1,\"f:tail".to_string()));
}

#[test]
fn find_payload_takes_the_last_carrier() {
    let blocks = vec![
        "([1,\"f:[\\\"$\\\",\\\"div\\\",null,first]\\n\"])".to_string(),
        "nothing".to_string(),
        "self.__next_f.push([1,\"f:[\\\"$\\\",\\\"div\\\",null,second]\\n\"])".to_string(),
        "nothing".to_string(),
    ];
    assert_eq!(find_payload(&blocks), Some("second".to_string()));
    assert_eq!(find_payload(&vec!["nothing".to_string()]), None);
    assert_eq!(find_payload(&Vec::new()), None);
}

#[test]
fn extract_listing_reads_the_records() {
    let records = extract_listing(&page_with(ONE_CONTEST)).unwrap();
    assert_eq!(records.len(), 1);
    let record: &ContestRecord = &records[0];
    assert_eq!(record.contest_id, Some(321));
    assert_eq!(record.title.as_deref(), Some("Vault"));
    assert_eq!(record.sponsor.as_deref(), Some("Acme"));
    assert_eq!(record.repo.as_deref(), Some("https://github.com/code-423n4/2024-01-vault"));
    assert_eq!(record.end_time.as_deref(), Some("2024-01-08T20:00:00.000Z"));
    assert_eq!(record.code_access.as_deref(), Some("public"));
    assert_eq!(record.total_award_pool, Some(60500));
    assert_eq!(record.hide, Some(false));
    assert_eq!(record.kind, None);
    let sponsor: &SponsorData = &record.sponsor_data;
    assert_eq!(sponsor.name.as_deref(), Some("Acme"));
    assert_eq!(sponsor.link, None);
}

#[test]
fn extract_listing_drops_ill_shaped_records() {
    let contests = "[{\"contest_id\":1,\"sponsor_data\":{}},\
        {\"contest_id\":\"two\",\"sponsor_data\":{}},\
        {\"contest_id\":3},\
        17,\
        {\"contest_id\":4294967296,\"sponsor_data\":{}},\
        {\"contest_id\":5,\"sponsor_data\":{\"name\":7}},\
        {\"contest_id\":6,\"sponsor_data\":{},\"unknown\":[1]}]";
    let records = extract_listing(&page_with(contests)).unwrap();
    let ids: Vec<Option<u32>> = records.iter().map(|record| record.contest_id).collect();
    assert_eq!(ids, vec![Some(1), Some(6)]);
}

#[test]
fn extract_listing_reports_a_page_without_carrier() {
    let page = "<html><body><script>var x = 1;</script></body></html>";
    assert_eq!(extract_listing(page).unwrap_err(), ListingError::NoPayload);
    assert_eq!(extract_listing("").unwrap_err(), ListingError::NoPayload);
}

#[test]
fn extract_listing_reports_a_carrier_without_json() {
    let page =
        "<script>self.__next_f.push([1,\"f:[\\\"$\\\",\\\"div\\\",null,{oops]\\n\"])</script>";
    assert_eq!(extract_listing(page).unwrap_err(), ListingError::NotJson);
}

#[test]
fn listing_reports_a_document_of_another_shape() {
    assert_eq!(
        listing_from_payload("{\"children\":[0,1,2]}").unwrap_err(),
        ListingError::UnexpectedShape
    );
    assert_eq!(
        listing_from_payload("{\"children\":[0,1,2,{\"children\":[0,1,2,{\"contests\":7}]}]}")
            .unwrap_err(),
        ListingError::UnexpectedShape
    );
    assert_eq!(listing_from_payload("[]").unwrap_err(), ListingError::UnexpectedShape);
}

#[test]
fn locate_contests_descends_the_fixed_path() {
    let document: serde_json::Value = serde_json::from_str(
        "{\"children\":[0,1,2,{\"children\":[0,1,2,{\"contests\":[1,2,3]}]}]}",
    )
    .unwrap();
    assert_eq!(locate_contests(&document).map(|items| items.len()), Some(3));
    assert_eq!(listing_in_document(&document).unwrap().len(), 0);
    let other: serde_json::Value =
        serde_json::from_str("{\"children\":[0,1,{\"children\":[0,1,2,{\"contests\":[]}]}]}")
            .unwrap();
    assert!(locate_contests(&other).is_none());
}

#[test]
fn active_and_get_eligible_contestss_filter_by_the_clock() {
    let contests = "[{\"contest_id\":1,\"end_time\":\"2024-01-08T20:00:00Z\",\
        \"code_access\":\"public\",\"sponsor_data\":{}},\
        {\"contest_id\":2,\"end_time\":\"2024-01-08T20:00:00Z\",\
        \"code_access\":\"private\",\"sponsor_data\":{}},\
        {\"contest_id\":3,\"end_time\":\"2023-01-08T20:00:00Z\",\
        \"code_access\":\"public\",\"sponsor_data\":{}},\
        {\"contest_id\":4,\"code_access\":\"public\",\"sponsor_data\":{}}]";
    let page = page_with(contests);
    let now = Instant { secs: 1_704_000_000, nanos: 0 };
    let active: Vec<Option<u32>> =
        get_active_contests(&page, now).unwrap().iter().map(|record| record.contest_id).collect();
    assert_eq!(active, vec![Some(1), Some(2)]);
    let eligible: Vec<Option<u32>> =
        get_eligible_contests(&page, now).unwrap().iter().map(|record| record.contest_id).collect();
    assert_eq!(eligible, vec![Some(1)]);
    assert_eq!(get_active_contests("", now).unwrap_err(), ListingError::NoPayload);
}

#[test]
fn unframe_agrees_with_the_standard_string_functions() {
    let blocks = [
        "self.__next_f.push([1,\"f:[\\\"$\\\",\\\"div\\\",null,{\\\"a\\\":\\\"b\\\"}]\\n\"])",
        "self.__next_f.pushself.__next_f.push([1,\"f:[\\\"$\\\",\\\"div\\\",null,x]\\n\"])]\\n\"])",
        "([1,\"f:[\\\"$\\\",\\\"div\\\",null,([1,\"f:[\\\"$\\\",\\\"div\\\",null,y",
        "self.__next_f.push([1,\"f:other\\\\\"\\\"]\\n\"])",
        "self.__next_f.push([1,\"f:",
        "self.__next_f.push",
        "self.__next_f.push([1,\"e:[\\\"$\\\",\\\"div\\\",null,{}]\\n\"])",
        " self.__next_f.push([1,\"f:x",
        "([1,\"f:[\\\"$\\\",\\\"div\\\",null,]\\n\"])",
        "([1,\"f:\\\\\\\"\\\"\\\\\"",
        "",
    ];
    for block in blocks {
        let rest = block.trim_start_matches("self.__next_f.push");
        let expected = if rest.starts_with("([1,\"f:") {
            Some(
                rest.trim_start_matches("([1,\"f:[\\\"$\\\",\\\"div\\\",null,")
                    .trim_end_matches("]\\n\"])")
                    .replace("\\\"", "\""),
            )
        } else {
            None
        };
        assert_eq!(unframe(block), expected, "{}", block);
    }
}
