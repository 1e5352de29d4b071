use durhist::event::{parse_entry, Event, ParseError, Timestamp};

fn ts(text: &str) -> Timestamp {
    let dt: chrono::DateTime<chrono::Utc> = text.parse().unwrap();
    Timestamp { secs: dt.timestamp(), nanos: dt.timestamp_subsec_nanos() }
}

#[test]
fn test_parse_entry() {
    let parsed = parse_entry(
        r#"{"type":"Point","data":{"time":"2018-01-26T14:52:19.80265065Z","value":314.131923,"tags":{"group":"","iter":"0","method":"POST","name":"http://de-tps-receptor-dev-de-dev.bright-shopper.nl:80/v1/loyalties/platform/programs/program-0/collects/passive","proto":"HTTP/1.1","status":"200","url":"http://de-tps-receptor-dev-de-dev.bright-shopper.nl:80/v1/loyalties/platform/programs/program-0/collects/passive","vu":"16"}},"metric":"http_req_duration"}"#,
    );

    let time = ts("2018-01-26T14:52:19.80265065Z");
    let vu = "16".to_owned();
    let url = "http://de-tps-receptor-dev-de-dev.bright-shopper.nl:80/v1/loyalties/platform/programs/program-0/collects/passive".to_owned();
    let metric = "http_req_duration".to_owned();
    // The duration is carried as the floor of 314.131923.
    let duration = 314;

    let expected: Result<Event, ParseError> = Ok(Event { time, duration, vu, url, metric });

    assert_eq!(parsed.unwrap(), expected.unwrap());
}

#[test]
fn missing_vu_defaults_to_empty() {
    let parsed = parse_entry(
        r#"{"metric":"http_req_duration","data":{"time":"2018-01-26T14:52:19.80265065Z","value":1.5,"tags":{"name":"u"}}}"#,
    )
    .unwrap();
    assert_eq!(parsed.vu, "");
}

#[test]
fn malformed_text_is_fatal() {
    let parsed = parse_entry("not json");
    assert_eq!(parsed, Err(ParseError::Malformed));
}

#[test]
fn missing_time_gets_the_sentinel() {
    let parsed = parse_entry(
        r#"{"metric":"http_req_duration","data":{"value":1.0,"tags":{"vu":"1","name":"u"}}}"#,
    )
    .unwrap();
    assert_eq!(parsed.time, ts("2018-01-26T14:52:19.80265065Z"));
}

#[test]
fn unparseable_time_is_fatal() {
    let parsed = parse_entry(r#"{"metric":"m","data":{"time":"yesterday","value":1.0}}"#);
    assert_eq!(parsed, Err(ParseError::InvalidTimestamp));
}

#[test]
fn non_string_time_gets_the_sentinel() {
    let parsed = parse_entry(r#"{"metric":"m","data":{"time":12345,"value":1.0}}"#).unwrap();
    assert_eq!(parsed.time, ts("2018-01-26T14:52:19.80265065Z"));
}

#[test]
fn missing_value_defaults_to_99999() {
    let parsed = parse_entry(r#"{"metric":"m","data":{"tags":{"vu":"2"}}}"#).unwrap();
    assert_eq!(parsed.duration, 99999);
    assert_eq!(parsed.vu, "2");
}

#[test]
fn missing_fields_all_default() {
    let parsed = parse_entry("{}").unwrap();
    assert_eq!(parsed.time, ts("2018-01-26T14:52:19.80265065Z"));
    assert_eq!(parsed.duration, 99999);
    assert_eq!(parsed.vu, "");
    assert_eq!(parsed.url, "");
    assert_eq!(parsed.metric, "");
}

#[test]
fn negative_value_keeps_its_floor() {
    let parsed = parse_entry(r#"{"metric":"m","data":{"value":-0.5}}"#).unwrap();
    assert_eq!(parsed.duration, -1);
}
