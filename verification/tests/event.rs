use copilot_client::event::{choice_of_json, event_of_json};
use copilot_client::json::{lookup, parse_json, Json, JsonField, JsonNumber};

fn text(value: &str) -> Json {
    Json::Text(value.to_string())
}

fn integer(value: i64) -> Json {
    Json::Number(JsonNumber {
        signed: Some(value),
        unsigned: if value >= 0 { Some(value as u64) } else { None },
    })
}

fn object(fields: Vec<(&str, Json)>) -> Json {
    Json::Object(
        fields
            .into_iter()
            .map(|(name, value)| JsonField { name: name.to_string(), value })
            .collect(),
    )
}

fn choice(index: Json, delta: Json, finish: Option<Json>) -> Json {
    let mut fields = vec![("index", index), ("delta", delta)];
    if let Some(reason) = finish {
        fields.push(("finish_reason", reason));
    }
    object(fields)
}

fn event(choices: Vec<Json>) -> Json {
    object(vec![
        ("choices", Json::Array(choices)),
        ("created", integer(1700000000)),
        ("id", text("chatcmpl-1")),
    ])
}

#[test]
fn parse_json_reads_every_kind_of_value() {
    let json = parse_json(b" {\"a\": [null, true, -3, 18446744073709551615, 1.5, \"x\\u00e9\"], \"b\": {}} ")
        .expect("a document");
    let fields = match &json {
        Json::Object(fields) => fields,
        other => panic!("not an object: {:?}", other),
    };
    assert_eq!(fields.len(), 2);
    let items = match lookup(fields, "a") {
        Some(Json::Array(items)) => items,
        other => panic!("not an array: {:?}", other),
    };
    assert_eq!(items.len(), 6);
    assert!(matches!(items[0], Json::Null));
    assert!(matches!(items[1], Json::Bool(true)));
    match &items[2] {
        Json::Number(number) => {
            assert_eq!(number.signed, Some(-3));
            assert_eq!(number.unsigned, None);
        }
        other => panic!("not a number: {:?}", other),
    }
    match &items[3] {
        Json::Number(number) => {
            assert_eq!(number.signed, None);
            assert_eq!(number.unsigned, Some(u64::MAX));
        }
        other => panic!("not a number: {:?}", other),
    }
    match &items[4] {
        Json::Number(number) => {
            assert_eq!(number.signed, None);
            assert_eq!(number.unsigned, None);
        }
        other => panic!("not a number: {:?}", other),
    }
    match &items[5] {
        Json::Text(value) => assert_eq!(value, "x\u{e9}"),
        other => panic!("not a text: {:?}", other),
    }
    assert!(matches!(lookup(fields, "b"), Some(Json::Object(inner)) if inner.is_empty()));
    assert!(lookup(fields, "c").is_none());
}

#[test]
fn parse_json_refuses_what_is_no_document() {
    assert!(parse_json(b"").is_none());
    assert!(parse_json(b"{").is_none());
    assert!(parse_json(b"{\"a\":1} x").is_none());
    assert!(parse_json(b"[DONE]").is_none());
    assert!(parse_json(b"\"\xff\"").is_none());
    assert!(parse_json(b"{\"a\":\"line\nbreak\"}").is_none());
}

#[test]
fn lookup_finds_the_first_member_of_a_name() {
    let fields = vec![
        JsonField { name: "a".to_string(), value: integer(1) },
        JsonField { name: "b".to_string(), value: integer(2) },
        JsonField { name: "a".to_string(), value: integer(3) },
    ];
    match lookup(&fields, "a") {
        Some(Json::Number(number)) => assert_eq!(number.signed, Some(1)),
        other => panic!("not a number: {:?}", other),
    }
    match lookup(&fields, "b") {
        Some(Json::Number(number)) => assert_eq!(number.signed, Some(2)),
        other => panic!("not a number: {:?}", other),
    }
    assert!(lookup(&fields, "").is_none());
    assert!(lookup(&fields, "A").is_none());
}

#[test]
fn choice_with_text_and_reason() {
    let json = choice(
        integer(0),
        object(vec![("content", text("Hi")), ("role", text("assistant"))]),
        Some(text("stop")),
    );
    let read = choice_of_json(&json).expect("a choice");
    assert_eq!(read.delta_text, Some("Hi".to_string()));
    assert_eq!(read.finish_reason, Some("stop".to_string()));
}

#[test]
fn absent_and_null_members_are_no_text() {
    let bare = choice(integer(0), object(vec![]), None);
    let read = choice_of_json(&bare).expect("a choice");
    assert_eq!(read.delta_text, None);
    assert_eq!(read.finish_reason, None);
    let nulls = choice(
        integer(0),
        object(vec![("content", Json::Null), ("role", Json::Null)]),
        Some(Json::Null),
    );
    let read = choice_of_json(&nulls).expect("a choice");
    assert_eq!(read.delta_text, None);
    assert_eq!(read.finish_reason, None);
}

#[test]
fn choice_of_another_shape_is_refused() {
    let delta = || object(vec![("content", text("x"))]);
    assert!(choice_of_json(&Json::Null).is_none());
    assert!(choice_of_json(&object(vec![("delta", delta())])).is_none());
    assert!(choice_of_json(&object(vec![("index", integer(0))])).is_none());
    assert!(choice_of_json(&choice(text("0"), delta(), None)).is_none());
    assert!(choice_of_json(&choice(integer(2147483648), delta(), None)).is_none());
    assert!(choice_of_json(&choice(integer(-2147483649), delta(), None)).is_none());
    assert!(choice_of_json(&choice(integer(2147483647), delta(), None)).is_some());
    assert!(choice_of_json(&choice(integer(-2147483648), delta(), None)).is_some());
    assert!(choice_of_json(&choice(integer(0), text("x"), None)).is_none());
    assert!(choice_of_json(&choice(integer(0), object(vec![("content", integer(1))]), None)).is_none());
    assert!(choice_of_json(&choice(integer(0), object(vec![("role", Json::Bool(true))]), None)).is_none());
    assert!(choice_of_json(&choice(integer(0), delta(), Some(integer(1)))).is_none());
}

#[test]
fn event_holds_its_choices_in_order() {
    let json = event(vec![
        choice(integer(0), object(vec![("content", text("a"))]), None),
        choice(integer(1), object(vec![("content", text("b"))]), Some(text("stop"))),
    ]);
    let choices = event_of_json(&json).expect("an event");
    assert_eq!(choices.len(), 2);
    assert_eq!(choices[0].delta_text, Some("a".to_string()));
    assert_eq!(choices[0].finish_reason, None);
    assert_eq!(choices[1].delta_text, Some("b".to_string()));
    assert_eq!(choices[1].finish_reason, Some("stop".to_string()));
}

#[test]
fn event_without_choices_is_an_event() {
    let choices = event_of_json(&event(vec![])).expect("an event");
    assert!(choices.is_empty());
}

#[test]
fn event_of_another_shape_is_refused() {
    let good = || choice(integer(0), object(vec![]), None);
    assert!(event_of_json(&Json::Array(vec![])).is_none());
    assert!(event_of_json(&object(vec![])).is_none());
    assert!(event_of_json(&object(vec![
        ("choices", Json::Array(vec![good()])),
        ("id", text("x")),
    ]))
    .is_none());
    assert!(event_of_json(&object(vec![
        ("choices", Json::Array(vec![good()])),
        ("created", integer(1)),
    ]))
    .is_none());
    assert!(event_of_json(&object(vec![
        ("choices", Json::Array(vec![good()])),
        ("created", text("1")),
        ("id", text("x")),
    ]))
    .is_none());
    assert!(event_of_json(&object(vec![
        ("choices", Json::Array(vec![good()])),
        ("created", integer(1)),
        ("id", integer(1)),
    ]))
    .is_none());
    assert!(event_of_json(&object(vec![
        ("choices", object(vec![])),
        ("created", integer(1)),
        ("id", text("x")),
    ]))
    .is_none());
    assert!(event_of_json(&event(vec![good(), Json::Null])).is_none());
    assert!(event_of_json(&event(vec![good(), good()])).is_some());
}

#[test]
fn members_that_are_not_named_are_not_looked_at() {
    let json = parse_json(
        b"{\"id\":\"a\",\"object\":\"chat.completion.chunk\",\"created\":1,\"model\":\"gpt-4\",\"choices\":[{\"index\":0,\"content_filter_offsets\":{\"check_offset\":1},\"delta\":{\"content\":\"x\",\"extra\":[1]},\"finish_reason\":null}]}",
    )
    .expect("a document");
    let choices = event_of_json(&json).expect("an event");
    assert_eq!(choices.len(), 1);
    assert_eq!(choices[0].delta_text, Some("x".to_string()));
}
