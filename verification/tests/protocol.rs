use singer::codec;
use singer::tap::MessageWriter;
use singer::{Error, Message, Record, Schema, State};

fn json(text: &str) -> serde_json::Value {
    serde_json::from_str(text).expect("test JSON must parse")
}

#[test]
fn lib_it_works() {}

#[test]
fn it_writes_line_delimited_json() {
    let state = Message::State(State { value: json("\"inner\"") });

    let mut writer = MessageWriter::to_buffer();
    writer.write_message(&state).unwrap();
    writer.write_message(&state).unwrap();
    writer.flush().unwrap();
    let buffer = writer.into_inner().unwrap();

    let out = serde_json::to_string(&json("\"inner\"")).unwrap();
    let one = format!("{{\"type\":\"STATE\",\"value\":{}}}", out);
    let expected = format!("{}\n{}\n", one, one);
    assert_eq!(buffer, expected);
}

#[test]
fn round_trip_preserves_messages() {
    let schema = Message::Schema(Schema {
        stream: String::from("users"),
        schema: json("{\"type\":\"object\"}"),
        key_properties: vec![String::from("id")],
        bookmark_properties: Some(vec![String::from("updated_at")]),
    });
    let record = Message::Record(Record {
        stream: String::from("users"),
        record: json("{\"id\":1,\"name\":\"Vincent\"}"),
        version: Some(String::from("v1")),
        time_extracted: Some(String::from("2021-04-01T12:30:00Z")),
    });
    let state = Message::State(State { value: json("{\"bookmark\":3}") });
    let messages = vec![schema, record, state];

    let mut writer = MessageWriter::new();
    for m in &messages {
        writer.write_message(m).unwrap();
    }
    let wire = writer.into_inner().unwrap();

    let mut decoded: Vec<Message> = Vec::new();
    for line in wire.lines() {
        decoded.push(codec::decode_line(line).unwrap());
    }
    assert_eq!(decoded, messages);
}

#[test]
fn escaped_stream_names_round_trip() {
    let record = Message::Record(Record {
        stream: String::from("odd \"name\"\nwith\tcontrol\u{1}chars\\"),
        record: json("{}"),
        version: None,
        time_extracted: None,
    });
    let mut writer = MessageWriter::new();
    writer.write_message(&record).unwrap();
    let wire = writer.into_inner().unwrap();

    let lines: Vec<&str> = wire.lines().collect();
    assert_eq!(lines.len(), 1);
    let back = codec::decode_line(lines[0]).unwrap();
    assert_eq!(back, record);
}

#[test]
fn one_newline_per_message() {
    let mut writer = MessageWriter::new();
    let n = 5;
    for i in 0..n {
        let value = json(&format!("{{\"n\":{}}}", i));
        writer.write_state(State { value }).unwrap();
    }
    let wire = writer.into_inner().unwrap();
    let newlines = wire.chars().filter(|c| *c == '\n').count();
    assert_eq!(newlines, n);
    assert!(wire.ends_with('\n'));
}

#[test]
fn reclaim_fails_while_second_owner_alive() {
    let mut writer = MessageWriter::new();
    writer.write_state(State { value: json("1") }).unwrap();
    let second = writer.clone_handle();
    match writer.into_inner() {
        Err(Error::OtherError(_)) => (),
        other => panic!("reclaim with a live clone must fail with an ownership error, got {:?}", other),
    }
    drop(second);
}

#[test]
fn reclaim_succeeds_for_sole_owner() {
    let mut writer = MessageWriter::new();
    writer.write_state(State { value: json("true") }).unwrap();
    let wire = writer.into_inner().unwrap();
    assert_eq!(wire, "{\"type\":\"STATE\",\"value\":true}\n");
}

#[test]
fn writes_from_a_clone_reach_the_same_sink() {
    let mut writer = MessageWriter::new();
    let mut second = writer.clone_handle();
    writer.write_state(State { value: json("1") }).unwrap();
    second.write_state(State { value: json("2") }).unwrap();
    drop(writer);
    let wire = second.into_inner().unwrap();
    assert_eq!(wire, "{\"type\":\"STATE\",\"value\":1}\n{\"type\":\"STATE\",\"value\":2}\n");
}

#[test]
fn message_accessors_and_kinds() {
    let state = Message::State(State { value: json("null") });
    let record = Message::Record(Record::new(String::from("s"), json("{}")));
    assert!(state.is_state());
    assert!(!state.is_record());
    assert!(!state.is_schema());
    assert!(record.is_record());
    assert!(state.as_state().is_some());
    assert!(state.as_record().is_none());
    assert!(record.as_record().is_some());
    assert_eq!(state.ty(), "state");
    assert_eq!(record.ty(), "record");
}

#[test]
fn strict_conversions_carry_both_names() {
    let record = Message::Record(Record::new(String::from("s"), json("{}")));
    match State::try_from(record) {
        Err(Error::InvalidConversion(expected, actual)) => {
            assert_eq!(expected, "state");
            assert_eq!(actual, "record");
        },
        other => panic!("expected an invalid conversion error, got {:?}", other),
    }
    let state = Message::State(State { value: json("null") });
    assert!(State::try_from(state).is_ok());
}

#[test]
fn decode_rejects_malformed_lines() {
    match codec::decode_line("{\"type\":\"STATE\"") {
        Err(Error::DeserializationError(_)) => (),
        other => panic!("unterminated JSON must fail to decode, got {:?}", other),
    }
    match codec::decode_line("{\"type\":\"UPSERT\",\"value\":1}") {
        Err(Error::DeserializationError(_)) => (),
        other => panic!("an unknown kind must fail to decode, got {:?}", other),
    }
    match codec::decode_line("{\"type\":\"STATE\"}") {
        Err(Error::DeserializationError(_)) => (),
        other => panic!("a state without a value must fail to decode, got {:?}", other),
    }
    match codec::decode_line("{\"type\":\"record\",\"stream\":\"s\",\"record\":{}}") {
        Err(Error::DeserializationError(_)) => (),
        other => panic!("a lowercase kind must fail to decode, got {:?}", other),
    }
}

#[test]
fn decode_checks_time_extracted() {
    let good = "{\"type\":\"RECORD\",\"stream\":\"s\",\"record\":{},\"time_extracted\":\"2020-01-01T00:00:00+00:00\"}";
    let m = codec::decode_line(good).unwrap();
    match m {
        Message::Record(r) => {
            assert_eq!(r.time_extracted.as_deref(), Some("2020-01-01T00:00:00+00:00"));
        },
        other => panic!("expected a record, got {:?}", other),
    }
    let bad = "{\"type\":\"RECORD\",\"stream\":\"s\",\"record\":{},\"time_extracted\":\"yesterday\"}";
    match codec::decode_line(bad) {
        Err(Error::DeserializationError(_)) => (),
        other => panic!("a non-timestamp must fail to decode, got {:?}", other),
    }
}

#[test]
fn decode_treats_null_and_missing_options_as_absent() {
    let with_null = "{\"type\":\"RECORD\",\"stream\":\"s\",\"record\":{},\"version\":null}";
    match codec::decode_line(with_null).unwrap() {
        Message::Record(r) => {
            assert_eq!(r.version, None);
            assert_eq!(r.time_extracted, None);
        },
        other => panic!("expected a record, got {:?}", other),
    }
    let schema = "{\"type\":\"SCHEMA\",\"stream\":\"s\",\"schema\":{},\"key_properties\":[\"id\"]}";
    match codec::decode_line(schema).unwrap() {
        Message::Schema(s) => {
            assert_eq!(s.key_properties, vec![String::from("id")]);
            assert_eq!(s.bookmark_properties, None);
        },
        other => panic!("expected a schema, got {:?}", other),
    }
}

#[test]
fn decode_rejects_empty_stream_names() {
    match codec::decode_line("{\"type\":\"RECORD\",\"stream\":\"\",\"record\":{}}") {
        Err(Error::DeserializationError(_)) => (),
        other => panic!("an empty record stream name must fail to decode, got {:?}", other),
    }
    match codec::decode_line("{\"type\":\"SCHEMA\",\"stream\":\"\",\"schema\":{},\"key_properties\":[]}") {
        Err(Error::DeserializationError(_)) => (),
        other => panic!("an empty schema stream name must fail to decode, got {:?}", other),
    }
}
