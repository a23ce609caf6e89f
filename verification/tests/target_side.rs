use singer::tap::{Catalog, Context as TapContext, MessageWriter, Tap};
use singer::target::{Context, Target};
use singer::{Error, Record, Schema, State};

fn json(text: &str) -> serde_json::Value {
    serde_json::from_str(text).expect("test JSON must parse")
}

static JSON_SCHEMA: &str = r#"{
  "$schema": "http://json-schema.org/schema#",
  "title": "Person",
  "type": "object",
  "properties": {
    "id": {
      "type": "integer",
      "minimum": 1
    },
    "name": {
      "type": "string"
    }
  },
  "required": [
    "id",
    "name"
  ]
}"#;

struct PeopleTap;

impl PeopleTap {
    fn schema() -> Schema {
        Schema {
            stream: String::from(Self::stream()),
            schema: json(JSON_SCHEMA),
            key_properties: vec![String::from("id")],
            bookmark_properties: None,
        }
    }

    fn people() -> Vec<serde_json::Value> {
        vec![
            json("{\"id\":1,\"name\":\"Vincent\"}"),
            json("{\"id\":2,\"name\":\"Jules\"}"),
            json("{\"id\":3,\"name\":\"Mia\"}"),
            json("{\"id\":4,\"name\":\"Marsellus\"}"),
        ]
    }

    fn stream() -> &'static str {
        "people"
    }
}

impl Tap for PeopleTap {
    fn discover(&self, _context: &mut TapContext) -> Result<Catalog, Error> {
        unreachable!()
    }

    fn sync(&mut self, _context: &mut TapContext, writer: &mut MessageWriter) -> Result<(), Error> {
        writer.write_schema(Self::schema())?;
        for person in Self::people() {
            writer.write_record(Record::new(String::from(Self::stream()), person))?;
        }
        Ok(())
    }
}

#[derive(Default)]
struct PeopleTarget {
    people: Vec<serde_json::Value>,
}

impl Target for PeopleTarget {
    fn process_record(&mut self, record: Record) -> Result<(), Error> {
        self.people.push(record.record);
        Ok(())
    }
}

#[test]
fn test_basic_target() {
    let mut writer = MessageWriter::new();
    let mut tap = PeopleTap;
    let mut tap_ctx = TapContext::new();
    tap.sync(&mut tap_ctx, &mut writer).unwrap();
    let wire = writer.into_inner().unwrap();

    let mut target = PeopleTarget::default();
    let mut target_ctx = Context::new();
    target.process_reader(&mut target_ctx, &wire).unwrap();

    assert_eq!(target.people.len(), 4);
}

#[test]
fn unregistered_stream_always_fails_validation() {
    let ctx = Context::new();
    for payload in ["{}", "{\"id\":1,\"name\":\"x\"}", "null", "[1,2]"] {
        let record = Record::new(String::from("ghost"), json(payload));
        match ctx.validate_record(&record) {
            Err(Error::JSONSchemaNotRegistered(stream)) => assert_eq!(stream, "ghost"),
            other => panic!("validation without a schema must fail, got {:?}", other),
        }
    }
}

#[test]
fn validation_boundary() {
    let mut ctx = Context::new();
    ctx.insert_schema(&PeopleTap::schema()).unwrap();

    let failing = Record::new(String::from("people"), json("{\"id\":0,\"name\":\"x\"}"));
    match ctx.validate_record(&failing) {
        Err(Error::JSONSchemaValidationError(detail)) => assert!(!detail.is_empty()),
        other => panic!("an id below one must fail validation, got {:?}", other),
    }

    let passing = Record::new(String::from("people"), json("{\"id\":1,\"name\":\"Vincent\"}"));
    ctx.validate_record(&passing).unwrap();
}

#[test]
fn registering_twice_is_a_no_op() {
    let mut ctx = Context::new();
    let schema = PeopleTap::schema();
    ctx.register(&schema).unwrap();
    assert!(ctx.has_schema(&schema));
    ctx.register(&schema).unwrap();
    assert!(ctx.has_schema(&schema));

    let passing = Record::new(String::from("people"), json("{\"id\":1,\"name\":\"Vincent\"}"));
    ctx.validate_record(&passing).unwrap();
    let failing = Record::new(String::from("people"), json("{\"id\":0,\"name\":\"x\"}"));
    assert!(ctx.validate_record(&failing).is_err());
}

#[test]
fn compilation_failure_registers_nothing() {
    let mut ctx = Context::new();
    let schema = Schema {
        stream: String::from("broken"),
        schema: json("{\"type\":5}"),
        key_properties: vec![],
        bookmark_properties: None,
    };
    match ctx.insert_schema(&schema) {
        Err(Error::JSONSchemaCompilationError) => (),
        other => panic!("a malformed schema must fail to compile, got {:?}", other),
    }
    assert!(!ctx.has_schema(&schema));
}

#[test]
fn abort_on_first_error() {
    let mut writer = MessageWriter::new();
    writer.write_schema(PeopleTap::schema()).unwrap();
    for i in 1..=3 {
        let payload = json(&format!("{{\"id\":{},\"name\":\"n{}\"}}", i, i));
        writer.write_record(Record::new(String::from("people"), payload)).unwrap();
    }
    let mut wire = writer.into_inner().unwrap();
    wire.push_str("this is not json\n");
    let mut tail = MessageWriter::new();
    for i in 4..=5 {
        let payload = json(&format!("{{\"id\":{},\"name\":\"n{}\"}}", i, i));
        tail.write_record(Record::new(String::from("people"), payload)).unwrap();
    }
    wire.push_str(&tail.into_inner().unwrap());

    let mut target = PeopleTarget::default();
    let mut ctx = Context::new();
    match target.process_reader(&mut ctx, &wire) {
        Err(Error::DeserializationError(_)) => (),
        other => panic!("a malformed line must abort the run, got {:?}", other),
    }
    assert_eq!(target.people.len(), 3);
}

#[test]
fn invalid_record_aborts_delivery() {
    let mut writer = MessageWriter::new();
    writer.write_schema(PeopleTap::schema()).unwrap();
    writer
        .write_record(Record::new(String::from("people"), json("{\"id\":1,\"name\":\"ok\"}")))
        .unwrap();
    writer.write_record(Record::new(String::from("people"), json("{\"id\":0}"))).unwrap();
    let wire = writer.into_inner().unwrap();

    let mut target = PeopleTarget::default();
    let mut ctx = Context::new();
    match target.process_reader(&mut ctx, &wire) {
        Err(Error::JSONSchemaValidationError(_)) => (),
        other => panic!("an invalid record must abort the run, got {:?}", other),
    }
    assert_eq!(target.people.len(), 1);
}

#[test]
fn states_reach_the_state_handler() {
    struct CountingTarget {
        records: usize,
        states: usize,
    }
    impl Target for CountingTarget {
        fn process_record(&mut self, _record: Record) -> Result<(), Error> {
            self.records += 1;
            Ok(())
        }

        fn process_state(&mut self, _state: State) -> Result<(), Error> {
            self.states += 1;
            Ok(())
        }
    }

    let mut writer = MessageWriter::new();
    writer.write_state(State { value: json("{\"at\":1}") }).unwrap();
    writer.write_state(State { value: json("{\"at\":2}") }).unwrap();
    let wire = writer.into_inner().unwrap();

    let mut target = CountingTarget { records: 0, states: 0 };
    let mut ctx = Context::new();
    target.process_reader(&mut ctx, &wire).unwrap();
    assert_eq!(target.states, 2);
    assert_eq!(target.records, 0);
}

#[test]
fn an_empty_source_processes_to_nothing() {
    let mut target = PeopleTarget::default();
    let mut ctx = Context::new();
    target.process_reader(&mut ctx, "").unwrap();
    target.process_reader(&mut ctx, "\n\n\n").unwrap();
    assert_eq!(target.people.len(), 0);
}
