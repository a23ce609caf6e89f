//! A line-delimited JSON message protocol for moving data from an
//! extraction process (a "tap") to a loading process (a "target").
//!
//! The crate models the three wire message kinds (`Schema`, `Record`,
//! `State`), frames them one JSON object per line through a shared
//! [`tap::MessageWriter`], drives an out-of-process tap
//! ([`external::ExternalTap`]), and reads the stream back on the target
//! side, validating every record against its stream's registered JSON
//! schema before handing it to application code.

use vstd::prelude::*;

pub mod codec;
pub mod external;
pub mod json;
pub mod tap;
pub mod target;

verus! {

/// Every failure the protocol engine can surface.  Each variant carries
/// enough structure for a caller to render an actionable message; the
/// crate itself never formats or logs.
#[derive(Debug, Clone, PartialEq, Eq)]
pub enum Error {
    /// A command failed to start at all (executable missing, permission
    /// denied, ...), as opposed to starting and then exiting unsuccessfully.
    ExecError(String),
    /// A command started but exited unsuccessfully.  Carries the exit code
    /// (absent when the process died without one) and a diagnostic string.
    CommandError(Option<i32>, String),
    /// A read from or write to a pipe or sink failed.
    IoError(String),
    /// A value could not be deserialized (malformed JSON, or JSON that does
    /// not match the message shape).
    DeserializationError(String),
    /// A message was narrowed to the wrong variant.  Carries the expected
    /// and the actual variant names.
    InvalidConversion(String, String),
    /// A recognized invocation option was requested but never set.
    OptionNotSet(String),
    /// An invocation option outside the recognized set was requested.
    InvalidOption(String),
    /// A record's stream has no registered schema.
    JSONSchemaNotRegistered(String),
    /// A schema document could not be compiled to a validator.
    JSONSchemaCompilationError,
    /// A record violated its stream's schema.  Carries a description of the
    /// first violated constraint.
    JSONSchemaValidationError(String),
    /// An internal invariant failed, such as reclaiming a shared writer
    /// that still has other owners.
    OtherError(String),
}

/// An opaque checkpoint blob.  The engine imposes no structure on it.
#[derive(Debug, Clone, PartialEq)]
pub struct State {
    pub value: serde_json::Value,
}

/// A self-describing stream schema.
#[derive(Debug, Clone, PartialEq)]
pub struct Schema {
    /// The stream the schema describes.  A stream name is never empty in a
    /// well-formed message.
    pub stream: String,
    /// An arbitrary JSON document describing the record shape.
    pub schema: serde_json::Value,
    /// The fields forming a record's identity, in order.
    pub key_properties: Vec<String>,
    /// The fields used for incremental checkpointing, when any.
    pub bookmark_properties: Option<Vec<String>>,
}

/// One typed data point of a stream.
#[derive(Debug, Clone, PartialEq)]
pub struct Record {
    /// The stream this record belongs to.
    pub stream: String,
    /// The record payload.
    pub record: serde_json::Value,
    /// An opaque version marker, when any.
    pub version: Option<String>,
    /// When the record was extracted, as an RFC 3339 timestamp, when known.
    pub time_extracted: Option<String>,
}

/// The mathematical shape of a [`State`].
pub struct StateV {
    pub value: serde_json::Value,
}

/// The mathematical shape of a [`Schema`].
pub struct SchemaV {
    pub stream: Seq<char>,
    pub schema: serde_json::Value,
    pub key_properties: Seq<Seq<char>>,
    pub bookmark_properties: Option<Seq<Seq<char>>>,
}

/// The mathematical shape of a [`Record`].
pub struct RecordV {
    pub stream: Seq<char>,
    pub record: serde_json::Value,
    pub version: Option<Seq<char>>,
    pub time_extracted: Option<Seq<char>>,
}

/// The mathematical shape of a [`Message`].
pub enum MessageV {
    State(StateV),
    Schema(SchemaV),
    Record(RecordV),
}

impl View for State {
    type V = StateV;

    open spec fn view(&self) -> StateV {
        StateV { value: self.value }
    }
}

impl View for Schema {
    type V = SchemaV;

    open spec fn view(&self) -> SchemaV {
        SchemaV {
            stream: self.stream@,
            schema: self.schema,
            key_properties: self.key_properties.deep_view(),
            bookmark_properties: match self.bookmark_properties {
                Some(ref b) => Some(b.deep_view()),
                None => None,
            },
        }
    }
}

impl View for Record {
    type V = RecordV;

    open spec fn view(&self) -> RecordV {
        RecordV {
            stream: self.stream@,
            record: self.record,
            version: match self.version {
                Some(ref v) => Some(v@),
                None => None,
            },
            time_extracted: match self.time_extracted {
                Some(ref t) => Some(t@),
                None => None,
            },
        }
    }
}

impl Record {
    /// A record with neither version nor extraction time.
    pub fn new(stream: String, record: serde_json::Value) -> (r: Record)
        ensures
            r@ == (RecordV {
                stream: stream@,
                record: record,
                version: None,
                time_extracted: None,
            }),
    {
        Record { stream, record, version: None, time_extracted: None }
    }
}

/// The tagged union of the three wire message kinds.  Exactly one variant
/// is active at a time; the wire discriminator is the uppercase kind name.
#[derive(Debug, Clone, PartialEq)]
pub enum Message {
    State(State),
    Schema(Schema),
    Record(Record),
}

impl View for Message {
    type V = MessageV;

    open spec fn view(&self) -> MessageV {
        match self {
            Message::State(s) => MessageV::State(s@),
            Message::Schema(s) => MessageV::Schema(s@),
            Message::Record(r) => MessageV::Record(r@),
        }
    }
}

/// A message variant's name, as the conversion errors report it.
pub open spec fn kind_name(m: MessageV) -> Seq<char> {
    match m {
        MessageV::State(_) => "state"@,
        MessageV::Schema(_) => "schema"@,
        MessageV::Record(_) => "record"@,
    }
}

impl Message {
    /// Whether the active variant is `State`.
    pub fn is_state(&self) -> (r: bool)
        ensures
            r == (self@ is State),
    {
        match self {
            Message::State(_) => true,
            _ => false,
        }
    }

    /// Whether the active variant is `Schema`.
    pub fn is_schema(&self) -> (r: bool)
        ensures
            r == (self@ is Schema),
    {
        match self {
            Message::Schema(_) => true,
            _ => false,
        }
    }

    /// Whether the active variant is `Record`.
    pub fn is_record(&self) -> (r: bool)
        ensures
            r == (self@ is Record),
    {
        match self {
            Message::Record(_) => true,
            _ => false,
        }
    }

    /// The state, when that is the active variant.
    pub fn as_state(&self) -> (r: Option<&State>)
        ensures
            match r {
                Some(s) => self@ == MessageV::State(s@),
                None => !(self@ is State),
            },
    {
        match self {
            Message::State(state) => Some(state),
            _ => None,
        }
    }

    /// The schema, when that is the active variant.
    pub fn as_schema(&self) -> (r: Option<&Schema>)
        ensures
            match r {
                Some(s) => self@ == MessageV::Schema(s@),
                None => !(self@ is Schema),
            },
    {
        match self {
            Message::Schema(schema) => Some(schema),
            _ => None,
        }
    }

    /// The record, when that is the active variant.
    pub fn as_record(&self) -> (r: Option<&Record>)
        ensures
            match r {
                Some(rec) => self@ == MessageV::Record(rec@),
                None => !(self@ is Record),
            },
    {
        match self {
            Message::Record(record) => Some(record),
            _ => None,
        }
    }

    /// The active variant's name, as the conversion errors report it.
    pub fn ty(&self) -> (r: &'static str)
        ensures
            r@ == kind_name(self@),
    {
        match self {
            Message::State(_) => "state",
            Message::Schema(_) => "schema",
            Message::Record(_) => "record",
        }
    }

    /// Wraps a state into its message envelope.
    pub fn from(state: State) -> (r: Message)
        ensures
            r@ == MessageV::State(state@),
    {
        Message::State(state)
    }
}

impl State {
    /// Strictly narrows a message to a state.  Fails with an invalid
    /// conversion error, carrying the expected and actual variant names,
    /// when another variant is active.
    pub fn try_from(m: Message) -> (r: Result<State, Error>)
        ensures
            match r {
                Ok(s) => m@ == MessageV::State(s@),
                Err(e) => !(m@ is State) && (e matches Error::InvalidConversion(exp, act)
                    && exp@ == "state"@ && act@ == kind_name(m@)),
            },
    {
        match m {
            Message::State(state) => Ok(state),
            _ => Err(Error::InvalidConversion(String::from_str("state"), String::from_str(m.ty()))),
        }
    }
}

impl Schema {
    /// Strictly narrows a message to a schema; see [`State::try_from`].
    pub fn try_from(m: Message) -> (r: Result<Schema, Error>)
        ensures
            match r {
                Ok(s) => m@ == MessageV::Schema(s@),
                Err(e) => !(m@ is Schema) && (e matches Error::InvalidConversion(exp, act)
                    && exp@ == "schema"@ && act@ == kind_name(m@)),
            },
    {
        match m {
            Message::Schema(schema) => Ok(schema),
            _ => Err(
                Error::InvalidConversion(String::from_str("schema"), String::from_str(m.ty())),
            ),
        }
    }
}

impl Record {
    /// Strictly narrows a message to a record; see [`State::try_from`].
    pub fn try_from(m: Message) -> (r: Result<Record, Error>)
        ensures
            match r {
                Ok(rec) => m@ == MessageV::Record(rec@),
                Err(e) => !(m@ is Record) && (e matches Error::InvalidConversion(exp, act)
                    && exp@ == "record"@ && act@ == kind_name(m@)),
            },
    {
        match m {
            Message::Record(record) => Ok(record),
            _ => Err(
                Error::InvalidConversion(String::from_str("record"), String::from_str(m.ty())),
            ),
        }
    }
}

} // verus!
