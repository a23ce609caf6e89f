//! The tap side: invocation options, the catalog shape that discovery
//! reports, and the shared streaming writer that frames messages onto a
//! byte sink.

use std::io::Write;

use vstd::prelude::*;

use crate::codec;
use crate::codec::{encode_message_spec, line_clean};
use crate::json;
use crate::{Error, Message, Record, Schema, State};

verus! {

/// Discovery output: the streams a tap offers.
#[derive(Debug, Clone, PartialEq)]
pub struct Catalog {
    pub streams: Vec<Stream>,
}

/// One stream descriptor inside a [`Catalog`].
#[derive(Debug, Clone, PartialEq)]
pub struct Stream {
    /// The display name.
    pub stream: String,
    /// The unique stream identifier.
    pub tap_stream_id: String,
    /// The stream's schema document.
    pub schema: serde_json::Value,
    /// The destination table name, when any.
    pub table_name: Option<String>,
    /// Annotations on parts of the schema, when any.
    pub metadata: Option<Vec<Metadata>>,
}

/// One metadata annotation of a [`Stream`].
#[derive(Debug, Clone, PartialEq)]
pub struct Metadata {
    /// The annotation itself.
    pub metadata: serde_json::Value,
    /// The path of schema segments the annotation applies to.
    pub breadcrumb: Vec<String>,
}

/// The mathematical shape of a [`Metadata`].
pub struct MetadataV {
    pub metadata: serde_json::Value,
    pub breadcrumb: Seq<Seq<char>>,
}

/// The mathematical shape of a [`Stream`].
pub struct StreamV {
    pub stream: Seq<char>,
    pub tap_stream_id: Seq<char>,
    pub schema: serde_json::Value,
    pub table_name: Option<Seq<char>>,
    pub metadata: Option<Seq<MetadataV>>,
}

/// The mathematical shape of a [`Catalog`].
pub struct CatalogV {
    pub streams: Seq<StreamV>,
}

impl View for Metadata {
    type V = MetadataV;

    open spec fn view(&self) -> MetadataV {
        MetadataV { metadata: self.metadata, breadcrumb: self.breadcrumb.deep_view() }
    }
}

impl View for Stream {
    type V = StreamV;

    open spec fn view(&self) -> StreamV {
        StreamV {
            stream: self.stream@,
            tap_stream_id: self.tap_stream_id@,
            schema: self.schema,
            table_name: match self.table_name {
                Some(ref t) => Some(t@),
                None => None,
            },
            metadata: match self.metadata {
                Some(ref ms) => Some(ms@.map_values(|m: Metadata| m@)),
                None => None,
            },
        }
    }
}

impl View for Catalog {
    type V = CatalogV;

    open spec fn view(&self) -> CatalogV {
        CatalogV { streams: self.streams@.map_values(|s: Stream| s@) }
    }
}

/// The named options a tap invocation recognizes: exactly `config`,
/// `catalog`, `state` and `properties`, each an optional file path.
/// Requesting any other name is an invalid-option error, distinct from
/// requesting a recognized name that is unset.
#[derive(Debug, Clone, PartialEq, Eq)]
pub struct Context {
    pub config_path: Option<String>,
    pub catalog_path: Option<String>,
    pub state_path: Option<String>,
    pub properties_path: Option<String>,
}

impl Context {
    /// What the context holds under a recognized option name: `None` for
    /// an unrecognized name, `Some(None)` for a recognized but unset one.
    pub open spec fn spec_option(self, name: Seq<char>) -> Option<Option<Seq<char>>> {
        if name == "config"@ {
            Some(
                match self.config_path {
                    Some(ref s) => Some(s@),
                    None => None,
                },
            )
        } else if name == "catalog"@ {
            Some(
                match self.catalog_path {
                    Some(ref s) => Some(s@),
                    None => None,
                },
            )
        } else if name == "state"@ {
            Some(
                match self.state_path {
                    Some(ref s) => Some(s@),
                    None => None,
                },
            )
        } else if name == "properties"@ {
            Some(
                match self.properties_path {
                    Some(ref s) => Some(s@),
                    None => None,
                },
            )
        } else {
            None
        }
    }

    /// A context with every option unset.
    pub fn new() -> (r: Context)
        ensures
            r.config_path is None,
            r.catalog_path is None,
            r.state_path is None,
            r.properties_path is None,
    {
        Context { config_path: None, catalog_path: None, state_path: None, properties_path: None }
    }

    /// Resolves a recognized option to its value.  An unrecognized name
    /// is an invalid-option error; a recognized but unset one is an
    /// option-not-set error, and the two are distinguishable.
    pub fn get_option(&self, option: &str) -> (r: Result<String, Error>)
        ensures
            match r {
                Ok(s) => self.spec_option(option@) == Some(Some(s@)),
                Err(e) => match e {
                    Error::InvalidOption(o) => self.spec_option(option@) is None && o@ == option@,
                    Error::OptionNotSet(o) => self.spec_option(option@) == Some(None::<Seq<char>>)
                        && o@ == option@,
                    _ => false,
                },
            },
    {
        let name = String::from_str(option);
        let slot: &Option<String> = if name == String::from_str("config") {
            &self.config_path
        } else if name == String::from_str("catalog") {
            &self.catalog_path
        } else if name == String::from_str("state") {
            &self.state_path
        } else if name == String::from_str("properties") {
            &self.properties_path
        } else {
            return Err(Error::InvalidOption(name));
        };
        match slot {
            Some(s) => Ok(s.clone()),
            None => Err(Error::OptionNotSet(name)),
        }
    }

    /// Sets a recognized option, handing back the value it replaced; an
    /// unrecognized name is an invalid-option error and changes nothing.
    pub fn set_option(&mut self, option: &str, value: String) -> (r: Result<Option<String>, Error>)
        ensures
            match r {
                Ok(prev) => old(self).spec_option(option@) == Some(
                    match prev {
                        Some(ref p) => Some(p@),
                        None => None,
                    },
                ) && final(self).spec_option(option@) == Some(Some(value@)) && (forall|n: Seq<char>|
                    n != option@ ==> final(self).spec_option(n) == old(self).spec_option(n)),
                Err(e) => *final(self) == *old(self) && (e matches Error::InvalidOption(o) && o@
                    == option@) && old(self).spec_option(option@) is None,
            },
    {
        let name = String::from_str(option);
        let mut slot: Option<String> = Some(value);
        let r: Result<Option<String>, Error> = if name == String::from_str("config") {
            core::mem::swap(&mut self.config_path, &mut slot);
            Ok(slot)
        } else if name == String::from_str("catalog") {
            core::mem::swap(&mut self.catalog_path, &mut slot);
            Ok(slot)
        } else if name == String::from_str("state") {
            core::mem::swap(&mut self.state_path, &mut slot);
            Ok(slot)
        } else if name == String::from_str("properties") {
            core::mem::swap(&mut self.properties_path, &mut slot);
            Ok(slot)
        } else {
            Err(Error::InvalidOption(name))
        };
        proof {
            reveal_strlit("config");
            reveal_strlit("catalog");
            reveal_strlit("state");
            reveal_strlit("properties");
        }
        r
    }
}

/// A tap: a source of messages, run either in discovery mode, which
/// reports the catalog of streams it offers, or in sync mode, which
/// writes schema, record and state messages to the writer.
pub trait Tap {
    /// Runs the tap in discovery mode and reports its catalog.
    fn discover(&self, context: &mut Context) -> Result<Catalog, Error>;

    /// Runs the tap in sync mode, framing its messages onto the writer.
    fn sync(&mut self, context: &mut Context, writer: &mut MessageWriter) -> Result<(), Error>;
}

/// The text written through one handle of a shared sink, in order.
pub uninterp spec fn handle_log(w: InnerWriter) -> Seq<char>;

/// Whether `a` occurs inside `b` as a subsequence, in order but not
/// necessarily contiguously.
pub open spec fn embeds_in(a: Seq<char>, b: Seq<char>) -> bool
    decreases b.len(),
{
    if a.len() == 0 {
        true
    } else if b.len() == 0 {
        false
    } else {
        (a[0] == b[0] && embeds_in(a.drop_first(), b.drop_first())) || embeds_in(a, b.drop_first())
    }
}

/// One owner's handle on a shared, lock-guarded, buffered byte sink.
/// Cloning the handle shares the same lock and the same sink, so
/// independent owners can write without corrupting one another's frames;
/// the lock serializes each write as one uninterrupted unit.
#[verifier::external_body]
pub struct InnerWriter {
    handle: std::sync::Arc<std::sync::Mutex<std::io::BufWriter<Vec<u8>>>>,
}

impl InnerWriter {
    /// Relies on `Arc`, `Mutex`, `BufWriter` and `Vec::with_capacity`
    /// from std: a fresh sink with nothing written yet, pre-sized to the
    /// given capacity.
    #[verifier::external_body]
    pub fn new_sink(capacity: usize) -> (r: InnerWriter)
        ensures
            handle_log(r) == Seq::<char>::empty(),
    {
        InnerWriter {
            handle: std::sync::Arc::new(
                std::sync::Mutex::new(std::io::BufWriter::new(Vec::with_capacity(capacity))),
            ),
        }
    }

    /// Relies on `Arc`, `Mutex` and `BufWriter` from std: a sink seeded
    /// with the given bytes, with nothing written through the handle yet.
    #[verifier::external_body]
    pub fn from_buffer(buffer: Vec<u8>) -> (r: InnerWriter)
        ensures
            handle_log(r) == Seq::<char>::empty(),
    {
        InnerWriter {
            handle: std::sync::Arc::new(std::sync::Mutex::new(std::io::BufWriter::new(buffer))),
        }
    }

    /// Relies on `Arc::clone`: a second handle on the same lock and sink.
    /// The new handle has written nothing itself.
    #[verifier::external_body]
    pub fn clone_handle(&self) -> (r: InnerWriter)
        ensures
            handle_log(r) == Seq::<char>::empty(),
    {
        InnerWriter { handle: std::sync::Arc::clone(&self.handle) }
    }

    /// Relies on `Mutex::lock` and `Write::write_all`: appends the text's
    /// bytes to the shared sink as one uninterrupted unit.  The sink is an
    /// in-memory buffer, so the write cannot fail; a lock poisoned by a
    /// prior panic is taken over, since every write leaves plain memory
    /// whole.  The result type stands for sinks in general; this one
    /// always succeeds.
    #[verifier::external_body]
    pub fn write_str(&mut self, s: &str) -> (r: Result<(), Error>)
        ensures
            r is Ok,
            handle_log(*final(self)) == handle_log(*old(self)) + s@,
    {
        let mut guard = self.handle.lock().unwrap_or_else(|p| p.into_inner());
        guard.write_all(s.as_bytes()).expect("a write into memory cannot fail");
        Ok(())
    }

    /// Relies on `Mutex::lock` and `Write::flush`: forces buffered bytes
    /// down to the sink, changing nothing about what was written.  As for
    /// [`InnerWriter::write_str`], a flush into memory cannot fail.
    #[verifier::external_body]
    pub fn flush(&mut self) -> (r: Result<(), Error>)
        ensures
            r is Ok,
            handle_log(*final(self)) == handle_log(*old(self)),
    {
        let mut guard = self.handle.lock().unwrap_or_else(|p| p.into_inner());
        guard.flush().expect("a flush into memory cannot fail");
        Ok(())
    }

    /// Relies on `Arc::try_unwrap`, `Mutex::into_inner`,
    /// `BufWriter::into_inner` and `String::from_utf8`: reclaims the sink.
    /// Fails with an ownership error while any other handle on the same
    /// sink is alive, and with an ownership error when a prior panic left
    /// the lock poisoned.  On success the sink holds every write made
    /// through this handle, in order, possibly interleaved with whole
    /// writes made through handles that have since been dropped.  The
    /// contract states only the subsequence claim: the handle count and
    /// the other handles' writes are runtime state this per-handle model
    /// cannot see, so that reclaim must fail while a second handle is
    /// alive, that each chunk stays contiguous, and that a sole owner
    /// gets back exactly its own text, are exercised by tests rather
    /// than stated here.
    #[verifier::external_body]
    pub fn into_inner(self) -> (r: Result<String, Error>)
        ensures
            r is Ok ==> embeds_in(handle_log(self), r->Ok_0@),
            r is Err ==> (r->Err_0 is OtherError || r->Err_0 is IoError),
    {
        let mutex = std::sync::Arc::try_unwrap(self.handle).map_err(
            |_| Error::OtherError(String::from("the writer still has other owners")),
        )?;
        let buf = mutex.into_inner().map_err(
            |_| Error::OtherError(String::from("writer lock was poisoned")),
        )?;
        let sink = buf.into_inner().map_err(|e| Error::IoError(e.error().to_string()))?;
        String::from_utf8(sink).map_err(|e| Error::IoError(e.to_string()))
    }
}

/// Frames messages onto a shared byte sink, one compact JSON object and
/// one newline per message.  Cloning the writer hands a second owner the
/// same sink; the internal lock keeps each message's frame, newline
/// included, one uninterrupted unit, though no ordering holds between
/// independent owners beyond that atomicity.
pub struct MessageWriter {
    inner: InnerWriter,
}

impl MessageWriter {
    /// The text this handle has framed onto the sink, in order.
    pub closed spec fn log(self) -> Seq<char> {
        handle_log(self.inner)
    }

    /// A writer over a fresh in-memory sink.
    pub fn new() -> (r: MessageWriter)
        ensures
            r.log() == Seq::<char>::empty(),
    {
        MessageWriter { inner: InnerWriter::new_sink(0) }
    }

    /// A writer over a fresh in-memory sink.
    pub fn to_buffer() -> (r: MessageWriter)
        ensures
            r.log() == Seq::<char>::empty(),
    {
        MessageWriter::new()
    }

    /// A writer over a fresh in-memory sink pre-sized to a capacity.
    pub fn with_capacity(capacity: usize) -> (r: MessageWriter)
        ensures
            r.log() == Seq::<char>::empty(),
    {
        MessageWriter { inner: InnerWriter::new_sink(capacity) }
    }

    /// A writer whose sink is seeded with the given bytes.  The contracts
    /// track only the text framed through the writer's handles; the seed
    /// reappears, untracked, in front of what reclaim returns.
    pub fn with_buffer(buffer: Vec<u8>) -> (r: MessageWriter)
        ensures
            r.log() == Seq::<char>::empty(),
    {
        MessageWriter { inner: InnerWriter::from_buffer(buffer) }
    }

    /// A second owner of the same sink.  What it writes interleaves with
    /// this writer's frames without ever splitting one.  That the two
    /// owners' frames land in one buffer, and that reclaim refuses to run
    /// while both are alive, lie outside the per-handle model and are
    /// exercised by tests.
    pub fn clone_handle(&self) -> (r: MessageWriter)
        ensures
            r.log() == Seq::<char>::empty(),
    {
        MessageWriter { inner: self.inner.clone_handle() }
    }

    /// Frames one message onto the sink: its wire text followed by one
    /// newline, written as one uninterrupted unit.
    pub fn write_message(&mut self, message: &Message) -> (r: Result<(), Error>)
        ensures
            r is Ok,
            final(self).log() == old(self).log() + encode_message_spec(message@) + seq!['\n'],
            line_clean(encode_message_spec(message@)) && encode_message_spec(message@).len() > 0,
    {
        let mut frame = codec::encode_message(message);
        frame.push('\n');
        let text = json::string_from_chars(&frame);
        self.inner.write_str(text.as_str())
    }

    /// Frames a record message; see [`MessageWriter::write_message`].
    pub fn write_record(&mut self, record: Record) -> (r: Result<(), Error>)
        ensures
            r is Ok,
            final(self).log() == old(self).log() + encode_message_spec(
                crate::MessageV::Record(record@),
            ) + seq!['\n'],
    {
        self.write_message(&Message::Record(record))
    }

    /// Frames a state message; see [`MessageWriter::write_message`].
    pub fn write_state(&mut self, state: State) -> (r: Result<(), Error>)
        ensures
            r is Ok,
            final(self).log() == old(self).log() + encode_message_spec(
                crate::MessageV::State(state@),
            ) + seq!['\n'],
    {
        self.write_message(&Message::State(state))
    }

    /// Frames a schema message; see [`MessageWriter::write_message`].
    pub fn write_schema(&mut self, schema: Schema) -> (r: Result<(), Error>)
        ensures
            r is Ok,
            final(self).log() == old(self).log() + encode_message_spec(
                crate::MessageV::Schema(schema@),
            ) + seq!['\n'],
    {
        self.write_message(&Message::Schema(schema))
    }

    /// Writes one bare newline.
    pub fn write_line(&mut self) -> (r: Result<(), Error>)
        ensures
            r is Ok,
            final(self).log() == old(self).log() + seq!['\n'],
    {
        let r = self.inner.write_str("\n");
        proof {
            reveal_strlit("\n");
            assert("\n"@ =~= seq!['\n']);
        }
        r
    }

    /// Copies raw text through to the sink unchanged, for streams that
    /// were already framed by their producer.
    pub fn write_raw(&mut self, data: &str) -> (r: Result<(), Error>)
        ensures
            r is Ok,
            final(self).log() == old(self).log() + data@,
    {
        self.inner.write_str(data)
    }

    /// Forces buffered bytes down to the sink.
    pub fn flush(&mut self) -> (r: Result<(), Error>)
        ensures
            r is Ok,
            final(self).log() == old(self).log(),
    {
        self.inner.flush()
    }

    /// Reclaims the sink's text.  Fails with an ownership error while any
    /// other owner of the writer is alive, or when the lock was poisoned
    /// by a prior failure; on success the text contains everything this
    /// writer framed, in order.
    pub fn into_inner(self) -> (r: Result<String, Error>)
        ensures
            r is Ok ==> embeds_in(self.log(), r->Ok_0@),
            r is Err ==> (r->Err_0 is OtherError || r->Err_0 is IoError),
    {
        self.inner.into_inner()
    }
}

} // verus!
