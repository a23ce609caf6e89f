//! The target side: compiled schema validators, the per-stream registry
//! that gates records, and the processor that drives a whole message
//! stream into application handlers.

use vstd::prelude::*;

use crate::codec;
use crate::json;
use crate::{Error, Message, MessageV, Record, RecordV, Schema, SchemaV, State};

verus! {

/// The schema dialect a document is compiled under.
#[derive(Debug, Clone, Copy, PartialEq, Eq)]
pub enum Draft {
    Draft4,
    Draft6,
    Draft7,
}

/// The compiled validator's verdict on an instance document.
pub uninterp spec fn validator_accepts(js: JSONSchema, instance: serde_json::Value) -> bool;

/// The text describing the first constraint an instance violates.
pub uninterp spec fn violation_text(js: JSONSchema, instance: serde_json::Value) -> Seq<char>;

/// The schema document a compiled validator was built from.
pub uninterp spec fn schema_doc(js: JSONSchema) -> serde_json::Value;

/// Whether the dialect's builder accepts a document as a schema.
pub uninterp spec fn compiles(d: Draft, v: serde_json::Value) -> bool;

/// Whether the dialect-detecting builder accepts a document as a schema.
pub uninterp spec fn compiles_detected(v: serde_json::Value) -> bool;

/// A schema document together with the validator compiled from it.  The
/// two are owned side by side, so neither can outlive the other, and the
/// compiled form is rebuilt from nothing but the document.
#[verifier::external_body]
#[derive(Debug)]
pub struct JSONSchema {
    validator: jsonschema::Validator,
    value: serde_json::Value,
}

impl JSONSchema {
    /// Relies on `jsonschema::validator_for`: compiles a document under
    /// the dialect its `$schema` member names, failing exactly when the
    /// document is not a structurally valid schema.
    #[verifier::external_body]
    fn compile_detected(value: serde_json::Value) -> (r: Result<JSONSchema, Error>)
        ensures
            r is Ok <==> compiles_detected(value),
            r is Ok ==> schema_doc(r->Ok_0) == value,
            r is Err ==> r->Err_0 is JSONSchemaCompilationError,
    {
        match jsonschema::validator_for(&value) {
            Ok(validator) => Ok(JSONSchema { validator, value }),
            Err(_) => Err(Error::JSONSchemaCompilationError),
        }
    }

    /// Relies on `jsonschema::draft4::new`: compiles a document under
    /// dialect four, failing exactly when it is not a valid schema there.
    #[verifier::external_body]
    fn compile_draft4(value: serde_json::Value) -> (r: Result<JSONSchema, Error>)
        ensures
            r is Ok <==> compiles(Draft::Draft4, value),
            r is Ok ==> schema_doc(r->Ok_0) == value,
            r is Err ==> r->Err_0 is JSONSchemaCompilationError,
    {
        match jsonschema::draft4::new(&value) {
            Ok(validator) => Ok(JSONSchema { validator, value }),
            Err(_) => Err(Error::JSONSchemaCompilationError),
        }
    }

    /// Relies on `jsonschema::draft6::new`, as for dialect four.
    #[verifier::external_body]
    fn compile_draft6(value: serde_json::Value) -> (r: Result<JSONSchema, Error>)
        ensures
            r is Ok <==> compiles(Draft::Draft6, value),
            r is Ok ==> schema_doc(r->Ok_0) == value,
            r is Err ==> r->Err_0 is JSONSchemaCompilationError,
    {
        match jsonschema::draft6::new(&value) {
            Ok(validator) => Ok(JSONSchema { validator, value }),
            Err(_) => Err(Error::JSONSchemaCompilationError),
        }
    }

    /// Relies on `jsonschema::draft7::new`, as for dialect four.
    #[verifier::external_body]
    fn compile_draft7(value: serde_json::Value) -> (r: Result<JSONSchema, Error>)
        ensures
            r is Ok <==> compiles(Draft::Draft7, value),
            r is Ok ==> schema_doc(r->Ok_0) == value,
            r is Err ==> r->Err_0 is JSONSchemaCompilationError,
    {
        match jsonschema::draft7::new(&value) {
            Ok(validator) => Ok(JSONSchema { validator, value }),
            Err(_) => Err(Error::JSONSchemaCompilationError),
        }
    }

    /// Compiles a schema document under the dialect it names itself.
    pub fn new(value: serde_json::Value) -> (r: Result<JSONSchema, Error>)
        ensures
            r is Ok <==> compiles_detected(value),
            r is Ok ==> schema_doc(r->Ok_0) == value,
            r is Err ==> r->Err_0 is JSONSchemaCompilationError,
    {
        JSONSchema::compile_detected(value)
    }

    /// Compiles a schema document under a chosen dialect.
    pub fn with_draft(value: serde_json::Value, draft: Draft) -> (r: Result<JSONSchema, Error>)
        ensures
            r is Ok <==> compiles(draft, value),
            r is Ok ==> schema_doc(r->Ok_0) == value,
            r is Err ==> r->Err_0 is JSONSchemaCompilationError,
    {
        match draft {
            Draft::Draft4 => JSONSchema::compile_draft4(value),
            Draft::Draft6 => JSONSchema::compile_draft6(value),
            Draft::Draft7 => JSONSchema::compile_draft7(value),
        }
    }

    /// Relies on `jsonschema::Validator::is_valid`: whether the instance
    /// satisfies the compiled schema.
    #[verifier::external_body]
    pub fn is_valid(&self, value: &serde_json::Value) -> (r: bool)
        ensures
            r == validator_accepts(*self, *value),
    {
        self.validator.is_valid(value)
    }

    /// Relies on `jsonschema::Validator::validate`: succeeds exactly on
    /// instances the schema accepts, and otherwise describes the first
    /// violated constraint.
    #[verifier::external_body]
    fn first_violation(&self, value: &serde_json::Value) -> (r: Option<String>)
        ensures
            r is None <==> validator_accepts(*self, *value),
            r is Some ==> r->0@ == violation_text(*self, *value),
    {
        match self.validator.validate(value) {
            Ok(()) => None,
            Err(e) => Some(e.to_string()),
        }
    }

    /// Checks an instance, failing with a validation error that carries
    /// the first violated constraint's description.
    pub fn validate(&self, value: &serde_json::Value) -> (r: Result<(), Error>)
        ensures
            r is Ok <==> validator_accepts(*self, *value),
            r is Err ==> (r->Err_0 matches Error::JSONSchemaValidationError(d) && d@
                == violation_text(*self, *value)),
    {
        match self.first_violation(value) {
            None => Ok(()),
            Some(d) => Err(Error::JSONSchemaValidationError(d)),
        }
    }
}

spec fn find_in(entries: Seq<(String, JSONSchema)>, stream: Seq<char>) -> Option<JSONSchema>
    decreases entries.len(),
{
    if entries.len() == 0 {
        None
    } else if entries[0].0@ == stream {
        Some(entries[0].1)
    } else {
        find_in(entries.drop_first(), stream)
    }
}

/// The per-stream registry of compiled validators that gates records: a
/// record is accepted only against its stream's registered schema, and a
/// stream with no registered schema rejects every record.
#[derive(Debug)]
pub struct Context {
    schemas: Vec<(String, JSONSchema)>,
}

impl Context {
    /// The validator registered for a stream, when any.
    pub closed spec fn registered(self, stream: Seq<char>) -> Option<JSONSchema> {
        find_in(self.schemas@, stream)
    }

    /// An empty registry.
    pub fn new() -> (r: Context)
        ensures
            forall|s: Seq<char>| #[trigger] r.registered(s) is None,
    {
        Context { schemas: Vec::new() }
    }

    fn lookup(&self, stream: &String) -> (r: Option<&JSONSchema>)
        ensures
            match r {
                Some(js) => self.registered(stream@) == Some(*js),
                None => self.registered(stream@) is None,
            },
    {
        let mut i: usize = 0;
        proof {
            assert(self.schemas@.skip(0) =~= self.schemas@);
        }
        while i < self.schemas.len()
            invariant
                0 <= i <= self.schemas.len(),
                find_in(self.schemas@, stream@) == find_in(self.schemas@.skip(i as int), stream@),
            decreases self.schemas.len() - i,
        {
            if self.schemas[i].0 == *stream {
                proof {
                    assert(self.schemas@.skip(i as int)[0] == self.schemas@[i as int]);
                    assert(find_in(self.schemas@.skip(i as int), stream@) == Some(
                        self.schemas@[i as int].1,
                    ));
                }
                return Some(&self.schemas[i].1);
            }
            proof {
                assert(self.schemas@.skip(i as int).drop_first() =~= self.schemas@.skip(i + 1int));
                assert(self.schemas@.skip(i as int)[0] == self.schemas@[i as int]);
            }
            i += 1;
        }
        None
    }

    /// Whether the schema's stream already has a registered validator.
    pub fn has_schema(&self, schema: &Schema) -> (r: bool)
        ensures
            r == (self.registered(schema.stream@) is Some),
    {
        self.lookup(&schema.stream).is_some()
    }

    /// Compiles the schema's document under dialect four and registers it
    /// for the schema's stream, replacing any earlier registration.  Fails
    /// with a compilation error, registering nothing, exactly when the
    /// document is not a valid schema.
    pub fn insert_schema(&mut self, schema: &Schema) -> (r: Result<(), Error>)
        ensures
            r is Ok <==> compiles(Draft::Draft4, schema.schema),
            r is Ok ==> (final(self).registered(schema.stream@) matches Some(js) && schema_doc(
                js,
            ) == schema.schema),
            r is Ok ==> forall|s: Seq<char>|
                s != schema.stream@ ==> #[trigger] final(self).registered(s) == old(self).registered(s),
            r is Err ==> *final(self) == *old(self) && r->Err_0 is JSONSchemaCompilationError,
    {
        let js = JSONSchema::with_draft(schema.schema.clone(), Draft::Draft4)?;
        let ghost prev = self.schemas@;
        self.schemas.insert(0, (schema.stream.clone(), js));
        proof {
            assert(self.schemas@[0].0@ == schema.stream@);
            assert(self.schemas@.drop_first() =~= prev);
        }
        Ok(())
    }

    /// Registers the schema's stream unless it already has a validator.
    /// Registering a stream a second time is a no-op: it neither fails
    /// nor recompiles, and the originally compiled validator is retained
    /// untouched.
    pub fn register(&mut self, schema: &Schema) -> (r: Result<(), Error>)
        ensures
            old(self).registered(schema.stream@) is Some ==> r is Ok && *final(self) == *old(self),
            old(self).registered(schema.stream@) is None ==> {
                &&& r is Ok <==> compiles(Draft::Draft4, schema.schema)
                &&& r is Ok ==> (final(self).registered(schema.stream@) matches Some(js)
                    && schema_doc(js) == schema.schema)
                &&& r is Ok ==> forall|s: Seq<char>|
                    s != schema.stream@ ==> #[trigger] final(self).registered(s) == old(self).registered(s)
                &&& r is Err ==> *final(self) == *old(self)
                    && r->Err_0 is JSONSchemaCompilationError
            },
    {
        if !self.has_schema(schema) {
            self.insert_schema(schema)
        } else {
            Ok(())
        }
    }

    /// Gates one record.  A stream with no registered schema fails with a
    /// not-registered error whatever the payload; a registered stream
    /// accepts exactly the payloads its validator accepts, and a
    /// rejection carries the first violated constraint's description.
    pub fn validate_record(&self, record: &Record) -> (r: Result<(), Error>)
        ensures
            match self.registered(record.stream@) {
                None => (r matches Err(Error::JSONSchemaNotRegistered(s)) && s@ == record.stream@),
                Some(js) => {
                    &&& r is Ok <==> validator_accepts(js, record.record)
                    &&& r is Err ==> (r->Err_0 matches Error::JSONSchemaValidationError(d) && d@
                        == violation_text(js, record.record))
                },
            },
    {
        let js = match self.lookup(&record.stream) {
            Some(js) => js,
            None => {
                return Err(Error::JSONSchemaNotRegistered(record.stream.clone()));
            },
        };
        if !js.is_valid(&record.record) {
            js.validate(&record.record)?;
        }
        Ok(())
    }
}

/// How one registry evolves across processing: every validator already
/// registered is retained, under its stream, unchanged.
pub open spec fn retains(a: Context, b: Context) -> bool {
    forall|s: Seq<char>| a.registered(s) is Some ==> #[trigger] b.registered(s) == a.registered(s)
}

proof fn lemma_retains_trans(a: Context, b: Context, c: Context)
    requires
        retains(a, b),
        retains(b, c),
    ensures
        retains(a, c),
{
    assert forall|s: Seq<char>| a.registered(s) is Some implies #[trigger] c.registered(s)
        == a.registered(s) by {
        assert(b.registered(s) == a.registered(s));
    }
}

/// The record one line contributes to a run: one element for a nonempty
/// line that decodes to a record message, nothing otherwise.
pub open spec fn record_of_line(l: Seq<char>) -> Seq<RecordV> {
    if l.len() > 0 {
        match codec::decoded_line(l) {
            Some(MessageV::Record(rv)) => seq![rv],
            _ => Seq::empty(),
        }
    } else {
        Seq::empty()
    }
}

/// The records among the decoded messages of a stream's nonempty lines,
/// in arrival order.
pub open spec fn records_in(lines: Seq<Seq<char>>) -> Seq<RecordV>
    decreases lines.len(),
{
    if lines.len() == 0 {
        Seq::empty()
    } else {
        records_in(lines.drop_last()) + record_of_line(lines.last())
    }
}

proof fn lemma_records_in_take(lines: Seq<Seq<char>>, i: int)
    requires
        0 <= i < lines.len(),
    ensures
        records_in(lines.take(i + 1)) == records_in(lines.take(i)) + record_of_line(lines[i]),
{
    assert(lines.take(i + 1).drop_last() =~= lines.take(i));
    assert(lines.take(i + 1).last() == lines[i]);
}

proof fn lemma_records_in_empty_lines(lines: Seq<Seq<char>>)
    requires
        forall|i: int| 0 <= i < lines.len() ==> (#[trigger] lines[i]).len() == 0,
    ensures
        records_in(lines) == Seq::<RecordV>::empty(),
    decreases lines.len(),
{
    if lines.len() == 0 {
    } else {
        assert forall|i: int|
            0 <= i < lines.drop_last().len() implies (#[trigger] lines.drop_last()[i]).len()
            == 0 by {
            assert(lines.drop_last()[i] == lines[i]);
        }
        lemma_records_in_empty_lines(lines.drop_last());
        assert(lines.last().len() == 0);
        assert(records_in(lines) =~= Seq::<RecordV>::empty());
    }
}

/// What one line registers: a nonempty line decoding to a schema
/// message for the stream, whose document compiles under the fixed
/// dialect.
pub open spec fn line_registers(l: Seq<char>, s: Seq<char>) -> bool {
    l.len() > 0 && (codec::decoded_line(l) matches Some(MessageV::Schema(sv)) && sv.stream == s
        && compiles(Draft::Draft4, sv.schema))
}

/// Whether a stream has a registered schema once the given lines have
/// been handled, starting from the registry `init`: registered at the
/// start, or registered by one of the lines.  The schema handler's
/// contract pins the registry this tightly, so the registered streams
/// after any prefix of a run are a function of where the run began and
/// what it read.
pub open spec fn stream_known(init: Context, lines: Seq<Seq<char>>, s: Seq<char>) -> bool
    decreases lines.len(),
{
    if lines.len() == 0 {
        init.registered(s) is Some
    } else {
        stream_known(init, lines.drop_last(), s) || line_registers(lines.last(), s)
    }
}

proof fn lemma_stream_known_take(init: Context, lines: Seq<Seq<char>>, i: int)
    requires
        0 <= i < lines.len(),
    ensures
        forall|s: Seq<char>| #[trigger] stream_known(init, lines.take(i + 1), s) == (stream_known(
            init,
            lines.take(i),
            s,
        ) || line_registers(lines[i], s)),
{
    assert(lines.take(i + 1).drop_last() =~= lines.take(i));
    assert(lines.take(i + 1).last() == lines[i]);
}

/// Every line before `k` was fully handled: each nonempty one decodes;
/// each record among them arrived with its stream's schema already
/// registered and was accepted by that stream's validator, retained
/// unchanged into `fin`; and each schema among them left its stream
/// registered.
pub open spec fn prefix_handled(init: Context, fin: Context, lines: Seq<Seq<char>>, k: int) -> bool {
    &&& forall|j: int|
        0 <= j < k && lines[j].len() > 0 ==> codec::decoded_line(#[trigger] lines[j]) is Some
    &&& forall|j: int|
        0 <= j < k && lines[j].len() > 0 ==> ((#[trigger] codec::decoded_line(
            lines[j],
        )) matches Some(MessageV::Record(rv)) ==> (stream_known(init, lines.take(j), rv.stream) && (
        fin.registered(rv.stream) matches Some(js) && validator_accepts(js, rv.record))))
    &&& forall|j: int|
        0 <= j < k && lines[j].len() > 0 ==> ((#[trigger] codec::decoded_line(
            lines[j],
        )) matches Some(MessageV::Schema(sv)) ==> fin.registered(sv.stream) is Some)
}

proof fn lemma_prefix_handled_retains(
    init: Context,
    a: Context,
    b: Context,
    lines: Seq<Seq<char>>,
    k: int,
)
    requires
        prefix_handled(init, a, lines, k),
        retains(a, b),
    ensures
        prefix_handled(init, b, lines, k),
{
    assert forall|j: int|
        0 <= j < k && lines[j].len() > 0 implies ((#[trigger] codec::decoded_line(
        lines[j],
    )) matches Some(MessageV::Record(rv)) ==> (stream_known(init, lines.take(j), rv.stream) && (
    b.registered(rv.stream) matches Some(js) && validator_accepts(js, rv.record)))) by {
        match codec::decoded_line(lines[j]) {
            Some(MessageV::Record(rv)) => {
                assert(a.registered(rv.stream) is Some);
                assert(b.registered(rv.stream) == a.registered(rv.stream));
            },
            _ => (),
        }
    }
    assert forall|j: int|
        0 <= j < k && lines[j].len() > 0 implies ((#[trigger] codec::decoded_line(
        lines[j],
    )) matches Some(MessageV::Schema(sv)) ==> b.registered(sv.stream) is Some) by {
        match codec::decoded_line(lines[j]) {
            Some(MessageV::Schema(sv)) => {
                if a.registered(sv.stream) is Some {
                    assert(b.registered(sv.stream) == a.registered(sv.stream));
                }
            },
            _ => (),
        }
    }
}

proof fn lemma_prefix_handled_extend(init: Context, fin: Context, lines: Seq<Seq<char>>, k: int)
    requires
        0 <= k < lines.len(),
        prefix_handled(init, fin, lines, k),
        lines[k].len() > 0 ==> codec::decoded_line(lines[k]) is Some,
        lines[k].len() > 0 ==> (codec::decoded_line(lines[k]) matches Some(MessageV::Record(rv))
            ==> (stream_known(init, lines.take(k), rv.stream) && (fin.registered(
            rv.stream,
        ) matches Some(js) && validator_accepts(js, rv.record)))),
        lines[k].len() > 0 ==> (codec::decoded_line(lines[k]) matches Some(MessageV::Schema(sv))
            ==> fin.registered(sv.stream) is Some),
    ensures
        prefix_handled(init, fin, lines, k + 1),
{
}

/// What the line an aborted run stopped at looks like, and which error
/// each library-raised abort surfaces: an undecodable line is a
/// deserialization error, a record arriving before its stream's schema
/// is a not-registered error carrying the stream, a record its
/// validator rejects is a validation error, and a schema whose document
/// does not compile is a compilation error.  A handler's own refusal —
/// of a record that passed validation, or of a checkpoint — carries
/// whatever error that handler chose, which the trait leaves open.
pub open spec fn abort_case(
    init: Context,
    fin: Context,
    lines: Seq<Seq<char>>,
    k: int,
    e: Error,
) -> bool {
    &&& lines[k].len() > 0
    &&& match codec::decoded_line(lines[k]) {
        None => e is DeserializationError,
        Some(MessageV::Record(rv)) => {
            ||| (!stream_known(init, lines.take(k), rv.stream) && (e matches Error::JSONSchemaNotRegistered(s)
                && s@ == rv.stream))
            ||| (stream_known(init, lines.take(k), rv.stream) && (fin.registered(
                rv.stream,
            ) matches Some(js) && !validator_accepts(js, rv.record))
                && e is JSONSchemaValidationError)
            ||| (stream_known(init, lines.take(k), rv.stream) && (fin.registered(
                rv.stream,
            ) matches Some(js) && validator_accepts(js, rv.record)))
        },
        Some(MessageV::Schema(sv)) => !stream_known(init, lines.take(k), sv.stream) && !compiles(
            Draft::Draft4,
            sv.schema,
        ) && e is JSONSchemaCompilationError,
        Some(MessageV::State(_)) => true,
    }
}

/// How a failed run relates to the stream it read: the records of some
/// fully handled prefix were delivered, and the line after that prefix
/// is the failure, shaped as [`abort_case`] says.
pub open spec fn failed_run(
    init: Context,
    fin: Context,
    delivered_before: Seq<RecordV>,
    delivered_after: Seq<RecordV>,
    lines: Seq<Seq<char>>,
    e: Error,
) -> bool {
    exists|k: int|
        0 <= k < lines.len() && #[trigger] abort_case(init, fin, lines, k, e) && prefix_handled(
            init,
            fin,
            lines,
            k,
        ) && delivered_after == delivered_before + records_in(lines.take(k))
}

/// A target: the application side that consumes a validated message
/// stream.  Only record handling is mandatory; the state and schema
/// handlers default to a checkpoint no-op and to registry registration.
/// The `delivered` view is the trait's ledger — the records a target has
/// accepted, in arrival order — and is what lets the stream processor
/// state exactly which records reach the application.
pub trait Target {
    /// The records this target has taken delivery of, in arrival order.
    /// A target that accepts records overrides this ledger to say where
    /// they went; the default, an empty ledger, suits only targets whose
    /// record handler is never asked to succeed.
    open spec fn delivered(&self) -> Seq<RecordV> {
        Seq::empty()
    }

    /// Takes delivery of one record that already passed its stream's
    /// schema validation.  Acceptance appends the record to `delivered`;
    /// refusal leaves the ledger as it was.
    fn process_record(&mut self, record: Record) -> (r: Result<(), Error>)
        ensures
            r is Ok ==> final(self).delivered() == old(self).delivered().push(record@),
            r is Err ==> final(self).delivered() == old(self).delivered(),
    ;

    /// Takes delivery of one checkpoint; by default it is dropped.  A
    /// checkpoint never counts as a delivered record, and no view
    /// ledgers checkpoints: the default handler is a no-op that touches
    /// nothing, so a contract demanding a growing checkpoint ledger
    /// could hold of no such handler.  A target that cares about
    /// checkpoints overrides this and keeps its own account.
    fn process_state(&mut self, state: State) -> (r: Result<(), Error>)
        ensures
            final(self).delivered() == old(self).delivered(),
        default_ensures
            r is Ok,
    {
        Ok(())
    }

    /// Handles one schema message.  Whatever bookkeeping an
    /// implementation adds, the registry keeps the registration
    /// protocol: a stream already registered keeps its original
    /// validator, with no error and no recompilation, and a new stream
    /// is registered exactly when its document compiles under the fixed
    /// dialect; no record is delivered here.  The default body is plain
    /// registration.
    fn process_schema(&mut self, context: &mut Context, schema: Schema) -> (r: Result<(), Error>)
        ensures
            final(self).delivered() == old(self).delivered(),
            old(context).registered(schema.stream@) is Some ==> r is Ok && *final(context) == *old(
                context,
            ),
            old(context).registered(schema.stream@) is None ==> {
                &&& r is Ok <==> compiles(Draft::Draft4, schema.schema)
                &&& r is Ok ==> (final(context).registered(schema.stream@) matches Some(js)
                    && schema_doc(js) == schema.schema)
                &&& r is Ok ==> forall|s: Seq<char>|
                    s != schema.stream@ ==> #[trigger] final(context).registered(s) == old(
                        context,
                    ).registered(s)
                &&& r is Err ==> *final(context) == *old(context)
                    && r->Err_0 is JSONSchemaCompilationError
            },
    {
        context.register(&schema)
    }

    /// Drives a whole newline-delimited message stream, in arrival
    /// order: schemas register their stream, records are validated
    /// against the registry as it stands at their arrival and then
    /// delivered, states go to the checkpoint handler.  The first
    /// decode failure, validation failure or handler failure aborts the
    /// run; nothing past it is ever handed on.  On success every line
    /// decoded, the delivered records are exactly the stream's record
    /// messages in order, each accepted by a schema registered before
    /// it arrived, and the registered streams are exactly those known
    /// at the start plus those the stream's schemas registered.  On
    /// failure the delivered records are those before some fully
    /// handled prefix whose next line is the failure, and every
    /// library-raised abort carries its own error kind; only a
    /// handler's refusal of a validated record or of a checkpoint
    /// leaves the error open.  The registry only ever grows, each
    /// registered validator retained.  Success itself is never owed:
    /// any handler may refuse its message, so even a fully well-formed
    /// stream can end in that handler's error.
    fn process_reader(&mut self, context: &mut Context, source: &str) -> (r: Result<(), Error>)
        ensures
            retains(*old(context), *final(context)),
            (forall|i: int|
                0 <= i < codec::split_lines(source@).len() ==> (#[trigger] codec::split_lines(
                    source@,
                )[i]).len() == 0) ==> (r is Ok && *final(context) == *old(context) && final(self).delivered() == old(self).delivered()),
            (exists|i: int|
                0 <= i < codec::split_lines(source@).len() && codec::split_lines(source@)[i].len()
                    > 0 && codec::decoded_line(
                    #[trigger] codec::split_lines(source@)[i],
                ) is None) ==> r is Err,
            r is Ok ==> prefix_handled(
                *old(context),
                *final(context),
                codec::split_lines(source@),
                codec::split_lines(source@).len() as int,
            ),
            r is Ok ==> final(self).delivered() == old(self).delivered() + records_in(
                codec::split_lines(source@),
            ),
            r is Ok ==> forall|s: Seq<char>|
                (#[trigger] final(context).registered(s)) is Some <==> stream_known(
                    *old(context),
                    codec::split_lines(source@),
                    s,
                ),
            r is Err ==> failed_run(
                *old(context),
                *final(context),
                old(self).delivered(),
                final(self).delivered(),
                codec::split_lines(source@),
                r->Err_0,
            ),
    {
        let ghost gl = codec::split_lines(source@);
        let ghost init = *old(context);
        let chars = json::chars_of(source);
        let lines = codec::split_stream(&chars);
        let mut i: usize = 0;
        proof {
            assert(gl.take(0) =~= Seq::<Seq<char>>::empty());
            assert(old(self).delivered() + records_in(gl.take(0)) =~= old(self).delivered());
            assert forall|s: Seq<char>| (#[trigger] context.registered(s)) is Some <==> stream_known(
                init,
                gl.take(0),
                s,
            ) by {
                assert(stream_known(init, gl.take(0), s) == (init.registered(s) is Some));
            }
        }
        while i < lines.len()
            invariant
                0 <= i <= lines.len(),
                lines.deep_view() == gl,
                gl == codec::split_lines(source@),
                init == *old(context),
                retains(init, *context),
                (forall|j: int| 0 <= j < i ==> (#[trigger] gl[j]).len() == 0) ==> *context == init,
                self.delivered() == old(self).delivered() + records_in(gl.take(i as int)),
                forall|s: Seq<char>|
                    (#[trigger] context.registered(s)) is Some <==> stream_known(
                        init,
                        gl.take(i as int),
                        s,
                    ),
                prefix_handled(init, *context, gl, i as int),
            decreases lines.len() - i,
        {
            let line = &lines[i];
            proof {
                assert(gl[i as int] == lines@[i as int]@);
            }
            if line.as_str().unicode_len() > 0 {
                let message: Message;
                match codec::decode_line(line.as_str()) {
                    Ok(m) => {
                        message = m;
                    },
                    Err(e) => {
                        proof {
                            assert(abort_case(init, *context, gl, i as int, e));
                            assert(0 <= (i as int) && (i as int) < gl.len() && self.delivered() == old(self).delivered() + records_in(gl.take(i as int)) && prefix_handled(
                                init,
                                *context,
                                gl,
                                i as int,
                            ));
                            assert(failed_run(
                                *old(context),
                                *context,
                                old(self).delivered(),
                                self.delivered(),
                                codec::split_lines(source@),
                                e,
                            ));
                        }
                        return Err(e);
                    },
                }
                let ghost mv = message@;
                proof {
                    assert(codec::decoded_line(gl[i as int]) == Some(mv));
                }
                let ghost cb = *context;
                match message {
                    Message::Schema(schema) => {
                        let ghost sv = schema@;
                        match self.process_schema(context, schema) {
                            Ok(()) => (),
                            Err(e) => {
                                proof {
                                    assert(cb.registered(sv.stream) is None);
                                    assert(*context == cb);
                                    assert(!stream_known(init, gl.take(i as int), sv.stream));
                                    assert(!compiles(Draft::Draft4, sv.schema));
                                    assert(abort_case(init, *context, gl, i as int, e));
                                    assert(0 <= (i as int) && (i as int) < gl.len() && self.delivered() == old(self).delivered() + records_in(gl.take(i as int))
                                        && prefix_handled(init, *context, gl, i as int));
                                    assert(failed_run(
                                        *old(context),
                                        *context,
                                        old(self).delivered(),
                                        self.delivered(),
                                        codec::split_lines(source@),
                                        e,
                                    ));
                                }
                                return Err(e);
                            },
                        }
                        proof {
                            lemma_step_retains(cb, *context, sv);
                            lemma_retains_trans(init, cb, *context);
                            assert(context.registered(sv.stream) is Some);
                            lemma_stream_known_take(init, gl, i as int);
                            assert forall|s: Seq<char>|
                                (#[trigger] context.registered(s)) is Some <==> stream_known(
                                    init,
                                    gl.take(i + 1int),
                                    s,
                                ) by {
                                if s == sv.stream {
                                    if cb.registered(sv.stream) is None {
                                        assert(compiles(Draft::Draft4, sv.schema));
                                        assert(line_registers(gl[i as int], s));
                                    }
                                } else {
                                    assert(!line_registers(gl[i as int], s));
                                    assert(context.registered(s) == cb.registered(s));
                                }
                            }
                            lemma_prefix_handled_retains(init, cb, *context, gl, i as int);
                            lemma_prefix_handled_extend(init, *context, gl, i as int);
                            lemma_records_in_take(gl, i as int);
                            assert(record_of_line(gl[i as int]) =~= Seq::<RecordV>::empty());
                            assert(self.delivered() =~= old(self).delivered() + records_in(
                                gl.take(i + 1int),
                            ));
                        }
                    },
                    Message::Record(record) => {
                        let ghost rv = record@;
                        match context.validate_record(&record) {
                            Ok(()) => (),
                            Err(e) => {
                                proof {
                                    match context.registered(rv.stream) {
                                        Option::None => {
                                            assert(!stream_known(
                                                init,
                                                gl.take(i as int),
                                                rv.stream,
                                            ));
                                            assert(e matches Error::JSONSchemaNotRegistered(st)
                                                && st@ == rv.stream);
                                        },
                                        Option::Some(js) => {
                                            assert(!validator_accepts(js, rv.record));
                                            assert(e is JSONSchemaValidationError);
                                            assert(stream_known(
                                                init,
                                                gl.take(i as int),
                                                rv.stream,
                                            ));
                                        },
                                    }
                                    assert(abort_case(init, *context, gl, i as int, e));
                                    assert(0 <= (i as int) && (i as int) < gl.len() && self.delivered() == old(self).delivered() + records_in(gl.take(i as int))
                                        && prefix_handled(init, *context, gl, i as int));
                                    assert(failed_run(
                                        *old(context),
                                        *context,
                                        old(self).delivered(),
                                        self.delivered(),
                                        codec::split_lines(source@),
                                        e,
                                    ));
                                }
                                return Err(e);
                            },
                        }
                        proof {
                            assert(context.registered(rv.stream) matches Some(js)
                                && validator_accepts(js, rv.record));
                            assert(stream_known(init, gl.take(i as int), rv.stream));
                        }
                        match self.process_record(record) {
                            Ok(()) => (),
                            Err(e) => {
                                proof {
                                    assert(abort_case(init, *context, gl, i as int, e));
                                    assert(0 <= (i as int) && (i as int) < gl.len() && self.delivered() == old(self).delivered() + records_in(gl.take(i as int))
                                        && prefix_handled(init, *context, gl, i as int));
                                    assert(failed_run(
                                        *old(context),
                                        *context,
                                        old(self).delivered(),
                                        self.delivered(),
                                        codec::split_lines(source@),
                                        e,
                                    ));
                                }
                                return Err(e);
                            },
                        }
                        proof {
                            lemma_stream_known_take(init, gl, i as int);
                            assert forall|s: Seq<char>|
                                (#[trigger] context.registered(s)) is Some <==> stream_known(
                                    init,
                                    gl.take(i + 1int),
                                    s,
                                ) by {
                                assert(!line_registers(gl[i as int], s));
                            }
                            lemma_prefix_handled_extend(init, *context, gl, i as int);
                            lemma_records_in_take(gl, i as int);
                            assert(record_of_line(gl[i as int]) =~= seq![rv]);
                            assert(self.delivered() =~= old(self).delivered() + records_in(
                                gl.take(i + 1int),
                            ));
                        }
                    },
                    Message::State(state) => {
                        let ghost stv = state@;
                        match self.process_state(state) {
                            Ok(()) => (),
                            Err(e) => {
                                proof {
                                    assert(abort_case(init, *context, gl, i as int, e));
                                    assert(0 <= (i as int) && (i as int) < gl.len() && self.delivered() == old(self).delivered() + records_in(gl.take(i as int))
                                        && prefix_handled(init, *context, gl, i as int));
                                    assert(failed_run(
                                        *old(context),
                                        *context,
                                        old(self).delivered(),
                                        self.delivered(),
                                        codec::split_lines(source@),
                                        e,
                                    ));
                                }
                                return Err(e);
                            },
                        }
                        proof {
                            lemma_stream_known_take(init, gl, i as int);
                            assert forall|s: Seq<char>|
                                (#[trigger] context.registered(s)) is Some <==> stream_known(
                                    init,
                                    gl.take(i + 1int),
                                    s,
                                ) by {
                                assert(!line_registers(gl[i as int], s));
                            }
                            lemma_prefix_handled_extend(init, *context, gl, i as int);
                            lemma_records_in_take(gl, i as int);
                            assert(record_of_line(gl[i as int]) =~= Seq::<RecordV>::empty());
                            assert(self.delivered() =~= old(self).delivered() + records_in(
                                gl.take(i + 1int),
                            ));
                        }
                    },
                }
            } else {
                proof {
                    lemma_stream_known_take(init, gl, i as int);
                    assert forall|s: Seq<char>|
                        (#[trigger] context.registered(s)) is Some <==> stream_known(
                            init,
                            gl.take(i + 1int),
                            s,
                        ) by {
                        assert(!line_registers(gl[i as int], s));
                    }
                    lemma_prefix_handled_extend(init, *context, gl, i as int);
                    lemma_records_in_take(gl, i as int);
                    assert(record_of_line(gl[i as int]) =~= Seq::<RecordV>::empty());
                    assert(self.delivered() =~= old(self).delivered() + records_in(
                        gl.take(i + 1int),
                    ));
                }
            }
            i += 1;
        }
        proof {
            assert(gl.take(gl.len() as int) =~= gl);
            if forall|j: int| 0 <= j < gl.len() ==> (#[trigger] gl[j]).len() == 0 {
                lemma_records_in_empty_lines(gl);
                assert(old(self).delivered() + records_in(gl) =~= old(self).delivered());
            }
        }
        Ok(())
    }
}

/// One schema-handling step keeps every registered validator/// One schema-handling step keeps every registered validator: the
/// handled stream either keeps its old validator or gains its first,
/// and every other stream is untouched.
proof fn lemma_step_retains(before: Context, after: Context, sv: SchemaV)
    requires
        before.registered(sv.stream) is Some ==> after == before,
        before.registered(sv.stream) is None ==> (after == before || forall|s: Seq<char>|
            s != sv.stream ==> #[trigger] after.registered(s) == before.registered(s)),
    ensures
        retains(before, after),
{
    assert forall|s: Seq<char>| before.registered(s) is Some implies #[trigger] after.registered(s)
        == before.registered(s) by {
        if before.registered(sv.stream) is None {
            assert(s != sv.stream);
        }
    }
}

} // verus!
