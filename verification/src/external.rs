//! The adapter for a tap that is not implemented here: an external
//! program spoken to over its process I/O.
//!
//! This module holds every decision the adapter makes — which arguments
//! each mode passes, how a finished invocation's output and exit status
//! become a catalog or an error — as verified functions from plain
//! values to plain values.  Spawning the program, piping its output and
//! waiting for it are process I/O and live with the caller that runs the
//! program; that caller feeds the captured output back through the
//! interpreters here.

use vstd::prelude::*;

use crate::codec;
use crate::json;
use crate::json::{elements, json_text, member, parsed_json};
use crate::tap::{Catalog, CatalogV, Context, Metadata, MetadataV, Stream, StreamV};
use crate::Error;

verus! {

/// An external tap: the program that implements the tap side of the
/// protocol.  The program is resolved as the operating system resolves
/// command names; the adapter only ever hands it arguments.
pub struct ExternalTap {
    /// The program to execute.
    pub tap: String,
}

impl ExternalTap {
    /// An adapter for the given program.
    pub fn new(tap: String) -> (r: ExternalTap)
        ensures
            r.tap@ == tap@,
    {
        ExternalTap { tap }
    }

    /// The arguments of a discovery invocation.  Resolving `config` is
    /// required; an unset `config` is an option-not-set error.
    pub fn discover_args(&self, context: &Context) -> (r: Result<Vec<String>, Error>)
        ensures
            match context.config_path {
                Some(ref cfg) => (r matches Ok(args) && args.deep_view() == seq![
                    "--config"@,
                    cfg@,
                    "--discover"@,
                ]),
                None => (r matches Err(e) && (e matches Error::OptionNotSet(o) && o@
                    == "config"@)),
            },
    {
        let config = context.get_option("config")?;
        let mut args: Vec<String> = Vec::new();
        args.push(String::from_str("--config"));
        args.push(config);
        args.push(String::from_str("--discover"));
        proof {
            assert(args.deep_view() =~= seq!["--config"@, context.config_path->0@, "--discover"@]);
        }
        Ok(args)
    }

    /// The arguments of a sync invocation: `config` is required, and
    /// each of `catalog`, `state` and `properties` adds its flag and
    /// path exactly when it is set.
    pub fn sync_args(&self, context: &Context) -> (r: Result<Vec<String>, Error>)
        ensures
            match context.config_path {
                Some(_) => (r matches Ok(args) && args.deep_view() == sync_args_spec(*context)),
                None => (r matches Err(e) && (e matches Error::OptionNotSet(o) && o@
                    == "config"@)),
            },
    {
        let config = context.get_option("config")?;
        let mut args: Vec<String> = Vec::new();
        args.push(String::from_str("--config"));
        args.push(config);
        let ghost base = seq!["--config"@, context.config_path->0@];
        proof {
            lemma_option_names_distinct();
            assert(args.deep_view() =~= base);
        }
        match context.get_option("catalog") {
            Ok(catalog) => {
                args.push(String::from_str("--catalog"));
                args.push(catalog);
                proof {
                    lemma_option_names_distinct();
                    assert(args.deep_view() =~= base + opt_flag(
                        "--catalog"@,
                        context.catalog_path,
                    ));
                }
            },
            Err(_) => {
                proof {
                    lemma_option_names_distinct();
                    assert(opt_flag("--catalog"@, context.catalog_path)
                        =~= Seq::<Seq<char>>::empty());
                    assert(args.deep_view() =~= base + opt_flag(
                        "--catalog"@,
                        context.catalog_path,
                    ));
                }
            },
        }
        let ghost with_catalog = base + opt_flag("--catalog"@, context.catalog_path);
        match context.get_option("state") {
            Ok(state) => {
                args.push(String::from_str("--state"));
                args.push(state);
                proof {
                    lemma_option_names_distinct();
                    assert(args.deep_view() =~= with_catalog + opt_flag(
                        "--state"@,
                        context.state_path,
                    ));
                }
            },
            Err(_) => {
                proof {
                    lemma_option_names_distinct();
                    assert(opt_flag("--state"@, context.state_path) =~= Seq::<Seq<char>>::empty());
                    assert(args.deep_view() =~= with_catalog + opt_flag(
                        "--state"@,
                        context.state_path,
                    ));
                }
            },
        }
        let ghost with_state = with_catalog + opt_flag("--state"@, context.state_path);
        match context.get_option("properties") {
            Ok(properties) => {
                args.push(String::from_str("--properties"));
                args.push(properties);
                proof {
                    lemma_option_names_distinct();
                    assert(args.deep_view() =~= with_state + opt_flag(
                        "--properties"@,
                        context.properties_path,
                    ));
                }
            },
            Err(_) => {
                proof {
                    lemma_option_names_distinct();
                    assert(opt_flag("--properties"@, context.properties_path)
                        =~= Seq::<Seq<char>>::empty());
                    assert(args.deep_view() =~= with_state + opt_flag(
                        "--properties"@,
                        context.properties_path,
                    ));
                }
            },
        }
        proof {
            assert(args.deep_view() =~= sync_args_spec(*context));
        }
        Ok(args)
    }
}

/// A flag and its path, when the path is set; nothing otherwise.
pub open spec fn opt_flag(flag: Seq<char>, path: Option<String>) -> Seq<Seq<char>> {
    match path {
        Some(p) => seq![flag, p@],
        None => Seq::empty(),
    }
}

/// The arguments of a sync invocation whose `config` option is set.
pub open spec fn sync_args_spec(ctx: Context) -> Seq<Seq<char>> {
    seq!["--config"@, ctx.config_path->0@] + opt_flag("--catalog"@, ctx.catalog_path) + opt_flag(
        "--state"@,
        ctx.state_path,
    ) + opt_flag("--properties"@, ctx.properties_path)
}

proof fn lemma_option_names_distinct()
    ensures
        "config"@ != "catalog"@,
        "config"@ != "state"@,
        "config"@ != "properties"@,
        "catalog"@ != "state"@,
        "catalog"@ != "properties"@,
        "state"@ != "properties"@,
{
    reveal_strlit("config");
    reveal_strlit("catalog");
    reveal_strlit("state");
    reveal_strlit("properties");
    assert("config"@.len() == 6);
    assert("catalog"@.len() == 7);
    assert("state"@.len() == 5);
    assert("properties"@.len() == 10);
}

/// The metadata annotation a JSON object decodes to: an arbitrary
/// `metadata` member and a `breadcrumb` array of strings, both required.
pub open spec fn metadata_of_value(v: serde_json::Value) -> Option<MetadataV> {
    match member(v, "metadata"@) {
        None => None,
        Some(m) => match member(v, "breadcrumb"@) {
            None => None,
            Some(b) => match elements(b) {
                None => None,
                Some(els) => match codec::text_items(els) {
                    None => None,
                    Some(crumbs) => Some(MetadataV { metadata: m, breadcrumb: crumbs }),
                },
            },
        },
    }
}

/// The metadata annotations of a sequence of JSON documents, or `None`
/// when any of them does not decode.
pub open spec fn metadata_items(vs: Seq<serde_json::Value>) -> Option<Seq<MetadataV>>
    decreases vs.len(),
{
    if vs.len() == 0 {
        Some(Seq::empty())
    } else {
        match metadata_items(vs.drop_last()) {
            None => None,
            Some(r) => match metadata_of_value(vs.last()) {
                None => None,
                Some(m) => Some(r.push(m)),
            },
        }
    }
}

/// The stream descriptor a JSON object decodes to: `stream`,
/// `tap_stream_id` and `schema` are required; `table_name` is an
/// optional string and `metadata` an optional array of annotations.
pub open spec fn stream_of_value(v: serde_json::Value) -> Option<StreamV> {
    match codec::req_text(v, "stream"@) {
        None => None,
        Some(stream) => match codec::req_text(v, "tap_stream_id"@) {
            None => None,
            Some(id) => match member(v, "schema"@) {
                None => None,
                Some(doc) => match codec::opt_text_field(v, "table_name"@) {
                    None => None,
                    Some(table) => match member(v, "metadata"@) {
                        None => Some(
                            StreamV {
                                stream,
                                tap_stream_id: id,
                                schema: doc,
                                table_name: table,
                                metadata: None,
                            },
                        ),
                        Some(f) => if crate::json::is_json_null(f) {
                            Some(
                                StreamV {
                                    stream,
                                    tap_stream_id: id,
                                    schema: doc,
                                    table_name: table,
                                    metadata: None,
                                },
                            )
                        } else {
                            match elements(f) {
                                None => None,
                                Some(els) => match metadata_items(els) {
                                    None => None,
                                    Some(ms) => Some(
                                        StreamV {
                                            stream,
                                            tap_stream_id: id,
                                            schema: doc,
                                            table_name: table,
                                            metadata: Some(ms),
                                        },
                                    ),
                                },
                            }
                        },
                    },
                },
            },
        },
    }
}

/// The stream descriptors of a sequence of JSON documents, or `None`
/// when any of them does not decode.
pub open spec fn stream_items(vs: Seq<serde_json::Value>) -> Option<Seq<StreamV>>
    decreases vs.len(),
{
    if vs.len() == 0 {
        Some(Seq::empty())
    } else {
        match stream_items(vs.drop_last()) {
            None => None,
            Some(r) => match stream_of_value(vs.last()) {
                None => None,
                Some(s) => Some(r.push(s)),
            },
        }
    }
}

/// The catalog a JSON document decodes to: an object with a `streams`
/// array of stream descriptors.
pub open spec fn catalog_of_value(v: serde_json::Value) -> Option<CatalogV> {
    match member(v, "streams"@) {
        None => None,
        Some(s) => match elements(s) {
            None => None,
            Some(els) => match stream_items(els) {
                None => None,
                Some(ss) => Some(CatalogV { streams: ss }),
            },
        },
    }
}

proof fn lemma_metadata_items_prefix_none(vs: Seq<serde_json::Value>, i: int)
    requires
        0 <= i <= vs.len(),
        metadata_items(vs.take(i)) is None,
    ensures
        metadata_items(vs) is None,
    decreases vs.len(),
{
    if i == vs.len() {
        assert(vs.take(i) =~= vs);
    } else {
        assert(vs.drop_last().take(i) =~= vs.take(i));
        lemma_metadata_items_prefix_none(vs.drop_last(), i);
    }
}

proof fn lemma_stream_items_prefix_none(vs: Seq<serde_json::Value>, i: int)
    requires
        0 <= i <= vs.len(),
        stream_items(vs.take(i)) is None,
    ensures
        stream_items(vs) is None,
    decreases vs.len(),
{
    if i == vs.len() {
        assert(vs.take(i) =~= vs);
    } else {
        assert(vs.drop_last().take(i) =~= vs.take(i));
        lemma_stream_items_prefix_none(vs.drop_last(), i);
    }
}

/// Reads one metadata annotation out of a JSON document.
fn metadata_from_value(v: &serde_json::Value) -> (r: Option<Metadata>)
    ensures
        match r {
            Some(m) => metadata_of_value(*v) == Some(m@),
            None => metadata_of_value(*v) is None,
        },
{
    let doc = match json::get_member(v, "metadata") {
        Some(m) => m.clone(),
        None => {
            return None;
        },
    };
    let crumbs = match json::get_member(v, "breadcrumb") {
        Some(b) => match json::get_elements(b) {
            Some(els) => match codec::get_text_items(&els) {
                Some(xs) => xs,
                None => {
                    return None;
                },
            },
            None => {
                return None;
            },
        },
        None => {
            return None;
        },
    };
    Some(Metadata { metadata: doc, breadcrumb: crumbs })
}

/// Reads every element of a JSON array as a metadata annotation.
fn metadata_list(els: &Vec<serde_json::Value>) -> (r: Option<Vec<Metadata>>)
    ensures
        match r {
            Some(ms) => metadata_items(els@) == Some(ms@.map_values(|m: Metadata| m@)),
            None => metadata_items(els@) is None,
        },
{
    let mut acc: Vec<Metadata> = Vec::new();
    let mut i: usize = 0;
    proof {
        assert(acc@.map_values(|m: Metadata| m@) =~= Seq::<MetadataV>::empty());
        assert(els@.take(0) =~= Seq::<serde_json::Value>::empty());
    }
    while i < els.len()
        invariant
            0 <= i <= els.len(),
            metadata_items(els@.take(i as int)) == Some(acc@.map_values(|m: Metadata| m@)),
        decreases els.len() - i,
    {
        let ghost prev = acc@;
        match metadata_from_value(&els[i]) {
            Some(m) => {
                acc.push(m);
                proof {
                    assert(els@.take(i + 1int).drop_last() =~= els@.take(i as int));
                    assert(els@.take(i + 1int).last() == els@[i as int]);
                    assert(acc@.map_values(|m: Metadata| m@) =~= prev.map_values(
                        |m: Metadata| m@,
                    ).push(acc@.last()@));
                }
            },
            None => {
                proof {
                    assert(els@.take(i + 1int).drop_last() =~= els@.take(i as int));
                    assert(els@.take(i + 1int).last() == els@[i as int]);
                    assert(metadata_items(els@.take(i + 1int)) is None);
                    lemma_metadata_items_prefix_none(els@, i + 1int);
                }
                return None;
            },
        }
        i += 1;
    }
    proof {
        assert(els@.take(els@.len() as int) =~= els@);
    }
    Some(acc)
}

/// Reads one stream descriptor out of a JSON document.
fn stream_from_value(v: &serde_json::Value) -> (r: Option<Stream>)
    ensures
        match r {
            Some(s) => stream_of_value(*v) == Some(s@),
            None => stream_of_value(*v) is None,
        },
{
    let stream = match codec::get_req_text(v, "stream") {
        Some(s) => s,
        None => {
            return None;
        },
    };
    let tap_stream_id = match codec::get_req_text(v, "tap_stream_id") {
        Some(s) => s,
        None => {
            return None;
        },
    };
    let schema = match json::get_member(v, "schema") {
        Some(d) => d.clone(),
        None => {
            return None;
        },
    };
    let table_name = match codec::get_opt_text(v, "table_name") {
        Some(t) => t,
        None => {
            return None;
        },
    };
    let metadata = match json::get_member(v, "metadata") {
        None => None,
        Some(f) => {
            if json::json_is_null(f) {
                None
            } else {
                match json::get_elements(f) {
                    None => {
                        return None;
                    },
                    Some(els) => match metadata_list(&els) {
                        None => {
                            return None;
                        },
                        Some(ms) => Some(ms),
                    },
                }
            }
        },
    };
    Some(Stream { stream, tap_stream_id, schema, table_name, metadata })
}

/// Reads a catalog out of one parsed JSON document, failing with a
/// deserialization error exactly when the document does not decode.
pub fn catalog_from_value(v: &serde_json::Value) -> (r: Result<Catalog, Error>)
    ensures
        match r {
            Ok(c) => catalog_of_value(*v) == Some(c@),
            Err(e) => catalog_of_value(*v) is None && e is DeserializationError,
        },
{
    let els = match json::get_member(v, "streams") {
        Some(s) => match json::get_elements(s) {
            Some(els) => els,
            None => {
                return Err(codec::deser_err("catalog \"streams\" is not an array"));
            },
        },
        None => {
            return Err(codec::deser_err("catalog has no \"streams\" member"));
        },
    };
    let mut acc: Vec<Stream> = Vec::new();
    let mut i: usize = 0;
    proof {
        assert(acc@.map_values(|s: Stream| s@) =~= Seq::<StreamV>::empty());
        assert(els@.take(0) =~= Seq::<serde_json::Value>::empty());
    }
    while i < els.len()
        invariant
            0 <= i <= els.len(),
            member(*v, "streams"@) is Some,
            elements(member(*v, "streams"@)->0) == Some(els@),
            stream_items(els@.take(i as int)) == Some(acc@.map_values(|s: Stream| s@)),
        decreases els.len() - i,
    {
        let ghost prev = acc@;
        match stream_from_value(&els[i]) {
            Some(s) => {
                acc.push(s);
                proof {
                    assert(els@.take(i + 1int).drop_last() =~= els@.take(i as int));
                    assert(els@.take(i + 1int).last() == els@[i as int]);
                    assert(acc@.map_values(|s: Stream| s@) =~= prev.map_values(
                        |s: Stream| s@,
                    ).push(acc@.last()@));
                }
            },
            None => {
                proof {
                    assert(els@.take(i + 1int).drop_last() =~= els@.take(i as int));
                    assert(els@.take(i + 1int).last() == els@[i as int]);
                    assert(stream_items(els@.take(i + 1int)) is None);
                    lemma_stream_items_prefix_none(els@, i + 1int);
                }
                return Err(codec::deser_err("a catalog stream descriptor is malformed"));
            },
        }
        i += 1;
    }
    proof {
        assert(els@.take(els@.len() as int) =~= els@);
    }
    Ok(Catalog { streams: acc })
}

/// What a finished discovery invocation means.  A successful exit must
/// carry a catalog document on its standard output; a failed one must
/// carry a JSON error description on its standard error, surfaced as a
/// command error with the exit code and the stringified description.
pub fn interpret_discover_output(success: bool, code: Option<i32>, stdout: &str, stderr: &str) -> (r:
    Result<Catalog, Error>)
    ensures
        success ==> match parsed_json(stdout@) {
            None => (r matches Err(e) && e is DeserializationError),
            Some(v) => match catalog_of_value(v) {
                None => (r matches Err(e) && e is DeserializationError),
                Some(cv) => (r matches Ok(c) && c@ == cv),
            },
        },
        !success ==> match parsed_json(stderr@) {
            None => (r matches Err(e) && e is DeserializationError),
            Some(v) => (r matches Err(e) && (e matches Error::CommandError(c, d) && c == code && d@
                == json_text(v))),
        },
{
    if success {
        match json::parse_json(stdout) {
            Err(_) => Err(codec::deser_err("discovery output is not well-formed JSON")),
            Ok(v) => catalog_from_value(&v),
        }
    } else {
        match json::parse_json(stderr) {
            Err(_) => Err(codec::deser_err("discovery stderr is not well-formed JSON")),
            Ok(v) => Err(Error::CommandError(code, json::to_json_text(&v))),
        }
    }
}

/// The last line of a text that holds any character, scanning from the
/// end; `None` when every line is empty.
pub open spec fn last_nonempty(lines: Seq<Seq<char>>) -> Option<Seq<char>>
    decreases lines.len(),
{
    if lines.len() == 0 {
        None
    } else if lines.last().len() > 0 {
        Some(lines.last())
    } else {
        last_nonempty(lines.drop_last())
    }
}

/// The diagnostic a failed sync invocation surfaces: the last non-empty
/// line its standard error produced, or a fixed fallback when it wrote
/// none.
pub fn sync_error_detail(stderr: &str) -> (r: String)
    ensures
        r@ == match last_nonempty(codec::split_lines(stderr@)) {
            Some(l) => l,
            None => "The taps process exited with an error but didn't write any data to stderr"@,
        },
{
    let chars = json::chars_of(stderr);
    let lines = codec::split_stream(&chars);
    let mut i: usize = lines.len();
    proof {
        assert(lines.deep_view().len() == lines@.len());
        assert(lines.deep_view().take(lines.deep_view().len() as int) =~= lines.deep_view());
    }
    while i > 0
        invariant
            0 <= i <= lines.len(),
            lines.deep_view() == codec::split_lines(stderr@),
            last_nonempty(lines.deep_view().take(i as int)) == last_nonempty(lines.deep_view()),
        decreases i,
    {
        proof {
            assert(lines.deep_view().take(i as int).drop_last() =~= lines.deep_view().take(
                i - 1int,
            ));
            assert(lines.deep_view().take(i as int).last() == lines.deep_view()[i - 1int]);
        }
        if lines[i - 1].as_str().unicode_len() > 0 {
            proof {
                assert(last_nonempty(lines.deep_view().take(i as int)) == Some(
                    lines.deep_view()[i - 1int],
                ));
            }
            return lines[i - 1].clone();
        }
        i -= 1;
    }
    proof {
        assert(lines.deep_view().take(0) =~= Seq::<Seq<char>>::empty());
    }
    String::from_str(
        "The taps process exited with an error but didn't write any data to stderr",
    )
}

/// What a finished sync invocation's exit means: success passes, and a
/// failure is a command error carrying the exit code and the diagnostic
/// of [`sync_error_detail`].
pub fn interpret_sync_exit(success: bool, code: Option<i32>, stderr: &str) -> (r: Result<
    (),
    Error,
>)
    ensures
        success ==> r is Ok,
        !success ==> (r matches Err(e) && (e matches Error::CommandError(c, d) && c == code && d@
            == match last_nonempty(codec::split_lines(stderr@)) {
                Some(l) => l,
                None => "The taps process exited with an error but didn't write any data to stderr"@,
            })),
{
    if success {
        Ok(())
    } else {
        Err(Error::CommandError(code, sync_error_detail(stderr)))
    }
}

} // verus!
