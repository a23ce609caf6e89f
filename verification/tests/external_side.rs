use singer::external::{interpret_discover_output, interpret_sync_exit, sync_error_detail, ExternalTap};
use singer::tap::Context;
use singer::Error;

#[test]
fn external_tap_keeps_its_program_name() {
    let tap = ExternalTap::new(String::from("tap-example"));
    assert_eq!(tap.tap, "tap-example");
}

#[test]
fn discover_arguments() {
    let tap = ExternalTap::new(String::from("tap-example"));
    let mut ctx = Context::new();
    match tap.discover_args(&ctx) {
        Err(Error::OptionNotSet(o)) => assert_eq!(o, "config"),
        other => panic!("discovery without a config must fail, got {:?}", other),
    }
    ctx.set_option("config", String::from("/etc/tap.json")).unwrap();
    let args = tap.discover_args(&ctx).unwrap();
    assert_eq!(args, vec!["--config", "/etc/tap.json", "--discover"]);
}

#[test]
fn sync_arguments_include_only_set_options() {
    let tap = ExternalTap::new(String::from("tap-example"));
    let mut ctx = Context::new();
    ctx.set_option("config", String::from("c.json")).unwrap();
    let args = tap.sync_args(&ctx).unwrap();
    assert_eq!(args, vec!["--config", "c.json"]);

    ctx.set_option("state", String::from("s.json")).unwrap();
    ctx.set_option("properties", String::from("p.json")).unwrap();
    let args = tap.sync_args(&ctx).unwrap();
    assert_eq!(args, vec!["--config", "c.json", "--state", "s.json", "--properties", "p.json"]);

    ctx.set_option("catalog", String::from("cat.json")).unwrap();
    let args = tap.sync_args(&ctx).unwrap();
    assert_eq!(
        args,
        vec![
            "--config",
            "c.json",
            "--catalog",
            "cat.json",
            "--state",
            "s.json",
            "--properties",
            "p.json"
        ]
    );
}

#[test]
fn options_distinguish_unknown_from_unset() {
    let mut ctx = Context::new();
    match ctx.get_option("bogus") {
        Err(Error::InvalidOption(o)) => assert_eq!(o, "bogus"),
        other => panic!("an unknown option must be invalid, got {:?}", other),
    }
    match ctx.get_option("state") {
        Err(Error::OptionNotSet(o)) => assert_eq!(o, "state"),
        other => panic!("an unset option must be not-set, got {:?}", other),
    }
    match ctx.set_option("bogus", String::from("x")) {
        Err(Error::InvalidOption(o)) => assert_eq!(o, "bogus"),
        other => panic!("setting an unknown option must fail, got {:?}", other),
    }
    assert_eq!(ctx.set_option("state", String::from("a")).unwrap(), None);
    assert_eq!(ctx.set_option("state", String::from("b")).unwrap(), Some(String::from("a")));
    assert_eq!(ctx.get_option("state").unwrap(), "b");
}

#[test]
fn sync_error_surfaces_last_nonempty_stderr_line() {
    let detail = sync_error_detail("connecting...\nauth failed\n");
    assert_eq!(detail, "auth failed");

    match interpret_sync_exit(false, Some(1), "connecting...\nauth failed\n") {
        Err(Error::CommandError(code, detail)) => {
            assert_eq!(code, Some(1));
            assert_eq!(detail, "auth failed");
        },
        other => panic!("a failed sync must be a command error, got {:?}", other),
    }
}

#[test]
fn sync_error_falls_back_on_empty_stderr() {
    let fallback = "The taps process exited with an error but didn't write any data to stderr";
    assert_eq!(sync_error_detail(""), fallback);
    assert_eq!(sync_error_detail("\n\n"), fallback);
    match interpret_sync_exit(false, None, "") {
        Err(Error::CommandError(code, detail)) => {
            assert_eq!(code, None);
            assert_eq!(detail, fallback);
        },
        other => panic!("a failed sync must be a command error, got {:?}", other),
    }
    interpret_sync_exit(true, Some(0), "").unwrap();
}

#[test]
fn discovery_success_parses_the_catalog() {
    let stdout = r#"{
      "streams": [
        {
          "stream": "users",
          "tap_stream_id": "users-1",
          "schema": {"type": "object"},
          "table_name": "users_tbl",
          "metadata": [
            {"metadata": {"selected": true}, "breadcrumb": ["properties", "id"]}
          ]
        },
        {
          "stream": "orders",
          "tap_stream_id": "orders-1",
          "schema": {"type": "object"}
        }
      ]
    }"#;
    let catalog = interpret_discover_output(true, Some(0), stdout, "").unwrap();
    assert_eq!(catalog.streams.len(), 2);
    assert_eq!(catalog.streams[0].stream, "users");
    assert_eq!(catalog.streams[0].tap_stream_id, "users-1");
    assert_eq!(catalog.streams[0].table_name.as_deref(), Some("users_tbl"));
    let metadata = catalog.streams[0].metadata.as_ref().unwrap();
    assert_eq!(metadata.len(), 1);
    assert_eq!(metadata[0].breadcrumb, vec!["properties", "id"]);
    assert_eq!(catalog.streams[1].table_name, None);
    assert_eq!(catalog.streams[1].metadata, None);
}

#[test]
fn discovery_failure_carries_stringified_stderr() {
    match interpret_discover_output(false, Some(2), "", "{\"error\": \"no credentials\"}") {
        Err(Error::CommandError(code, detail)) => {
            assert_eq!(code, Some(2));
            assert_eq!(detail, "{\"error\":\"no credentials\"}");
        },
        other => panic!("a failed discovery must be a command error, got {:?}", other),
    }
    match interpret_discover_output(false, Some(2), "", "plain text, not json") {
        Err(Error::DeserializationError(_)) => (),
        other => panic!("non-JSON stderr must be a deserialization error, got {:?}", other),
    }
    match interpret_discover_output(true, Some(0), "not a catalog", "") {
        Err(Error::DeserializationError(_)) => (),
        other => panic!("non-JSON discovery output must fail, got {:?}", other),
    }
    match interpret_discover_output(true, Some(0), "{\"streams\": [{\"stream\": 5}]}", "") {
        Err(Error::DeserializationError(_)) => (),
        other => panic!("a malformed stream descriptor must fail, got {:?}", other),
    }
}
