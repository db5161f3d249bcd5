use notify_bench::config::parse_args;
use notify_bench::errors::BenchError;
use notify_bench::errors::FailureSite;
use notify_bench::names::channel_name;
use notify_bench::names::listen_command;
use notify_bench::names::notify_command;
use notify_bench::names::u64_to_string;
use notify_bench::probe::ProbeEndpoint;
use notify_bench::probe::ProbeState;
use notify_bench::session::connection_string;
use notify_bench::session::find_free_port;
use notify_bench::session::local_connection_string;
use notify_bench::session::server_options;

#[test]
fn channel_names_and_commands() {
    assert_eq!(u64_to_string(0), "0");
    assert_eq!(u64_to_string(7), "7");
    assert_eq!(u64_to_string(1234500), "1234500");
    let one = channel_name(1);
    assert_eq!(one, "thread_1");
    assert_eq!(channel_name(42), "thread_42");
    assert_eq!(listen_command(&one), "LISTEN thread_1");
    assert_eq!(notify_command(&one), "SELECT pg_notify('thread_1', NULL)");
}

#[test]
fn connection_descriptor_text() {
    let user = String::from("alice");
    assert_eq!(
        connection_string(5433, &user),
        "host=127.0.0.1 port=5433 dbname=testdb user=alice"
    );
    assert_eq!(server_options(5433, &None), "-p 5433");
    assert_eq!(
        server_options(5433, &Some(String::from("8"))),
        "-p 5433 -c notify_multicast_threshold=8"
    );
}

#[test]
fn local_connection_string_names_the_calling_user() {
    match local_connection_string(5433) {
        Ok(s) => {
            assert!(s.starts_with("host=127.0.0.1 port=5433 dbname=testdb user="));
            let user = s.rsplit('=').next().unwrap();
            assert!(!user.is_empty());
        }
        Err(e) => assert_eq!(e, BenchError::ProvisioningFailure),
    }
}

#[test]
fn every_error_has_a_message() {
    assert_eq!(
        BenchError::ProtocolViolation.describe(),
        "a probe signal arrived on the wrong channel or carried a payload"
    );
    assert_eq!(BenchError::ConfigurationError.describe(), "invalid command-line input");
    for e in [
        BenchError::ToolingUnavailable,
        BenchError::ProvisioningFailure,
        BenchError::ProtocolViolation,
        BenchError::ConnectionFailure,
        BenchError::ConfigurationError,
    ] {
        assert!(!e.describe().is_empty());
    }
}

#[test]
fn free_port_lies_in_the_scanned_range() {
    match find_free_port() {
        Ok(p) => assert!((5432..65535).contains(&p)),
        Err(e) => assert_eq!(e, BenchError::ProvisioningFailure),
    }
}

#[test]
fn probe_accepts_its_own_channel_and_replies_to_the_peer() {
    let mut a = ProbeEndpoint::new(1, 2, true);
    assert_eq!(a.state, ProbeState::AwaitingEcho);
    let r = a.on_signal(&String::from("thread_1"), &String::new(), 350);
    let sample = r.unwrap();
    assert_eq!(sample.endpoint_id, 1);
    assert_eq!(sample.round_trip_micros, 350);
    assert_eq!(a.state, ProbeState::JustReceived);
    assert_eq!(a.reply_target().as_str(), "thread_2");
    a.reply_sent();
    assert_eq!(a.state, ProbeState::AwaitingEcho);
    assert!(!a.failed);
}

#[test]
fn wrong_channel_is_a_protocol_violation_and_silences_the_endpoint() {
    // A signal on an unexpected channel raises ProtocolViolation at once,
    // and no further samples are emitted from this endpoint afterward.
    let mut a = ProbeEndpoint::new(1, 2, true);
    let r = a.on_signal(&String::from("thread_3"), &String::new(), 350);
    assert_eq!(r, Err(BenchError::ProtocolViolation));
    assert!(a.failed);
    // Even a perfectly valid signal yields no sample any more.
    let r2 = a.on_signal(&String::from("thread_1"), &String::new(), 350);
    assert_eq!(r2, Err(BenchError::ProtocolViolation));
    assert!(a.failed);
}

#[test]
fn payload_carrying_signal_is_a_protocol_violation() {
    let mut a = ProbeEndpoint::new(2, 1, false);
    let r = a.on_signal(&String::from("thread_2"), &String::from("x"), 10);
    assert_eq!(r, Err(BenchError::ProtocolViolation));
    assert!(a.failed);
}

#[test]
fn fatality_depends_on_the_site_only_for_connection_failures() {
    let sites = [
        FailureSite::IdlePoolGrowth,
        FailureSite::ProbePair,
        FailureSite::Monitoring,
        FailureSite::Lifecycle,
    ];
    for site in sites {
        assert!(BenchError::ToolingUnavailable.is_fatal(site));
        assert!(BenchError::ProvisioningFailure.is_fatal(site));
        assert!(BenchError::ProtocolViolation.is_fatal(site));
        assert!(BenchError::ConfigurationError.is_fatal(site));
    }
    assert!(!BenchError::ConnectionFailure.is_fatal(FailureSite::IdlePoolGrowth));
    assert!(BenchError::ConnectionFailure.is_fatal(FailureSite::ProbePair));
    assert!(BenchError::ConnectionFailure.is_fatal(FailureSite::Monitoring));
    assert!(BenchError::ConnectionFailure.is_fatal(FailureSite::Lifecycle));
}

fn args(list: &[&str]) -> Vec<String> {
    list.iter().map(|s| s.to_string()).collect()
}

#[test]
fn parses_positionals_and_flags() {
    let v = args(&[
        "bench",
        "/usr/lib/postgresql/bin",
        "out.csv",
        "--version-name",
        "patched",
        "--notify-multicast-threshold",
        "16",
    ]);
    let c = parse_args(&v).unwrap();
    assert_eq!(c.bin_path.as_deref(), Some("/usr/lib/postgresql/bin"));
    assert_eq!(c.output_file.as_deref(), Some("out.csv"));
    assert_eq!(c.version_label.as_deref(), Some("patched"));
    assert_eq!(c.tuning_value.as_deref(), Some("16"));
}

#[test]
fn parses_flags_before_positionals() {
    let v = args(&["bench", "--version-name", "v1", "bindir"]);
    let c = parse_args(&v).unwrap();
    assert_eq!(c.version_label.as_deref(), Some("v1"));
    assert_eq!(c.bin_path.as_deref(), Some("bindir"));
    assert_eq!(c.output_file, None);
}

#[test]
fn missing_flag_value_is_a_configuration_error() {
    let v = args(&["bench", "--version-name"]);
    assert_eq!(parse_args(&v), Err(BenchError::ConfigurationError));
    let v = args(&["bench", "bindir", "--notify-multicast-threshold"]);
    assert_eq!(parse_args(&v), Err(BenchError::ConfigurationError));
}

#[test]
fn unknown_flags_are_ignored() {
    let v = args(&["bench", "--frobnicate", "bindir"]);
    let c = parse_args(&v).unwrap();
    assert_eq!(c.bin_path.as_deref(), Some("bindir"));
    assert_eq!(c.output_file, None);
}

#[test]
fn empty_command_line_parses_to_defaults() {
    let v = args(&["bench"]);
    let c = parse_args(&v).unwrap();
    assert_eq!(c.bin_path, None);
    assert_eq!(c.output_file, None);
    assert_eq!(c.version_label, None);
    assert_eq!(c.tuning_value, None);
}
