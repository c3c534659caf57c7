use ternvale::log::config::{
    filter_directive, join_path, log_file_name, prepare, stamped_file_name, validate_vm_name,
    EnvValue, LogConfig,
};
use ternvale::log::directive::is_parseable;
use ternvale::log::error::LogError;
use ternvale::log::hv::{log_hv_result, Level};
use ternvale::log::panic_text::{panic_location, panic_message};
use ternvale::log::subscriber::{build, finish};
use tracing::callsite::{Callsite, Identifier};
use tracing::field::FieldSet;
use tracing::metadata::Kind;
use tracing::subscriber::Interest;
use tracing::{Level as Severity, Metadata, Subscriber};
use tracing_subscriber::layer::SubscriberExt;
use tracing_subscriber::Registry;

#[test]
fn default_log_dir_uses_home() {
    let home = EnvValue::Text("/Users/tern".to_string());
    let dir = LogConfig::default_log_dir(&home).expect("HOME");
    assert!(dir.ends_with("Library/Logs/Ternvale"));
    assert_eq!(dir, "/Users/tern/Library/Logs/Ternvale");
    assert_eq!(
        LogConfig::default_log_dir(&EnvValue::Missing),
        Err(LogError::HomeMissing)
    );
    assert_eq!(
        LogConfig::default_log_dir(&EnvValue::NotUnicode),
        Err(LogError::HomeNotUnicode)
    );
}

#[test]
fn rejects_vm_name_with_path_separator() {
    let config = LogConfig::new("../escape", "/tmp");
    let error = prepare(&config, &EnvValue::Missing).unwrap_err();
    assert!(error.message().contains("vm name"));
    for name in ["", ".", "..", "a b", "\u{e9}"] {
        assert_eq!(validate_vm_name(name), Err(LogError::InvalidVmName));
    }
    assert_eq!(validate_vm_name("sample-VM_1"), Ok(()));
}

#[test]
fn a_config_starts_at_info() {
    let config = LogConfig::new("samplevm", "/logs");
    assert_eq!(config.vm_name, "samplevm");
    assert_eq!(config.level, "info");
    assert_eq!(config.log_dir, "/logs");
    assert!(!config.json);
    assert_eq!(prepare(&config, &EnvValue::Missing), Ok("info".to_string()));
}

#[test]
fn the_environment_selects_the_directive() {
    let env = EnvValue::Text("ternvale::mmio=trace,info".to_string());
    assert_eq!(
        filter_directive("info", &env),
        Ok("ternvale::mmio=trace,info".to_string())
    );
    assert_eq!(filter_directive("", &env), Err(LogError::EmptyLevel));
    assert_eq!(
        filter_directive("info", &EnvValue::NotUnicode),
        Err(LogError::EnvNotUnicode)
    );
    let mut config = LogConfig::new("vm", "/logs");
    config.level = String::new();
    assert_eq!(prepare(&config, &env), Err(LogError::EmptyLevel));
}

#[test]
fn log_files_are_named_after_vm_and_time() {
    assert_eq!(
        stamped_file_name("samplevm", "20260102-030405"),
        "ternvale-samplevm-20260102-030405.log"
    );
    let name = log_file_name("samplevm");
    assert!(name.starts_with("ternvale-samplevm-"));
    assert!(name.ends_with(".log"));
    let stamp = &name["ternvale-samplevm-".len()..name.len() - ".log".len()];
    assert_eq!(stamp.len(), 15);
    assert_eq!(stamp.as_bytes()[8], b'-');
    assert!(stamp.bytes().all(|b| b == b'-' || b.is_ascii_digit()));
}

#[test]
fn paths_are_joined_with_one_separator() {
    assert_eq!(join_path("/logs", "a.log"), "/logs/a.log");
    assert_eq!(join_path("/logs/", "a.log"), "/logs/a.log");
    assert_eq!(join_path("", "a.log"), "a.log");
    for dir in ["/logs", "/logs/", "", "a/b"] {
        let std_path = std::path::Path::new(dir).join("a.log");
        assert_eq!(std_path.to_str(), Some(join_path(dir, "a.log").as_str()));
    }
}

struct Site;

impl Callsite for Site {
    fn set_interest(&self, _: Interest) {}

    fn metadata(&self) -> &Metadata<'_> {
        unreachable!()
    }
}

/// Whether `subscriber` takes an event.
fn takes(subscriber: &impl Subscriber, target: &str, level: Severity) -> bool {
    let fields = FieldSet::new(&["message"], Identifier(&Site));
    let event = Metadata::new("event", target, level, None, None, None, fields, Kind::EVENT);
    subscriber.enabled(&event)
}

#[test]
fn ternvale_log_env_filters_targets() {
    let env = EnvValue::Text("ternvale::mmio=trace,info".to_string());
    let config = LogConfig::new("filtervm", "/logs");
    let directive = prepare(&config, &env).expect("init");
    let filter = build(&directive).expect("init");
    assert_eq!(filter.text(), "ternvale::mmio=trace,info");
    let filter = filter.into_env_filter();
    assert_eq!(filter.to_string(), "ternvale::mmio=trace,info");
    let log = Registry::default().with(filter);
    assert!(takes(&log, "ternvale::mmio", Severity::TRACE));
    assert!(takes(&log, "ternvale::mmio", Severity::DEBUG));
    assert!(takes(&log, "ternvale::hv", Severity::INFO));
    assert!(!takes(&log, "ternvale::hv", Severity::TRACE));
    assert!(!takes(&log, "ternvale::hv", Severity::DEBUG));
}

#[test]
fn each_directive_has_its_own_filter() {
    let quiet = Registry::default().with(build("error").expect("filter").into_env_filter());
    assert!(takes(&quiet, "ternvale::mmio", Severity::ERROR));
    assert!(!takes(&quiet, "ternvale::mmio", Severity::INFO));
    assert_eq!(build("").expect("filter").text(), "");
    let refused = finish("x=y", Err("bad".to_string()));
    match refused {
        Err(error) => assert_eq!(error.message(), "invalid log filter directive x=y: bad"),
        Ok(_) => panic!("a refusal became a filter"),
    }
    let kept = finish("other", Ok(build("warn").expect("filter"))).expect("filter");
    assert_eq!(kept.text(), "warn");
}

#[test]
fn filters_are_parsed_by_the_subscriber() {
    assert!(build("ternvale::mmio=trace,info").is_ok());
    assert!(build("").is_ok());
    match build("ternvale=nonsense") {
        Err(LogError::InvalidFilter { directive, source }) => {
            assert_eq!(directive, "ternvale=nonsense");
            assert!(!source.is_empty());
        }
        other => panic!("expected a filter error, got {other:?}"),
    }
}

#[test]
fn indented_directives_are_not_cut_through_a_character() {
    assert!(is_parseable(""));
    assert!(is_parseable("info, ternvale=debug"));
    assert!(is_parseable("\u{65e5}=info, ternvale=debug"));
    assert!(!is_parseable("info, \u{e9}=debug"));
    assert!(!is_parseable("\u{3000}a=info"));
    assert!(is_parseable("info, \u{e9}"));
    assert!(is_parseable(" \u{e9}a=info"));
    assert!(!is_parseable(" a\u{e9}=info"));
    assert!(is_parseable("\u{e9}[a{b=\u{e9}}]=info, x"));
    assert!(build("info, \u{e9}").is_ok());
    assert!(build("info, ternvale").is_ok());
    assert!(build("\u{65e5}=info").is_ok());
    // No cut is made here, or none that goes through a character.
    for read in [
        " \u{e9}]",
        " \u{e9}{b}",
        " [ab]=info ",
        " [ab] ",
        " a=\u{e9}=",
        "\u{3000}info",
    ] {
        assert!(is_parseable(read), "{read}");
        let _ = build(read);
    }
    assert!(!is_parseable(" \u{e9}["));
    assert!(!is_parseable(" [\u{e9}]"));
    assert!(!is_parseable(" [a{\u{e9}}]"));
    assert!(!is_parseable("\u{3000}[a]="));
    // Nothing is read behind a part whose form is refused.
    assert!(is_parseable(" {, \u{e9}=debug"));
    assert!(build(" {, \u{e9}=debug").is_err());
    assert!(is_parseable("[a, \u{e9}=debug"));
    assert!(build("[a, \u{e9}=debug").is_err());
    assert!(is_parseable(" , \u{e9}=debug"));
    assert!(build(" , \u{e9}=debug").is_err());
    assert!(is_parseable("[a{}], \u{e9}=debug"));
    assert!(build("[a{}], \u{e9}=debug").is_err());
}

#[test]
fn log_hv_call_logs_error_on_nonzero_and_trace_when_enabled() {
    let mut log = Vec::new();
    let failed = log_hv_result(&mut log, "hv_vm_create", "flags=0", 1);
    let ok = log_hv_result(&mut log, "hv_vm_destroy", "none", 0);
    assert_eq!(failed, 1);
    assert_eq!(ok, 0);
    assert_eq!(log.len(), 3);
    assert_eq!(log[0].level, Level::Trace);
    assert_eq!(log[0].name, "hv_vm_create");
    assert_eq!(log[0].args, "flags=0");
    assert_eq!(log[0].message, "hv call completed");
    assert_eq!(log[1].level, Level::Error);
    assert_eq!(log[1].message, "hv call failed");
    assert_eq!(log[1].result_code, 1);
    let destroy_errors = log
        .iter()
        .filter(|r| r.name == "hv_vm_destroy" && r.level == Level::Error)
        .count();
    assert_eq!(destroy_errors, 0);
}

#[test]
fn panics_are_described() {
    assert_eq!(panic_message(Some("marker")), "marker");
    assert_eq!(panic_message(None), "non-string panic payload");
    assert_eq!(panic_location(Some(("lib.rs", 12, 5))), "lib.rs:12:5");
    assert_eq!(panic_location(None), "unknown");
}

#[test]
fn log_errors_have_messages() {
    let dir = LogError::CreateLogDir {
        path: "/logs".to_string(),
        source: "denied".to_string(),
    };
    assert_eq!(dir.message(), "create log directory /logs: denied");
    let filter = LogError::InvalidFilter {
        directive: "x=y".to_string(),
        source: "bad".to_string(),
    };
    assert_eq!(filter.message(), "invalid log filter directive x=y: bad");
    assert_eq!(
        LogError::HomeMissing.message(),
        "HOME is not set; cannot resolve ~/Library/Logs/Ternvale"
    );
    assert_eq!(LogError::HomeNotUnicode.message(), "HOME is not valid unicode");
    assert_eq!(
        LogError::EnvNotUnicode.message(),
        "TERNVALE_LOG is not valid unicode"
    );
    assert_eq!(LogError::EmptyLevel.message(), "log level directive is empty");
}
