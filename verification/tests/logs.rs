use tracing_subscriber::EnvFilter;
use upstream::filter::is_readable;
use upstream::logging::{
    choose_log_format, default_filter, setup_logging, LogEnvironment, LogFilter,
    LogFormat, LogSetup,
};

fn environment(rust_log: Option<&str>) -> LogEnvironment {
    LogEnvironment {
        rust_backtrace: None,
        rust_log: rust_log.map(|value| value.to_string()),
        tracing_fmt: None,
    }
}

fn directives(filter: &EnvFilter) -> Vec<String> {
    let mut directives: Vec<String> =
        filter.to_string().split(',').map(|directive| directive.to_string()).collect();
    directives.sort();
    directives
}

fn made(setup: LogSetup) -> Vec<String> {
    match setup.filter {
        LogFilter::Made { filter } => directives(&filter),
        filter => panic!("{:?}", filter),
    }
}

const USUAL: [&str; 4] = [
    "info",
    "librad::net::protocol::io::recv::git=warn",
    "librad::net::protocol::io::streams=warn",
    "quinn=warn",
];

#[test]
fn default_directives_silence_noisy_targets() {
    assert_eq!(directives(&default_filter(false)), USUAL);
}

#[test]
fn logging_for_developers_adds_two_targets() {
    let mut expected: Vec<String> = USUAL.iter().map(|usual| usual.to_string()).collect();
    expected.push("api=debug".to_string());
    expected.push("radicle_daemon=debug".to_string());
    expected.sort();
    assert_eq!(directives(&default_filter(true)), expected);
}

#[test]
fn rust_log_decides_all_levels() {
    for dev_log in [false, true] {
        let setup = setup_logging(&environment(Some("warn,api=trace")), dev_log);
        assert_eq!(made(setup), ["api=trace", "warn"]);
    }
}

#[test]
fn empty_rust_log_leaves_errors() {
    let setup = setup_logging(&environment(Some("")), false);
    assert_eq!(made(setup), ["error"]);
}

#[test]
fn later_directives_override_earlier_ones() {
    let setup = setup_logging(&environment(Some("info,a=warn,a=debug,error")), false);
    assert_eq!(made(setup), ["a=debug", "error"]);
}

#[test]
fn rust_log_of_the_default_directives_is_the_default_filter() {
    let text = "info,quinn=warn,librad::net::protocol::io::streams=warn,\
                librad::net::protocol::io::recv::git=warn";
    let setup = setup_logging(&environment(Some(text)), false);
    assert_eq!(made(setup), directives(&default_filter(false)));
}

#[test]
fn without_rust_log_the_default_filter_applies() {
    for dev_log in [false, true] {
        let setup = setup_logging(&environment(None), dev_log);
        assert_eq!(made(setup), directives(&default_filter(dev_log)));
    }
}

#[test]
fn backtrace_is_set_unless_the_user_sets_it() {
    let unset = setup_logging(&environment(None), false);
    assert_eq!(unset.rust_backtrace, Some("full".to_string()));
    let set = LogEnvironment { rust_backtrace: Some("0".to_string()), ..environment(None) };
    assert_eq!(setup_logging(&set, false).rust_backtrace, None);
}

#[test]
fn format_is_the_named_one() {
    let named = |name: &str| Some(name.to_string());
    for dev_log in [false, true] {
        assert_eq!(choose_log_format(&named("pretty"), dev_log), LogFormat::Pretty);
        assert_eq!(choose_log_format(&named("compact"), dev_log), LogFormat::Compact);
        assert_eq!(choose_log_format(&named("json"), dev_log), LogFormat::Json);
    }
}

#[test]
fn format_without_a_name_depends_on_the_audience() {
    for name in [None, Some("Json".to_string()), Some("".to_string())] {
        assert_eq!(choose_log_format(&name, true), LogFormat::Pretty);
        assert_eq!(choose_log_format(&name, false), LogFormat::Full);
    }
}

/// Texts that are read, though white space comes first and characters outside of ASCII follow.
const READABLE: [&str; 20] = [
    "",
    "info, api=debug",
    "gr\u{f6}\u{df}e=debug,info",
    " info,gr\u{f6}\u{df}e=debug",
    " \u{e9}",
    "info,\tapi,\u{3000}x",
    "  [\u{e9}]=debug",
    " gr\u{f6}\u{df}e=debug",
    " \u{e9}a=debug",
    "  [\u{e9}=x]",
    " \u{20ac}=debug",
    "\u{3000}=\u{e9}",
    " !\u{e9}=debug",
    " [\u{e9}",
    "   [a{\u{e9}",
    " a=b=\u{e9}=c",
    "    [{\u{e9}=z}]=debug",
    "     [{a=(,\u{e9}}]=x",
    "    [{a=(xx\u{e9}}]=x",
    "[{\u{e9}=1}]=trace",
];

const UNREADABLE: [&str; 9] = [
    " a\u{e9}=debug",
    "  \u{e9}=debug",
    " \u{e9}=debug",
    "info, \u{e9}[x]",
    "\u{3000}a=b",
    " [\u{e9}]",
    "\u{3000}[a]",
    " [{\u{e9}}]",
    "    [{a=bxx\u{e9}}]=x",
];

#[test]
fn directives_are_readable_unless_cut_inside_of_a_character() {
    for text in READABLE {
        assert!(is_readable(text), "{:?}", text);
    }
    for text in UNREADABLE {
        assert!(!is_readable(text), "{:?}", text);
    }
}

#[test]
fn readable_directives_are_read() {
    for text in READABLE {
        let setup = setup_logging(&environment(Some(text)), true);
        assert_eq!(made(setup), directives(&EnvFilter::new(text)));
    }
}

#[test]
fn unreadable_directives_are_handed_back() {
    let mut unreadable = environment(Some(" a\u{e9}=debug"));
    unreadable.tracing_fmt = Some("json".to_string());
    for dev_log in [false, true] {
        let setup = setup_logging(&unreadable, dev_log);
        assert_eq!(setup.format, LogFormat::Json);
        assert_eq!(setup.rust_backtrace, Some("full".to_string()));
        match setup.filter {
            LogFilter::Unread { text } => assert_eq!(text, " a\u{e9}=debug"),
            filter => panic!("{:?}", filter),
        }
    }
}
