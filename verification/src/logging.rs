//! What is logged, and how.
use crate::filter::{
    add_directive, directive_text, empty_filter, filter_directives, held, holds_plain_directives,
    is_readable, lemma_plain_directive, plain_directive, plain_subject, read_directive,
    read_directives, read_filter, readable, Subject,
};
use crate::text::Text;
use tracing_subscriber::EnvFilter;
use vstd::prelude::*;

verus! {

/// The directives that apply where the user sets none.
pub open spec fn default_directives(dev_log: bool) -> Seq<(Option<Text>, Text)> {
    let usual = seq![
        (None, "info"@),
        (Some("quinn"@), "warn"@),
        (Some("librad::net::protocol::io::streams"@), "warn"@),
        (Some("librad::net::protocol::io::recv::git"@), "warn"@),
    ];
    if dev_log {
        usual + seq![(Some("api"@), "debug"@), (Some("radicle_daemon"@), "debug"@)]
    } else {
        usual
    }
}

/// The default directives are plain.
proof fn lemma_default_directives_plain(dev_log: bool)
    ensures
        forall|i: int|
            0 <= i < default_directives(dev_log).len() ==> plain_directive(
                #[trigger] default_directives(dev_log)[i],
            ),
{
    reveal_strlit("quinn");
    reveal_strlit("librad::net::protocol::io::streams");
    reveal_strlit("librad::net::protocol::io::recv::git");
    reveal_strlit("api");
    reveal_strlit("radicle_daemon");
}

/// Makes the texts of the default directives.
fn default_directive_texts(dev_log: bool) -> (texts: Vec<&'static str>)
    ensures
        texts@.len() == default_directives(dev_log).len(),
        forall|i: int|
            0 <= i < texts@.len() ==> (#[trigger] texts@[i])@ == directive_text(
                default_directives(dev_log)[i],
            ),
{
    let mut texts: Vec<&'static str> = vec![
        "info",
        "quinn=warn",
        // Silence some noisy debug statements.
        "librad::net::protocol::io::streams=warn",
        "librad::net::protocol::io::recv::git=warn",
    ];
    if dev_log {
        texts.push("api=debug");
        texts.push("radicle_daemon=debug");
    }
    proof {
        reveal_strlit("=");
        reveal_strlit("warn");
        reveal_strlit("debug");
        reveal_strlit("quinn");
        reveal_strlit("quinn=warn");
        reveal_strlit("librad::net::protocol::io::streams");
        reveal_strlit("librad::net::protocol::io::streams=warn");
        reveal_strlit("librad::net::protocol::io::recv::git");
        reveal_strlit("librad::net::protocol::io::recv::git=warn");
        reveal_strlit("api");
        reveal_strlit("api=debug");
        reveal_strlit("radicle_daemon");
        reveal_strlit("radicle_daemon=debug");
        assert("quinn=warn"@ =~= "quinn"@ + "="@ + "warn"@);
        assert("librad::net::protocol::io::streams=warn"@
            =~= "librad::net::protocol::io::streams"@ + "="@ + "warn"@);
        assert("librad::net::protocol::io::recv::git=warn"@
            =~= "librad::net::protocol::io::recv::git"@ + "="@ + "warn"@);
        assert("api=debug"@ =~= "api"@ + "="@ + "debug"@);
        assert("radicle_daemon=debug"@ =~= "radicle_daemon"@ + "="@ + "debug"@);
    }
    texts
}

/// Makes the filter that applies where the user sets none.
pub fn default_filter(dev_log: bool) -> (filter: EnvFilter)
    ensures
        filter_directives(filter) == held(default_directives(dev_log)),
{
    let texts = default_directive_texts(dev_log);
    let ghost directives = default_directives(dev_log);
    proof {
        lemma_default_directives_plain(dev_log);
    }
    let mut filter = empty_filter();
    let mut added: usize = 0;
    assert(directives.take(0) =~= Seq::empty());
    while added < texts.len()
        invariant
            added <= texts@.len(),
            texts@.len() == directives.len(),
            forall|i: int| 0 <= i < texts@.len() ==> (#[trigger] texts@[i])@ == directive_text(
                directives[i],
            ),
            forall|i: int| 0 <= i < directives.len() ==> plain_directive(#[trigger] directives[i]),
            filter_directives(filter) == held(directives.take(added as int)),
        decreases texts@.len() - added,
    {
        let ghost sum = directives.take(added + 1);
        assert(plain_directive(directives[added as int]));
        assert(texts@[added as int]@ == directive_text(directives[added as int]));
        assert(sum.drop_last() =~= directives.take(added as int));
        proof {
            lemma_plain_directive(directives[added as int]);
        }
        let directive = read_directive(texts[added]).unwrap();
        filter = add_directive(filter, directive);
        added = added + 1;
    }
    assert(directives.take(added as int) =~= directives);
    filter
}

/// How events are written.
#[derive(Clone, Copy, Debug, PartialEq, Eq, Structural)]
pub enum LogFormat {
    Full,
    Pretty,
    Compact,
    Json,
}

/// The format that is asked for, where anything but the name of a format asks for none.
pub open spec fn log_format(tracing_fmt: Option<Text>, dev_log: bool) -> LogFormat {
    if tracing_fmt == Some("pretty"@) {
        LogFormat::Pretty
    } else if tracing_fmt == Some("compact"@) {
        LogFormat::Compact
    } else if tracing_fmt == Some("json"@) {
        LogFormat::Json
    } else if dev_log {
        LogFormat::Pretty
    } else {
        LogFormat::Full
    }
}

/// Chooses the format in which events are written.
pub fn choose_log_format(tracing_fmt: &Option<String>, dev_log: bool) -> (format: LogFormat)
    ensures
        format == log_format(tracing_fmt.deep_view(), dev_log),
{
    if let Some(name) = tracing_fmt {
        if *name == "pretty".to_string() {
            return LogFormat::Pretty;
        }
        if *name == "compact".to_string() {
            return LogFormat::Compact;
        }
        if *name == "json".to_string() {
            return LogFormat::Json;
        }
    }
    if dev_log {
        LogFormat::Pretty
    } else {
        LogFormat::Full
    }
}

/// The environment variables that logging depends on. A variable that is not set, or whose value
/// is not text, is `None`.
#[derive(Debug)]
pub struct LogEnvironment {
    pub rust_backtrace: Option<String>,
    pub rust_log: Option<String>,
    pub tracing_fmt: Option<String>,
}

/// Which events are logged.
#[derive(Debug)]
pub enum LogFilter {
    /// Those that a filter lets through.
    Made { filter: EnvFilter },
    /// Those that the filter lets through which `EnvFilter::new` reads from a text, but the call
    /// cuts the text inside of a character, so that it has not been made.
    Unread { text: String },
}

/// The mathematical value of a [`LogFilter`].
pub enum LogFilterView {
    Made { directives: Map<Subject, Text> },
    Unread { text: Text },
}

impl View for LogFilter {
    type V = LogFilterView;

    open spec fn view(&self) -> LogFilterView {
        match self {
            LogFilter::Made { filter } => LogFilterView::Made {
                directives: filter_directives(*filter),
            },
            LogFilter::Unread { text } => LogFilterView::Unread { text: text@ },
        }
    }
}

/// How logging is to be set up.
#[derive(Debug)]
pub struct LogSetup {
    /// The value to set `RUST_BACKTRACE` to, unless it is left as it is.
    pub rust_backtrace: Option<String>,
    /// Which events are logged.
    pub filter: LogFilter,
    /// How they are written.
    pub format: LogFormat,
}

/// The value that `RUST_BACKTRACE` is set to, if it is set at all, where it was `before`.
pub open spec fn backtrace_setting(before: Option<Text>) -> Option<Text> {
    match before {
        Some(_) => None,
        None => Some("full"@),
    }
}

/// The value of a variable that was `before`, after it has been set if there is a `setting`.
pub open spec fn variable_after(before: Option<Text>, setting: Option<Text>) -> Option<Text> {
    match setting {
        Some(value) => Some(value),
        None => before,
    }
}

/// What is logged: what `RUST_LOG` says if it is set, and otherwise the default levels.
pub open spec fn chosen_filter(rust_log: Option<Text>, dev_log: bool) -> LogFilterView {
    match rust_log {
        Some(directives) => if readable(directives) {
            LogFilterView::Made { directives: read_directives(directives) }
        } else {
            LogFilterView::Unread { text: directives }
        },
        None => LogFilterView::Made { directives: held(default_directives(dev_log)) },
    }
}

/// Decides how logging is set up.
pub fn setup_logging(environment: &LogEnvironment, dev_log: bool) -> (setup: LogSetup)
    ensures
        setup.rust_backtrace.deep_view() == backtrace_setting(
            environment.rust_backtrace.deep_view(),
        ),
        setup.filter@ == chosen_filter(environment.rust_log.deep_view(), dev_log),
        environment.rust_log matches Some(directives) ==> (setup.filter matches LogFilter::Made {
            filter,
        } ==> holds_plain_directives(filter_directives(filter), directives@)),
        setup.format == log_format(environment.tracing_fmt.deep_view(), dev_log),
{
    let rust_backtrace = if environment.rust_backtrace.is_none() {
        Some("full".to_string())
    } else {
        None
    };
    let filter = match &environment.rust_log {
        Some(directives) => if is_readable(directives.as_str()) {
            LogFilter::Made { filter: read_filter(directives.as_str()) }
        } else {
            LogFilter::Unread { text: directives.clone() }
        },
        None => LogFilter::Made { filter: default_filter(dev_log) },
    };
    LogSetup { rust_backtrace, filter, format: choose_log_format(&environment.tracing_fmt, dev_log) }
}

/// `RUST_BACKTRACE` has a value after logging was set up: the one that the user has set, or
/// `full`.
pub proof fn law_backtrace_is_set(before: Option<Text>)
    ensures
        variable_after(before, backtrace_setting(before)) == Some(
            match before {
                Some(value) => value,
                None => "full"@,
            },
        ),
{
}

/// Logging for developers changes the levels of two targets only.
pub proof fn law_dev_log_levels()
    ensures
        held(default_directives(true)) == held(default_directives(false)).insert(
            plain_subject(Some("api"@)),
            "debug"@,
        ).insert(plain_subject(Some("radicle_daemon"@)), "debug"@),
{
    reveal_with_fuel(held, 3);
    let all = default_directives(true);
    assert(all.drop_last().drop_last() =~= default_directives(false));
}

/// Without `RUST_LOG`, the level is `info` where no other is set, and `warn` for three noisy
/// targets. Logging for developers does not change that.
pub proof fn law_default_levels(dev_log: bool)
    ensures
        ({
            let directives = chosen_filter(None, dev_log)->directives;
            &&& directives[plain_subject(None)] == "info"@
            &&& directives[plain_subject(Some("quinn"@))] == "warn"@
            &&& directives[plain_subject(Some("librad::net::protocol::io::streams"@))] == "warn"@
            &&& directives[plain_subject(Some("librad::net::protocol::io::recv::git"@))] == "warn"@
        }),
{
    reveal_strlit("quinn");
    reveal_strlit("librad::net::protocol::io::streams");
    reveal_strlit("librad::net::protocol::io::recv::git");
    reveal_strlit("api");
    reveal_strlit("radicle_daemon");
    reveal_with_fuel(held, 5);
    let usual = default_directives(false);
    assert(usual.drop_last() =~= usual.take(3));
    assert(usual.take(3).drop_last() =~= usual.take(2));
    assert(usual.take(2).drop_last() =~= usual.take(1));
    assert(usual.take(1).drop_last() =~= usual.take(0));
    assert("quinn"@[0] == 'q');
    assert("librad::net::protocol::io::streams"@.len() == 34);
    assert("librad::net::protocol::io::recv::git"@.len() == 36);
    law_dev_log_levels();
}

/// A user who sets `RUST_LOG` decides what is logged: the filter is the one that is read from
/// the text, the default directives add nothing to it, and logging for developers changes nothing
/// of it.
pub proof fn law_rust_log_decides(directives: Text, dev_log: bool, other_dev_log: bool)
    ensures
        chosen_filter(Some(directives), dev_log) == chosen_filter(Some(directives), other_dev_log),
        readable(directives) ==> chosen_filter(Some(directives), dev_log) == (LogFilterView::Made {
            directives: read_directives(directives),
        }),
        !readable(directives) ==> chosen_filter(Some(directives), dev_log) == (
        LogFilterView::Unread { text: directives }),
{
}

/// The format is the named one exactly if `TRACING_FMT` is the name of a format, letter for letter.
/// With any other value, as without one, it is the pretty one for developers and the full one for
/// all others.
pub proof fn law_named_format(tracing_fmt: Option<Text>, dev_log: bool)
    ensures
        tracing_fmt == Some("pretty"@) ==> log_format(tracing_fmt, dev_log) == LogFormat::Pretty,
        log_format(tracing_fmt, dev_log) == LogFormat::Compact <==> tracing_fmt == Some(
            "compact"@,
        ),
        log_format(tracing_fmt, dev_log) == LogFormat::Json <==> tracing_fmt == Some("json"@),
        log_format(tracing_fmt, dev_log) == LogFormat::Full <==> !dev_log && tracing_fmt != Some(
            "pretty"@,
        ) && tracing_fmt != Some("compact"@) && tracing_fmt != Some("json"@),
{
    reveal_strlit("pretty");
    reveal_strlit("compact");
    reveal_strlit("json");
    assert("pretty"@.len() == 6 && "compact"@.len() == 7 && "json"@.len() == 4);
}

/// `RUST_BACKTRACE` is set exactly if it has no value, and then to `full`.
pub proof fn law_backtrace_is_kept(before: Option<Text>)
    ensures
        backtrace_setting(before) is Some <==> before is None,
        backtrace_setting(before) matches Some(value) ==> value == "full"@,
{
}

/// Without `RUST_LOG`, the filter holds a directive for everything, for the three noisy targets,
/// and for developers two more, each about its target alone, and no other one.
pub proof fn law_default_directives(dev_log: bool, subject: Subject)
    ensures
        ({
            let filter = chosen_filter(None, dev_log);
            let about = |target: Option<Text>| subject == (false, target, None::<Text>, Seq::<
                Text,
            >::empty());
            let directives = filter->directives;
            &&& filter is Made
            &&& directives.dom().contains(subject) <==> {
                ||| about(None)
                ||| about(Some("quinn"@))
                ||| about(Some("librad::net::protocol::io::streams"@))
                ||| about(Some("librad::net::protocol::io::recv::git"@))
                ||| dev_log && about(Some("api"@))
                ||| dev_log && about(Some("radicle_daemon"@))
            }
            &&& about(None) ==> directives[subject] == "info"@
            &&& about(Some("quinn"@)) ==> directives[subject] == "warn"@
            &&& about(Some("librad::net::protocol::io::streams"@)) ==> directives[subject]
                == "warn"@
            &&& about(Some("librad::net::protocol::io::recv::git"@)) ==> directives[subject]
                == "warn"@
            &&& dev_log && about(Some("api"@)) ==> directives[subject] == "debug"@
            &&& dev_log && about(Some("radicle_daemon"@)) ==> directives[subject] == "debug"@
        }),
{
    reveal_strlit("quinn");
    reveal_strlit("librad::net::protocol::io::streams");
    reveal_strlit("librad::net::protocol::io::recv::git");
    reveal_strlit("api");
    reveal_strlit("radicle_daemon");
    reveal_with_fuel(held, 5);
    let usual = default_directives(false);
    assert(usual.drop_last() =~= usual.take(3));
    assert(usual.take(3).drop_last() =~= usual.take(2));
    assert(usual.take(2).drop_last() =~= usual.take(1));
    assert(usual.take(1).drop_last() =~= usual.take(0));
    assert("quinn"@.len() == 5 && "api"@.len() == 3 && "radicle_daemon"@.len() == 14);
    assert("librad::net::protocol::io::streams"@.len() == 34);
    assert("librad::net::protocol::io::recv::git"@.len() == 36);
    law_dev_log_levels();
}

/// A filter is seen as all of its directives, and text that was not read as that text.
pub proof fn law_view_of_filter(filter: LogFilter)
    ensures
        match filter {
            LogFilter::Made { filter: made } => filter@ == (LogFilterView::Made {
                directives: filter_directives(made),
            }),
            LogFilter::Unread { text } => filter@ == (LogFilterView::Unread { text: text@ }),
        },
{
}

} // verus!
