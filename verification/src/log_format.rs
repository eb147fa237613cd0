//! Formatting of log lines: `[<gray time> <styled level>] › <gray
//! message>`, with each level rendered in its own colour.

use crate::colors::{spec_render, AnsiCode, Colorize, StyledText, StyledView};
use vstd::prelude::*;
use vstd::string::StringExecFns;

verus! {

/// Severity of a log record.
#[derive(Clone, Copy, Debug, PartialEq, Eq, Structural)]
pub enum LogLevel {
    Error,
    Warn,
    Info,
    Debug,
    Trace,
}

/// The styled tag each level is printed as.
pub open spec fn spec_level_tag(l: LogLevel) -> Seq<char> {
    match l {
        LogLevel::Error => spec_render(
            StyledView {
                value: "ERROR"@,
                styles: seq![AnsiCode::Red, AnsiCode::Bold],
                reset: AnsiCode::Reset,
            },
        ),
        LogLevel::Warn => spec_render(
            StyledView {
                value: "WARN"@,
                styles: seq![AnsiCode::Yellow, AnsiCode::Bold],
                reset: AnsiCode::Reset,
            },
        ),
        LogLevel::Info => spec_render(
            StyledView { value: "INFO"@, styles: seq![AnsiCode::Green], reset: AnsiCode::Reset },
        ),
        LogLevel::Debug => spec_render(
            StyledView { value: "DEBUG"@, styles: seq![AnsiCode::Purple], reset: AnsiCode::Reset },
        ),
        LogLevel::Trace => spec_render(
            StyledView { value: "TRACE"@, styles: seq![AnsiCode::Cyan], reset: AnsiCode::Reset },
        ),
    }
}

/// Text rendered in gray with the automatic reset.
pub open spec fn spec_gray(s: Seq<char>) -> Seq<char> {
    spec_render(StyledView { value: s, styles: seq![AnsiCode::Gray], reset: AnsiCode::Reset })
}

/// One formatted log line: the gray timestamp and the coloured level
/// tag in brackets, a separator, then the gray message.
pub open spec fn spec_log_line(time: Seq<char>, level: LogLevel, message: Seq<char>) -> Seq<char> {
    "["@ + spec_gray(time) + " "@ + spec_level_tag(level) + "] \u{203A} "@ + spec_gray(message)
}

/// Formats one log record into the line the process writes out.
pub fn format_log(time: &str, level: LogLevel, message: &str) -> (r: String)
    ensures
        r@ == spec_log_line(time@, level, message@),
{
    let tag: StyledText = match level {
        LogLevel::Error => "ERROR".red().bold(),
        LogLevel::Warn => "WARN".yellow().bold(),
        LogLevel::Info => "INFO".green(),
        LogLevel::Debug => "DEBUG".purple(),
        LogLevel::Trace => "TRACE".cyan(),
    };
    proof {
        assert(seq![AnsiCode::Red].push(AnsiCode::Bold) =~= seq![AnsiCode::Red, AnsiCode::Bold]);
        assert(seq![AnsiCode::Yellow].push(AnsiCode::Bold) =~= seq![
            AnsiCode::Yellow,
            AnsiCode::Bold,
        ]);
        assert(spec_render(tag@) == spec_level_tag(level));
    }
    let mut out = String::from_str("[");
    let timepart = time.gray().render();
    out.append(timepart.as_str());
    out.append(" ");
    let tagpart = tag.render();
    out.append(tagpart.as_str());
    out.append("] \u{203A} ");
    let msgpart = message.gray().render();
    out.append(msgpart.as_str());
    proof {
        assert(out@ =~= spec_log_line(time@, level, message@));
    }
    out
}

} // verus!
