//! Logging safety policy: which levels and directories are accepted, and
//! what of a message is written.

use vstd::prelude::*;
use crate::outside::is_absolute_path;
use crate::outside::same_text;
use crate::outside::text_from;
use crate::outside::to_ascii_lowercase;
use crate::text::trim;
use crate::text::ascii_lowered;
use crate::text::blank;
use crate::text::chars_of;
use crate::text::join3;
use crate::text::trimmed;

verus! {

/// Returns the default log level for a build mode: `debug` for a debug
/// build, `info` for a release build.
pub fn default_log_level(debug_build: bool) -> (r: &'static str)
    ensures
        r@ == (if debug_build {
            "debug"@
        } else {
            "info"@
        }),
{
    if debug_build {
        "debug"
    } else {
        "info"
    }
}

/// The name of a build mode.
pub fn build_mode(debug_build: bool) -> (r: &'static str)
    ensures
        r@ == (if debug_build {
            "debug"@
        } else {
            "release"@
        }),
{
    if debug_build {
        "debug"
    } else {
        "release"
    }
}

/// The level that `name` names, `name` being trimmed and in lower case:
/// one of trace, debug, info, warn, error, with warning for warn.
pub open spec fn level_named(name: Seq<char>) -> Option<Seq<char>> {
    if name == "trace"@ {
        Some("trace"@)
    } else if name == "debug"@ {
        Some("debug"@)
    } else if name == "info"@ {
        Some("info"@)
    } else if name == "warn"@ || name == "warning"@ {
        Some("warn"@)
    } else if name == "error"@ {
        Some("error"@)
    } else {
        None
    }
}

/// What normalizing the level `level` gives: the level it names, or a
/// message that names what was asked for.
pub open spec fn normalized_level(level: Seq<char>) -> Result<Seq<char>, Seq<char>> {
    let name = ascii_lowered(trimmed(level));
    match level_named(name) {
        Some(l) => Ok(l),
        None => Err("unsupported log level `"@ + name + "`; expected trace|debug|info|warn|error"@),
    }
}

/// Normalizes a log level, whatever its case and the whitespace around it.
pub fn normalize_level(level: &str) -> (r: Result<&'static str, String>)
    ensures
        match r {
            Ok(l) => normalized_level(level@) == Ok::<Seq<char>, Seq<char>>(l@),
            Err(message) => normalized_level(level@) == Err::<Seq<char>, Seq<char>>(message@),
        },
{
    let name = to_ascii_lowercase(trim(level));
    if same_text(name.as_str(), "trace") {
        Ok("trace")
    } else if same_text(name.as_str(), "debug") {
        Ok("debug")
    } else if same_text(name.as_str(), "info") {
        Ok("info")
    } else if same_text(name.as_str(), "warn") || same_text(name.as_str(), "warning") {
        Ok("warn")
    } else if same_text(name.as_str(), "error") {
        Ok("error")
    } else {
        Err(
            join3(
                "unsupported log level `",
                name.as_str(),
                "`; expected trace|debug|info|warn|error",
            ),
        )
    }
}

/// What checking the log directory `log_dir` gives, `absolute` saying
/// whether the platform takes the trimmed path as absolute: the trimmed
/// path, or a message.
pub open spec fn checked_log_dir(log_dir: Seq<char>, absolute: bool) -> Result<Seq<char>, Seq<char>> {
    if blank(log_dir) {
        Err("log_dir cannot be empty"@)
    } else if !absolute {
        Err("log_dir must be an absolute path, got `"@ + trimmed(log_dir) + "`"@)
    } else {
        Ok(trimmed(log_dir))
    }
}

/// Checks a log directory that the platform takes as absolute or not.
pub fn check_log_dir(log_dir: &str, absolute: bool) -> (r: Result<String, String>)
    ensures
        match r {
            Ok(path) => checked_log_dir(log_dir@, absolute) == Ok::<Seq<char>, Seq<char>>(path@),
            Err(message) => checked_log_dir(log_dir@, absolute) == Err::<Seq<char>, Seq<char>>(message@),
        },
{
    let kept = trim(log_dir);
    if kept.is_empty() {
        return Err("log_dir cannot be empty".to_owned());
    }
    if !absolute {
        return Err(join3("log_dir must be an absolute path, got `", kept, "`"));
    }
    Ok(kept.to_owned())
}

/// Normalizes a log directory: trimmed, not empty, and absolute as the
/// platform sees it.
pub fn normalize_log_dir(log_dir: &str) -> (r: Result<String, String>)
    ensures
        blank(log_dir@) ==> r is Err && r->Err_0@ == "log_dir cannot be empty"@,
        match r {
            Ok(path) => checked_log_dir(log_dir@, true) == Ok::<Seq<char>, Seq<char>>(path@),
            Err(message) => checked_log_dir(log_dir@, false) == Err::<Seq<char>, Seq<char>>(message@),
        },
{
    let absolute = is_absolute_path(trim(log_dir));
    check_log_dir(log_dir, absolute)
}

/// `c`, or a blank in place of a line break.
pub open spec fn flat_char(c: char) -> char {
    if c == '\n' || c == '\r' {
        ' '
    } else {
        c
    }
}

/// `s` with a blank in place of each line break.
pub open spec fn flattened(s: Seq<char>) -> Seq<char> {
    s.map_values(|c: char| flat_char(c))
}

/// What is written of a message: its line breaks as blanks, and no more
/// than `max_chars` characters of it, with `...` behind what was cut.
pub open spec fn sanitized(s: Seq<char>, max_chars: int) -> Seq<char> {
    if s.len() > max_chars {
        flattened(s).take(max_chars) + "..."@
    } else {
        flattened(s)
    }
}

/// Sanitizes a message for the log.
pub fn sanitize_message(value: &str, max_chars: usize) -> (r: String)
    ensures
        r@ == sanitized(value@, max_chars as int),
{
    let chars = chars_of(value);
    let mut out: Vec<char> = Vec::new();
    let mut i: usize = 0;
    while i < chars.len() && i < max_chars
        invariant
            i <= chars.len(),
            i <= max_chars,
            chars@ == value@,
            out@ == flattened(chars@).take(i as int),
        decreases chars.len() - i,
    {
        let c = chars[i];
        let ghost before = out@;
        if c == '\n' || c == '\r' {
            out.push(' ');
        } else {
            out.push(c);
        }
        assert(out@ =~= flattened(chars@).take(i as int + 1));
        i += 1;
    }
    if chars.len() > max_chars {
        proof {
            reveal_strlit("...");
        }
        let ghost kept = out@;
        out.push('.');
        out.push('.');
        out.push('.');
        assert(out@ =~= kept + "..."@);
    } else {
        assert(out@ =~= flattened(chars@));
    }
    text_from(&out)
}

/// What is asked of the logger: the level by its name, and the directory.
#[derive(Debug, Clone, PartialEq, Eq)]
pub struct LoggingConfig {
    pub level: &'static str,
    pub log_dir: String,
}

/// Reads what is asked of the logger: the level first, then the
/// directory; the first that is refused gives the message.
pub fn logging_config(level: &str, log_dir: &str) -> (r: Result<LoggingConfig, String>)
    ensures
        normalized_level(level@) is Err ==> r is Err && r->Err_0@ == normalized_level(level@)->Err_0,
        normalized_level(level@) is Ok && blank(log_dir@) ==> r is Err && r->Err_0@
            == "log_dir cannot be empty"@,
        match r {
            Ok(config) => normalized_level(level@) == Ok::<Seq<char>, Seq<char>>(config.level@)
                && checked_log_dir(log_dir@, true) == Ok::<Seq<char>, Seq<char>>(config.log_dir@),
            Err(message) => normalized_level(level@) == Err::<Seq<char>, Seq<char>>(message@) || (
            normalized_level(level@) is Ok && checked_log_dir(log_dir@, false) == Err::<
                Seq<char>,
                Seq<char>,
            >(message@)),
        },
{
    let level = match normalize_level(level) {
        Ok(level) => level,
        Err(message) => {
            return Err(message);
        },
    };
    match normalize_log_dir(log_dir) {
        Ok(log_dir) => Ok(LoggingConfig { level, log_dir }),
        Err(message) => Err(message),
    }
}

/// What a second initialization comes to where logging is active at
/// `active_dir` with `active_level`: nothing, where the same is asked for
/// again; a refusal to switch the directory, `same_dir` saying whether
/// the platform takes the two paths as one; a refusal to switch the level.
pub open spec fn same_config(
    same_dir: bool,
    active_dir: Seq<char>,
    log_dir: Seq<char>,
    active_level: Seq<char>,
    level: Seq<char>,
) -> Result<(), Seq<char>> {
    if !same_dir {
        Err(
            "logging already initialized at `"@ + active_dir + "`; refusing to switch to `"@ + log_dir
                + "`"@,
        )
    } else if active_level != level {
        Err(
            "logging already initialized with level `"@ + active_level + "`; refusing to switch to `"@
                + level + "`"@,
        )
    } else {
        Ok(())
    }
}

/// Judges a second initialization against what is active.
pub fn check_same_config(same_dir: bool, active_dir: &str, log_dir: &str, active_level: &str, level: &str) -> (r:
    Result<(), String>)
    ensures
        match r {
            Ok(()) => same_config(same_dir, active_dir@, log_dir@, active_level@, level@) is Ok,
            Err(message) => same_config(same_dir, active_dir@, log_dir@, active_level@, level@) == Err::<
                (),
                Seq<char>,
            >(message@),
        },
{
    if !same_dir {
        let mut message = join3("logging already initialized at `", active_dir, "`; refusing to switch to `");
        message.append(log_dir);
        message.append("`");
        return Err(message);
    }
    if !same_text(active_level, level) {
        let mut message = join3(
            "logging already initialized with level `",
            active_level,
            "`; refusing to switch to `",
        );
        message.append(level);
        message.append("`");
        return Err(message);
    }
    Ok(())
}

} // verus!
