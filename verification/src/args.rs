//! What the service is told when it is started.

use crate::paths::{join_path, joined_path};
use crate::text::{debug_text, opt_text, quoted, same_text};
use vstd::prelude::*;
use vstd::string::*;

verus! {

/// What the service was asked to do, other than to serve.
#[derive(Debug, Clone, PartialEq, Eq)]
pub enum ServiceCommand<S = String> {
    /// Clear what a hard-killed rclone left behind, so that its unit can start.
    PrepareMount { name: S },
}

impl View for ServiceCommand {
    type V = ServiceCommand<Seq<char>>;

    open spec fn view(&self) -> ServiceCommand<Seq<char>> {
        match *self {
            ServiceCommand::PrepareMount { name } => ServiceCommand::PrepareMount { name: name@ },
        }
    }
}

/// The service's command line.
#[derive(Debug, Clone, PartialEq, Eq)]
pub struct Args<S = String> {
    /// Path to the configuration file.
    pub config: Option<S>,
    /// Log verbosity. Takes precedence over the environment.
    pub log_level: Option<S>,
    /// Accepted and ignored: the service always stays in the foreground.
    pub foreground: bool,
    pub command: Option<ServiceCommand<S>>,
}

impl View for Args {
    type V = Args<Seq<char>>;

    open spec fn view(&self) -> Args<Seq<char>> {
        Args {
            config: opt_text(self.config),
            log_level: opt_text(self.log_level),
            foreground: self.foreground,
            command: match self.command {
                Some(c) => Some(c@),
                None => None,
            },
        }
    }
}

/// Whether a text names a log level.
pub open spec fn names_level(s: Seq<char>) -> bool {
    s == "off"@ || s == "error"@ || s == "warn"@ || s == "info"@ || s == "debug"@ || s == "trace"@
}

/// What is said of a text that does not name a log level.
pub open spec fn level_refusal(bad: Seq<char>) -> Seq<char> {
    "--log-level must be one of: off, error, warn, info, debug, trace (got "@ + debug_text(bad)
        + "). Use RUST_LOG for per-target directives."@
}

/// The log filter: the level asked for, the environment's directives, or `info`.
pub open spec fn log_filter_of(level: Option<Seq<char>>, env: Option<Seq<char>>) -> Result<
    Seq<char>,
    Seq<char>,
> {
    match level {
        Some(l) => if names_level(l) {
            Ok(l)
        } else {
            Err(level_refusal(l))
        },
        None => match env {
            Some(e) => Ok(e),
            None => Ok("info"@),
        },
    }
}

/// The log filter, given the level asked for and what the environment says.
pub fn resolve_log_filter(level: Option<&str>, env: Option<String>) -> (r: Result<String, String>)
    ensures
        (match r {
            Ok(t) => Ok::<Seq<char>, Seq<char>>(t@),
            Err(t) => Err::<Seq<char>, Seq<char>>(t@),
        }) == log_filter_of(
            match level {
                Some(l) => Some(l@),
                None => None,
            },
            opt_text(env),
        ),
{
    match level {
        Some(l) => {
            if same_text(l, "off") || same_text(l, "error") || same_text(l, "warn") || same_text(
                l,
                "info",
            ) || same_text(l, "debug") || same_text(l, "trace") {
                return Ok(l.to_owned());
            }
            let mut s =
                "--log-level must be one of: off, error, warn, info, debug, trace (got ".to_owned();
            s.append(quoted(l).as_str());
            s.append("). Use RUST_LOG for per-target directives.");
            Err(s)
        },
        None => match env {
            Some(e) => Ok(e),
            None => Ok("info".to_owned()),
        },
    }
}

/// What is said where the session provides no runtime directory.
pub open spec fn no_runtime_dir() -> Seq<char> {
    "XDG_RUNTIME_DIR is not set. It is normally provided by the session; running under systemd --user supplies it."@
}

/// Where rc sockets go, under the runtime directory that the session provides.
pub open spec fn runtime_dir_of(base: Option<Seq<char>>) -> Result<Seq<char>, Seq<char>> {
    match base {
        Some(b) => if b.len() > 0 {
            Ok(joined_path(b, "rclone-vfsmount-tray"@))
        } else {
            Err(no_runtime_dir())
        },
        None => Err(no_runtime_dir()),
    }
}

/// Where rc sockets go. The session's runtime directory is private to its user, which is
/// what keeps the sockets unreachable by other logins, so its absence is an error rather
/// than something to paper over.
pub fn runtime_dir(base: Option<&str>) -> (r: Result<String, String>)
    ensures
        (match r {
            Ok(t) => Ok::<Seq<char>, Seq<char>>(t@),
            Err(t) => Err::<Seq<char>, Seq<char>>(t@),
        }) == runtime_dir_of(
            match base {
                Some(b) => Some(b@),
                None => None,
            },
        ),
{
    if let Some(b) = base {
        if !b.is_empty() {
            return Ok(join_path(b, "rclone-vfsmount-tray"));
        }
    }
    Err(
        "XDG_RUNTIME_DIR is not set. It is normally provided by the session; running under systemd --user supplies it.".to_owned(),
    )
}

} // verus!
