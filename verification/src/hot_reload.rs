//! Hot reload: what the watcher of the configuration files decides. The
//! watcher itself, the clock and the files are the caller's.

use vstd::prelude::*;
use vstd::string::StringExecFns;
use crate::time::{elapsed, elapsed_nanos};
use crate::config::{ApiKeyStore, GatewayConfig};
use crate::errors::{AppError, ErrorView};
use crate::text::{joined, contains_str, views};

verus! {

/// The nanoseconds during which a further change of a file is held back.
pub const DEBOUNCE_NANOS: u64 = 100_000_000;

/// How often the watcher is tried to be made.
pub const MAX_RETRY_ATTEMPTS: usize = 3;

/// The nanoseconds between two tries to make the watcher.
pub const RETRY_DELAY_NANOS: u64 = 1_000_000_000;

/// Why a reload did not happen.
#[derive(Debug, Clone, PartialEq, Eq)]
pub enum HotReloadError {
    PathResolution(String),
    /// Holds the path.
    FileNotFound(String),
    WatcherCreation(String),
    FileWatching(String),
    ConfigReload(String),
}

impl HotReloadError {
    /// The error in words.
    pub open spec fn spec_message(self) -> Seq<char> {
        match self {
            HotReloadError::PathResolution(what) => "Path resolution failed: "@ + what@,
            HotReloadError::FileNotFound(path) => "File not found: "@ + path@,
            HotReloadError::WatcherCreation(what) => "Watcher creation failed: "@ + what@,
            HotReloadError::FileWatching(what) => "File watching failed: "@ + what@,
            HotReloadError::ConfigReload(what) => "Config reload failed: "@ + what@,
        }
    }

    /// The error in words.
    pub fn message(&self) -> (text: String)
        ensures
            text@ == self.spec_message(),
    {
        match self {
            HotReloadError::PathResolution(what) => joined(
                "Path resolution failed: ",
                what.as_str(),
            ),
            HotReloadError::FileNotFound(path) => joined("File not found: ", path.as_str()),
            HotReloadError::WatcherCreation(what) => joined(
                "Watcher creation failed: ",
                what.as_str(),
            ),
            HotReloadError::FileWatching(what) => joined("File watching failed: ", what.as_str()),
            HotReloadError::ConfigReload(what) => joined("Config reload failed: ", what.as_str()),
        }
    }

    /// The gateway error that stands for this error: it holds the words.
    pub fn into_app_error(self) -> (e: AppError)
        ensures
            e@ == ErrorView::HotReloadError(self.spec_message()),
    {
        AppError::HotReloadError(self.message())
    }
}

/// What happened to the files of an event.
#[derive(Debug, Clone, Copy, PartialEq, Eq, Structural)]
pub enum EventKind {
    Create,
    Modify,
    /// Anything else: access, removal, and what the watcher cannot tell.
    Other,
}

/// One event of the watcher: what happened, and to which files.
#[derive(Debug, Clone, PartialEq, Eq)]
pub struct FileEvent {
    pub kind: EventKind,
    pub paths: Vec<String>,
}

impl EventKind {
    /// Whether an event of this kind can mean that a file has new content.
    pub open spec fn is_change(self) -> bool {
        self == EventKind::Create || self == EventKind::Modify
    }
}

/// Holds back events that follow one another too closely: editors write a
/// file in several steps.
#[derive(Debug, Clone, PartialEq, Eq)]
pub struct Debouncer {
    /// The instant of the last event that was let through, in nanoseconds.
    pub last_event_time: u64,
    /// The last event that was held back, if none was let through since.
    pub pending: Option<FileEvent>,
}

impl Debouncer {
    /// A debouncer that starts at `now`, with nothing held back.
    pub fn new(now: u64) -> (d: Self)
        ensures
            d.last_event_time == now,
            d.pending is None,
    {
        Debouncer { last_event_time: now, pending: None }
    }

    /// Whether an event at `now` is held back: it comes less than the
    /// debounce time after the last event that was let through.
    pub open spec fn holds_back(self, now: u64) -> bool {
        elapsed(self.last_event_time, now) < DEBOUNCE_NANOS
    }

    /// Hands out the change that is held back, once the debounce time has
    /// passed at `now`, so that the last change of a burst is acted on
    /// though no event follows it. Where nothing is held back or the time
    /// has not passed, nothing is handed out and nothing changes.
    pub fn release(&mut self, now: u64) -> (due: Option<FileEvent>)
        ensures
            old(self).pending is Some && !old(self).holds_back(now) ==> {
                &&& due == old(self).pending
                &&& final(self).pending is None
                &&& final(self).last_event_time == now
            },
            old(self).pending is None || old(self).holds_back(now) ==> due is None && *final(self)
                == *old(self),
    {
        if self.pending.is_none() || elapsed_nanos(self.last_event_time, now) < DEBOUNCE_NANOS {
            return None;
        }
        self.last_event_time = now;
        self.pending.take()
    }

    /// Takes an event that arrives at `now`, and hands out the events to
    /// act on, in their order.
    ///
    /// An event that is no change of a file is dropped. A change that
    /// follows too closely is held back, in place of what was held back
    /// before, until a later change or `release` hands it out. Any other
    /// change is let through, behind the one that was held back, if there
    /// is one.
    pub fn on_event(&mut self, event: FileEvent, now: u64) -> (due: Vec<FileEvent>)
        ensures
            !event.kind.is_change() ==> due@.len() == 0 && *final(self) == *old(self),
            event.kind.is_change() && old(self).holds_back(now) ==> {
                &&& due@.len() == 0
                &&& final(self).last_event_time == old(self).last_event_time
                &&& final(self).pending == Some(event)
            },
            event.kind.is_change() && !old(self).holds_back(now) ==> {
                &&& final(self).last_event_time == now
                &&& final(self).pending is None
                &&& match old(self).pending {
                    Some(held) => due@ == seq![held, event],
                    None => due@ == seq![event],
                }
            },
    {
        let mut due: Vec<FileEvent> = Vec::new();
        match event.kind {
            EventKind::Other => {
                return due;
            },
            _ => {},
        }
        if elapsed_nanos(self.last_event_time, now) < DEBOUNCE_NANOS {
            self.pending = Some(event);
            return due;
        }
        let held = self.pending.take();
        match held {
            Some(h) => {
                due.push(h);
            },
            None => {},
        }
        due.push(event);
        self.last_event_time = now;
        assert(match old(self).pending {
            Some(held) => due@ =~= seq![held, event],
            None => due@ =~= seq![event],
        });
        due
    }
}

/// Which of the two files to read again.
#[derive(Debug, Clone, Copy, PartialEq, Eq, Structural)]
pub struct ReloadPlan {
    pub gateway_config: bool,
    pub api_keys: bool,
}

/// Decides which files to read again for an event: each of the two whose
/// path is among the event's paths.
pub fn plan_reload(event: &FileEvent, gateway_config_path: &str, api_key_store_path: &str) -> (plan:
    ReloadPlan)
    ensures
        plan.gateway_config == views(event.paths@).contains(gateway_config_path@),
        plan.api_keys == views(event.paths@).contains(api_key_store_path@),
{
    ReloadPlan {
        gateway_config: contains_str(event.paths.as_slice(), gateway_config_path),
        api_keys: contains_str(event.paths.as_slice(), api_key_store_path),
    }
}

/// Puts a configuration that was read again in the place of the current
/// one, if it could be read and is valid. The current one stays as it is
/// otherwise: a configuration is replaced whole or not at all.
///
/// `loaded` is the configuration that was read, or why none could be.
pub fn reload_config(current: &mut GatewayConfig, loaded: Result<GatewayConfig, String>) -> (r:
    Result<(), HotReloadError>)
    ensures
        match loaded {
            Ok(config) => if config.valid() {
                r is Ok && *final(current) == config
            } else {
                &&& *final(current) == *old(current)
                &&& r matches Err(HotReloadError::ConfigReload(why))
                &&& why@ == "Failed to parse gateway_config.yaml: "@
                    + config.fault()->0.spec_message()
            },
            Err(e) => {
                &&& *final(current) == *old(current)
                &&& r matches Err(HotReloadError::ConfigReload(why))
                &&& why@ == "Failed to parse gateway_config.yaml: "@ + e@
            },
        },
        old(current).valid() ==> final(current).valid(),
{
    match loaded {
        Ok(config) => match config.validate() {
            Ok(()) => {
                *current = config;
                Ok(())
            },
            Err(fault) => Err(
                HotReloadError::ConfigReload(
                    joined("Failed to parse gateway_config.yaml: ", fault.message().as_str()),
                ),
            ),
        },
        Err(e) => Err(
            HotReloadError::ConfigReload(joined("Failed to parse gateway_config.yaml: ", e.as_str())),
        ),
    }
}

/// Puts a key store that was read again in the place of the current one,
/// if it could be read. The current one stays as it is otherwise.
pub fn reload_api_keys(current: &mut ApiKeyStore, loaded: Result<ApiKeyStore, String>) -> (r:
    Result<(), HotReloadError>)
    ensures
        match loaded {
            Ok(store) => r is Ok && *final(current) == store,
            Err(e) => {
                &&& *final(current) == *old(current)
                &&& r matches Err(HotReloadError::ConfigReload(why))
                &&& why@ == "Failed to parse api_keys.yaml: "@ + e@
            },
        },
{
    match loaded {
        Ok(store) => {
            *current = store;
            Ok(())
        },
        Err(e) => Err(
            HotReloadError::ConfigReload(joined("Failed to parse api_keys.yaml: ", e.as_str())),
        ),
    }
}

/// What to do after a try to make the watcher has failed.
#[derive(Debug, Clone, PartialEq, Eq)]
pub enum RetryDecision {
    /// Try again after so many nanoseconds.
    RetryAfter(u64),
    /// Give up, with this error.
    GiveUp(HotReloadError),
}

/// Decides what to do after the try number `attempt`, counted from 1, to
/// make the watcher has failed with `error`: to try again after a second,
/// up to three tries in all.
pub fn after_failed_attempt(attempt: usize, error: &str) -> (decision: RetryDecision)
    ensures
        attempt < MAX_RETRY_ATTEMPTS ==> decision == RetryDecision::RetryAfter(RETRY_DELAY_NANOS),
        attempt >= MAX_RETRY_ATTEMPTS ==> {
            &&& decision matches RetryDecision::GiveUp(HotReloadError::WatcherCreation(why))
            &&& why@ == "Failed to create watcher after 3 attempts: "@ + error@
        },
{
    if attempt < MAX_RETRY_ATTEMPTS {
        RetryDecision::RetryAfter(RETRY_DELAY_NANOS)
    } else {
        RetryDecision::GiveUp(
            HotReloadError::WatcherCreation(
                joined("Failed to create watcher after 3 attempts: ", error),
            ),
        )
    }
}

/// Judges a path that the file system was asked about: `resolved` is its
/// canonical form, or why it has none; `exists` and `is_file` say what is
/// there. The canonical path of a file that is there is handed on.
pub fn check_resolved_path(path: &str, resolved: Result<String, String>, exists: bool, is_file: bool) -> (r:
    Result<String, HotReloadError>)
    ensures
        match resolved {
            Ok(canonical) => if exists && is_file {
                r == Ok::<String, HotReloadError>(canonical)
            } else {
                r == Err::<String, HotReloadError>(HotReloadError::FileNotFound(canonical))
            },
            Err(e) => {
                &&& r matches Err(HotReloadError::PathResolution(why))
                &&& why@ == "Failed to resolve path \""@ + path@ + "\": "@ + e@
            },
        },
{
    match resolved {
        Ok(canonical) => {
            if exists && is_file {
                Ok(canonical)
            } else {
                Err(HotReloadError::FileNotFound(canonical))
            }
        },
        Err(e) => {
            let mut why = joined("Failed to resolve path \"", path);
            why.append("\": ");
            why.append(e.as_str());
            Err(HotReloadError::PathResolution(why))
        },
    }
}

/// The error for a file that the watcher could not be set on: `file_type`
/// says which file, `error` why.
pub fn watch_failure(file_type: &str, error: &str) -> (e: HotReloadError)
    ensures
        e matches HotReloadError::FileWatching(why) && why@ == "Failed to watch "@ + file_type@
            + " file: "@ + error@,
{
    let mut why = joined("Failed to watch ", file_type);
    why.append(" file: ");
    why.append(error);
    HotReloadError::FileWatching(why)
}

} // verus!
