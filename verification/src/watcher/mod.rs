//! The file-system watcher: which events matter, which paths to ignore, what to
//! invalidate, and which directories to watch.
pub mod path;
pub mod path_order;
pub mod ignore;
pub mod event;
pub mod batch;
pub mod path_map;
pub mod invalidators;
pub mod watched;
pub mod disk_watcher;
pub mod watch_loop;

use vstd::prelude::*;
use crate::text::str_equal;

verus! {

/// Whether the notification backend watches whole trees itself, or whether each
/// directory of interest is watched on its own.
#[derive(Clone, Copy, Debug, PartialEq, Eq, Hash, Structural)]
pub enum DiskWatcherRecursiveMode {
    Recursive,
    NonRecursive,
}

/// Settings of the watcher. Durations are in milliseconds.
#[derive(Clone, Copy, Debug, PartialEq, Eq, Hash, Structural)]
pub struct DiskWatcherConfig {
    /// Whether the backend watches whole trees; `None` picks a default from the platform
    /// and the polling setting.
    pub recursive_mode: Option<DiskWatcherRecursiveMode>,
    /// Poll the file system at this interval instead of using native notifications.
    pub poll_interval_ms: Option<u64>,
    /// Attach the reason to every invalidation the watcher causes.
    pub report_invalidation_reason: bool,
    /// How long a batch of events stays open waiting for more.
    pub batch_delay_ms: u64,
    /// How long a batch stays open once the extended-delay matcher matched a path.
    pub extended_batch_delay_duration_ms: u64,
    /// How long a batch may stay open before a settling event is reported.
    pub settling_event_initial_delay_ms: u64,
    /// The longest interval between repeated settling events of one batch.
    pub settling_event_max_delay_ms: u64,
}

/// The default settings.
pub open spec fn default_config() -> DiskWatcherConfig {
    DiskWatcherConfig {
        recursive_mode: None,
        poll_interval_ms: None,
        report_invalidation_reason: false,
        batch_delay_ms: 10,
        extended_batch_delay_duration_ms: 200,
        settling_event_initial_delay_ms: 500,
        settling_event_max_delay_ms: 60_000,
    }
}

impl Default for DiskWatcherConfig {
    fn default() -> (r: Self)
        ensures
            r == default_config(),
    {
        DiskWatcherConfig {
            recursive_mode: None,
            poll_interval_ms: None,
            report_invalidation_reason: false,
            batch_delay_ms: 10,
            extended_batch_delay_duration_ms: 200,
            settling_event_initial_delay_ms: 500,
            settling_event_max_delay_ms: 60_000,
        }
    }
}

/// What the platform and the environment say about watching.
#[derive(Clone, Copy, Debug, PartialEq, Eq, Structural)]
pub struct WatchPlatform {
    /// A watch mode forced from the environment, for debugging.
    pub forced_mode: Option<DiskWatcherRecursiveMode>,
    /// The platform's native backend watches whole trees efficiently.
    pub has_efficient_recursive_watcher: bool,
    /// The native backend reports content changes as unspecified metadata changes.
    pub metadata_any_is_content: bool,
}

/// The watch mode in effect: the forced one, else the configured one, else
/// non-recursive when polling, else recursive exactly where the platform's native
/// backend watches whole trees efficiently.
pub open spec fn resolved_mode(config: DiskWatcherConfig, platform: WatchPlatform) -> DiskWatcherRecursiveMode {
    match platform.forced_mode {
        Some(m) => m,
        None => match config.recursive_mode {
            Some(m) => m,
            None => if config.poll_interval_ms is Some {
                DiskWatcherRecursiveMode::NonRecursive
            } else if platform.has_efficient_recursive_watcher {
                DiskWatcherRecursiveMode::Recursive
            } else {
                DiskWatcherRecursiveMode::NonRecursive
            },
        },
    }
}

impl DiskWatcherConfig {
    /// Resolves the watch mode, falling back to a default based on polling and the platform.
    pub fn resolve_recursive_mode(&self, platform: &WatchPlatform) -> (r: DiskWatcherRecursiveMode)
        ensures
            r == resolved_mode(*self, *platform),
    {
        if let Some(forced) = platform.forced_mode {
            return forced;
        }
        if let Some(mode) = self.recursive_mode {
            mode
        } else if self.poll_interval_ms.is_some() {
            DiskWatcherRecursiveMode::NonRecursive
        } else if platform.has_efficient_recursive_watcher {
            DiskWatcherRecursiveMode::Recursive
        } else {
            DiskWatcherRecursiveMode::NonRecursive
        }
    }
}

/// How the watch-mode override read from the environment turned out.
#[derive(Clone, Copy, Debug, PartialEq, Eq, Structural)]
pub enum ForcedWatchMode {
    /// The variable is not set (or not valid Unicode).
    Unset,
    /// The variable names a mode.
    Mode(DiskWatcherRecursiveMode),
    /// The variable holds something else, which is reported and otherwise ignored.
    Unsupported,
}

/// Reads the value of the watch-mode override: `recursive` or `nonrecursive`.
pub fn parse_forced_watch_mode(value: Option<&str>) -> (r: ForcedWatchMode)
    ensures
        r == match value {
            None => ForcedWatchMode::Unset,
            Some(v) => if v@ == "recursive"@ {
                ForcedWatchMode::Mode(DiskWatcherRecursiveMode::Recursive)
            } else if v@ == "nonrecursive"@ {
                ForcedWatchMode::Mode(DiskWatcherRecursiveMode::NonRecursive)
            } else {
                ForcedWatchMode::Unsupported
            },
        },
{
    match value {
        None => ForcedWatchMode::Unset,
        Some(v) => if str_equal(v, "recursive") {
            ForcedWatchMode::Mode(DiskWatcherRecursiveMode::Recursive)
        } else if str_equal(v, "nonrecursive") {
            ForcedWatchMode::Mode(DiskWatcherRecursiveMode::NonRecursive)
        } else {
            ForcedWatchMode::Unsupported
        },
    }
}

impl ForcedWatchMode {
    /// The forced mode, if any.
    pub fn mode(self) -> (r: Option<DiskWatcherRecursiveMode>)
        ensures
            r == match self {
                ForcedWatchMode::Mode(m) => Some(m),
                _ => None,
            },
    {
        match self {
            ForcedWatchMode::Mode(m) => Some(m),
            _ => None,
        }
    }
}

} // verus!
