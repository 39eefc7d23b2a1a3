//! Application-wide configuration: the shared model every front end and
//! service is constructed from. Loading and saving these values from a file
//! is the embedding application's business; merging two of them — typically
//! file contents against command-line wishes — is specified and verified
//! here.

use vstd::prelude::*;

verus! {

/// A three-state option: distinguishes "never set" from "forcibly disabled"
/// from "enabled with a value".
#[derive(Debug, PartialEq, Eq, Clone)]
pub enum ExtendedOption<T> {
    Unset,
    Disabled,
    Enabled(T),
}

impl<T> ExtendedOption<T> {
    /// Whether a value is present (neither unset nor disabled).
    pub fn is_enabled(&self) -> (r: bool)
        ensures
            r == (self is Enabled),
    {
        if let ExtendedOption::Enabled(_) = self {
            true
        } else {
            false
        }
    }
}

/// What to do with log messages.
#[derive(Debug, PartialEq, Eq, Clone)]
pub enum LoggingOptions {
    /// Simply ignore them.
    Quiet,
    /// Write them to standard output.
    ToConsole,
    /// Append them to a rotated file.
    ToFile {
        /// Base path for rotation or appending.
        file_path: String,
        /// Bytes a log file may reach before a rotation kicks in.
        rotation_size: usize,
        /// Rotations kept before old ones are deleted.
        rotations_kept: usize,
        /// Whether a finished rotation is compressed.
        compress_rotated: bool,
    },
}

/// Jobs the console front end can run.
#[derive(Debug, PartialEq, Eq, Clone, Copy, Structural)]
pub enum Jobs {
    /// Start the services and only quit on an external termination signal.
    Daemon,
    /// Show the effective configuration and runtime, then quit.
    CheckConfig,
}

/// Which front end drives the application.
#[derive(Debug, PartialEq, Eq, Clone, Copy, Structural)]
pub enum UiOptions {
    /// The console front end, running the given job.
    Console(Jobs),
    /// The terminal front end.
    Terminal,
    /// The graphical front end.
    Egui,
}

/// Parallelization policy for the algorithms that support one.
#[derive(Debug, PartialEq, Eq, Clone, Copy, Structural)]
pub enum ParallelizationOptions {
    Off,
    On,
}

/// Bots available to the chat front end.
#[derive(Debug, PartialEq, Eq, Clone, Copy, Structural)]
pub enum TelegramBotOptions {
    /// Answers each message with a dice throw.
    Dice,
    /// Answers known commands only.
    Stateless,
    /// Holds dialog context.
    Stateful,
}

/// The chat front end's settings.
#[derive(Debug, PartialEq, Eq, Clone)]
pub struct TelegramConfig {
    /// The bot API token.
    pub token: String,
    /// The bot to run.
    pub bot: TelegramBotOptions,
    /// Chat ids notifications are sent to.
    pub notification_chat_ids: Vec<i64>,
}

/// The environment the HTTP server is told it runs in.
#[derive(Debug, PartialEq, Eq, Clone, Copy, Structural)]
pub enum RocketProfiles {
    Debug,
    Production,
}

/// Where the HTTP server takes its own settings from.
#[derive(Debug, PartialEq, Eq, Clone, Copy, Structural)]
pub enum RocketConfigOptions {
    /// Read the HTTP server's standard configuration file.
    StandardRocketTomlFile,
    /// Avoid a second configuration file by providing the essentials here.
    Provided {
        /// Port to listen on for HTTP connections.
        http_port: u16,
        /// Worker tasks processing incoming requests.
        workers: u16,
    },
}

/// The HTTP service's settings.
#[derive(Debug, PartialEq, Eq, Clone)]
pub struct WebConfig {
    /// Basis profile for `rocket_config`.
    pub profile: RocketProfiles,
    /// The HTTP server's own settings.
    pub rocket_config: RocketConfigOptions,
    /// Expose the sanity-check routes?
    pub sanity_check_routes: bool,
    /// Expose the runtime-metrics routes?
    pub stats_routes: bool,
    /// Expose the online-logs routes?
    pub logs_following_routes: bool,
    /// Expose the online-events routes?
    pub ogre_events_following_routes: bool,
    /// Expose the event-queue routes?
    pub ogre_events_queue_routes: bool,
    /// Serve the bundled web application?
    pub web_app: bool,
    /// Prefix prepended to every route.
    pub routes_prefix: String,
}

/// The socket service's settings.
#[derive(Debug, PartialEq, Eq, Clone)]
pub struct SocketServerConfig {
    /// The interface address to listen on; `0.0.0.0` means all of them.
    pub interface: String,
    /// The port to listen on.
    pub port: u16,
    /// Worker tasks processing incoming requests.
    pub workers: u16,
}

/// Which services run, and how.
#[derive(Debug, PartialEq, Eq, Clone)]
pub struct ServicesConfig {
    pub web: ExtendedOption<WebConfig>,
    pub socket_server: ExtendedOption<SocketServerConfig>,
    pub telegram: ExtendedOption<TelegramConfig>,
}

/// Root of the application's configuration.
#[derive(Debug, PartialEq, Eq, Clone)]
pub struct Config {
    /// What to do with log messages.
    pub log: LoggingOptions,
    /// The services to run.
    pub services: ExtendedOption<ServicesConfig>,
    /// Threads dedicated to the task scheduler; `0` means one per CPU.
    pub tokio_threads: i16,
    /// The front end to run.
    pub ui: ExtendedOption<UiOptions>,
}

impl Config {
    /// Whether log lines and interactive output share the console — in
    /// which case the caller must take care that they do not get mangled
    /// into each other. Asking this of a configuration that logs to console
    /// but has no services section is a caller bug.
    pub fn is_console_output_shared(&self) -> (r: bool)
        requires
            self.log is ToConsole ==> self.services is Enabled,
        ensures
            r == (self.log is ToConsole && (self.services->Enabled_0.telegram is Enabled
                || self.services->Enabled_0.web is Enabled)),
    {
        if let LoggingOptions::ToConsole = self.log {
            match &self.services {
                ExtendedOption::Enabled(services) => services.telegram.is_enabled()
                    || services.web.is_enabled(),
                _ => vstd::pervasive::unreached(),
            }
        } else {
            false
        }
    }
}

/// The value every configuration field defaults to.
pub open spec fn is_default_config(c: Config) -> bool {
    &&& c.log == LoggingOptions::ToConsole
    &&& c.tokio_threads == 0i16
    &&& c.ui == ExtendedOption::Enabled(UiOptions::Console(Jobs::Daemon))
    &&& c.services is Enabled
    &&& {
        let s = c.services->Enabled_0;
        &&& s.telegram is Enabled
        &&& {
            let t = s.telegram->Enabled_0;
            &&& t.token@ == "<<Open TelegramApp, search for BotFather, send /newbot>>"@
            &&& t.bot == TelegramBotOptions::Stateless
            &&& t.notification_chat_ids@ == seq![9999999999i64, 9999999999i64]
        }
        &&& s.web is Enabled
        &&& {
            let w = s.web->Enabled_0;
            &&& w.profile == RocketProfiles::Debug
            &&& w.rocket_config == (RocketConfigOptions::Provided { http_port: 8000u16, workers: 1u16 })
            &&& !w.sanity_check_routes
            &&& !w.stats_routes
            &&& !w.logs_following_routes
            &&& !w.ogre_events_following_routes
            &&& !w.ogre_events_queue_routes
            &&& w.web_app
            &&& w.routes_prefix@ == ""@
        }
        &&& s.socket_server is Enabled
        &&& {
            let k = s.socket_server->Enabled_0;
            &&& k.interface@ == "0.0.0.0"@
            &&& k.port == 9758u16
            &&& k.workers == 1u16
        }
    }
}

impl Default for Config {
    /// The configuration written for a fresh installation: console logging,
    /// every service enabled with its standard settings, the console front
    /// end running the daemon job.
    fn default() -> (c: Self)
        ensures
            is_default_config(c),
    {
        let mut chat_ids: Vec<i64> = Vec::new();
        chat_ids.push(9999999999);
        chat_ids.push(9999999999);
        proof {
            assert(chat_ids@ =~= seq![9999999999i64, 9999999999i64]);
        }
        Config {
            log: LoggingOptions::ToConsole,
            services: ExtendedOption::Enabled(
                ServicesConfig {
                    web: ExtendedOption::Enabled(
                        WebConfig {
                            profile: RocketProfiles::Debug,
                            rocket_config: RocketConfigOptions::Provided {
                                http_port: 8000,
                                workers: 1,
                            },
                            sanity_check_routes: false,
                            stats_routes: false,
                            logs_following_routes: false,
                            ogre_events_following_routes: false,
                            ogre_events_queue_routes: false,
                            web_app: true,
                            routes_prefix: "".to_owned(),
                        },
                    ),
                    socket_server: ExtendedOption::Enabled(
                        SocketServerConfig {
                            interface: "0.0.0.0".to_owned(),
                            port: 9758,
                            workers: 1,
                        },
                    ),
                    telegram: ExtendedOption::Enabled(
                        TelegramConfig {
                            token: "<<Open TelegramApp, search for BotFather, send /newbot>>"
                                .to_owned(),
                            bot: TelegramBotOptions::Stateless,
                            notification_chat_ids: chat_ids,
                        },
                    ),
                },
            ),
            tokio_threads: 0,
            ui: ExtendedOption::Enabled(UiOptions::Console(Jobs::Daemon)),
        }
    }
}

/// A services section with nothing decided yet.
pub open spec fn empty_services() -> ServicesConfig {
    ServicesConfig {
        web: ExtendedOption::Unset,
        socket_server: ExtendedOption::Unset,
        telegram: ExtendedOption::Unset,
    }
}

/// The services section a configuration effectively holds: its own when
/// enabled, an empty one otherwise.
pub open spec fn effective_services(c: ExtendedOption<ServicesConfig>) -> ServicesConfig {
    match c {
        ExtendedOption::Enabled(s) => s,
        _ => empty_services(),
    }
}

/// Per-service merge: each service currently comes from the low-priority
/// side when given there, from the high-priority side otherwise.
pub open spec fn merged_services(low: ServicesConfig, high: ServicesConfig) -> ServicesConfig {
    ServicesConfig {
        web: if low.web is Enabled {
            low.web
        } else {
            high.web
        },
        socket_server: if low.socket_server is Enabled {
            low.socket_server
        } else {
            high.socket_server
        },
        telegram: if low.telegram is Enabled {
            low.telegram
        } else {
            high.telegram
        },
    }
}

/// Merges two configurations, the second taking priority: the high-priority
/// logging and — when set — front end win; the services section is merged
/// per service (each currently only definable on the low-priority side); the
/// scheduler thread count takes the first positive value, high priority
/// first, and `0` (one thread per CPU) when neither side sets one.
pub fn merge_configs(low_priority: Config, high_priority: Config) -> (merged: Config)
    ensures
        merged.log == high_priority.log,
        merged.ui == (if high_priority.ui is Enabled {
            high_priority.ui
        } else {
            low_priority.ui
        }),
        merged.tokio_threads == (if high_priority.tokio_threads > 0 {
            high_priority.tokio_threads
        } else if low_priority.tokio_threads > 0 {
            low_priority.tokio_threads
        } else {
            0i16
        }),
        merged.services == ExtendedOption::Enabled(
            merged_services(
                effective_services(low_priority.services),
                effective_services(high_priority.services),
            ),
        ),
{
    let low_services = match low_priority.services {
        ExtendedOption::Enabled(s) => s,
        _ => ServicesConfig {
            web: ExtendedOption::Unset,
            socket_server: ExtendedOption::Unset,
            telegram: ExtendedOption::Unset,
        },
    };
    let high_services = match high_priority.services {
        ExtendedOption::Enabled(s) => s,
        _ => ServicesConfig {
            web: ExtendedOption::Unset,
            socket_server: ExtendedOption::Unset,
            telegram: ExtendedOption::Unset,
        },
    };
    let services = ServicesConfig {
        web: if low_services.web.is_enabled() {
            low_services.web
        } else {
            high_services.web
        },
        socket_server: if low_services.socket_server.is_enabled() {
            low_services.socket_server
        } else {
            high_services.socket_server
        },
        telegram: if low_services.telegram.is_enabled() {
            low_services.telegram
        } else {
            high_services.telegram
        },
    };
    let tokio_threads = if high_priority.tokio_threads > 0 {
        high_priority.tokio_threads
    } else if low_priority.tokio_threads > 0 {
        low_priority.tokio_threads
    } else {
        0
    };
    let ui = if high_priority.ui.is_enabled() {
        high_priority.ui
    } else {
        low_priority.ui
    };
    Config { log: high_priority.log, services: ExtendedOption::Enabled(services), tokio_threads, ui }
}

} // verus!
