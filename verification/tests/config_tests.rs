//! Configuration model behaviour: defaults, merging, console sharing.

use kickass_app_template::config::{
    merge_configs, Config, ExtendedOption, Jobs, LoggingOptions, RocketConfigOptions,
    RocketProfiles, ServicesConfig, SocketServerConfig, TelegramBotOptions, TelegramConfig,
    UiOptions, WebConfig,
};

/// Assures merging addresses all cases.
#[test]
fn merging_completenes() {
    // checks high priority is honored
    let low = Config {
        log: LoggingOptions::Quiet,
        services: ExtendedOption::Unset,
        tokio_threads: 0,
        ui: ExtendedOption::Unset,
    };
    let high = Config::default();
    let expected = Config::default();
    let merged = merge_configs(low, high);
    assert_eq!(
        merged, expected,
        "'merge_configs() seem to not be covering newly added configs well: High priority config got (wrongly?) overridden by low priority"
    );

    // checks low priority has its voice
    let low = Config::default();
    let high = Config {
        log: LoggingOptions::ToConsole,
        services: ExtendedOption::Unset,
        tokio_threads: 0,
        ui: ExtendedOption::Unset,
    };
    let expected = Config::default();
    let merged = merge_configs(low, high);
    assert_eq!(
        merged, expected,
        "'merge_configs() seem to not be covering newly added configs well: Low priority config wasn't able to set unset properties in the high priority"
    );
}

#[test]
fn default_config_values() {
    let c = Config::default();
    assert_eq!(c.log, LoggingOptions::ToConsole);
    assert_eq!(c.tokio_threads, 0);
    assert_eq!(c.ui, ExtendedOption::Enabled(UiOptions::Console(Jobs::Daemon)));
    let services = match c.services {
        ExtendedOption::Enabled(s) => s,
        other => panic!("services must default to enabled, got {:?}", other),
    };
    assert_eq!(
        services.socket_server,
        ExtendedOption::Enabled(SocketServerConfig {
            interface: "0.0.0.0".to_string(),
            port: 9758,
            workers: 1,
        })
    );
    assert_eq!(
        services.web,
        ExtendedOption::Enabled(WebConfig {
            profile: RocketProfiles::Debug,
            rocket_config: RocketConfigOptions::Provided { http_port: 8000, workers: 1 },
            sanity_check_routes: false,
            stats_routes: false,
            logs_following_routes: false,
            ogre_events_following_routes: false,
            ogre_events_queue_routes: false,
            web_app: true,
            routes_prefix: "".to_string(),
        })
    );
    assert_eq!(
        services.telegram,
        ExtendedOption::Enabled(TelegramConfig {
            token: "<<Open TelegramApp, search for BotFather, send /newbot>>".to_string(),
            bot: TelegramBotOptions::Stateless,
            notification_chat_ids: vec![9999999999, 9999999999],
        })
    );
}

#[test]
fn merge_takes_first_positive_thread_count() {
    let mut low = Config::default();
    let mut high = Config::default();
    low.tokio_threads = 4;
    high.tokio_threads = -1;
    assert_eq!(merge_configs(low, high).tokio_threads, 4);

    let mut low = Config::default();
    let mut high = Config::default();
    low.tokio_threads = 4;
    high.tokio_threads = 8;
    assert_eq!(merge_configs(low, high).tokio_threads, 8);

    let mut low = Config::default();
    let mut high = Config::default();
    low.tokio_threads = -3;
    high.tokio_threads = 0;
    assert_eq!(merge_configs(low, high).tokio_threads, 0);
}

#[test]
fn merge_keeps_high_priority_logging() {
    let mut low = Config::default();
    low.log = LoggingOptions::ToFile {
        file_path: "/tmp/app.log".to_string(),
        rotation_size: 1024,
        rotations_kept: 4,
        compress_rotated: false,
    };
    let mut high = Config::default();
    high.log = LoggingOptions::Quiet;
    assert_eq!(merge_configs(low, high).log, LoggingOptions::Quiet);
}

#[test]
fn extended_option_enabledness() {
    assert!(ExtendedOption::Enabled(1u8).is_enabled());
    assert!(!ExtendedOption::<u8>::Disabled.is_enabled());
    assert!(!ExtendedOption::<u8>::Unset.is_enabled());
}

#[test]
fn console_sharing_depends_on_logging_and_services() {
    let shared = Config::default();
    assert!(shared.is_console_output_shared(), "console logging with services enabled");

    let mut quiet = Config::default();
    quiet.log = LoggingOptions::Quiet;
    assert!(!quiet.is_console_output_shared());

    let lonely = Config {
        log: LoggingOptions::ToConsole,
        services: ExtendedOption::Enabled(ServicesConfig {
            web: ExtendedOption::Unset,
            socket_server: ExtendedOption::Enabled(SocketServerConfig {
                interface: "0.0.0.0".to_string(),
                port: 9758,
                workers: 1,
            }),
            telegram: ExtendedOption::Disabled,
        }),
        tokio_threads: 0,
        ui: ExtendedOption::Unset,
    };
    assert!(
        !lonely.is_console_output_shared(),
        "the socket server alone does not share the console"
    );
}
