//! The configuration checks that come before anything on the system is touched:
//! a bad flag has to be reported as a bad flag rather than as whatever fails
//! next.

use conntrack_exporter::config::{ConfigError, ExportOptions};
use conntrack_exporter::export::elements::{DEFAULT_TEMPLATE_ID, DEFAULT_TEMPLATE_INTERVAL_SECS};
use conntrack_exporter::export::template::{CounterWidthError, TemplateError};
use conntrack_exporter::export::{CounterWidth, Profile, Protocol};
use conntrack_exporter::netlink::constants::{DEFAULT_RECV_BUF_SIZE, DEFAULT_SEND_BUF_SIZE};
use conntrack_exporter::startup::{StartupOptions, StartupStep};

/// What an operator gets without any flags but the collector.
fn defaults() -> ExportOptions {
    ExportOptions {
        protocol: Protocol::Ipfix,
        profile: Profile::Full,
        counter_width: 8,
        template_id: DEFAULT_TEMPLATE_ID,
        template_interval: DEFAULT_TEMPLATE_INTERVAL_SECS,
    }
}

/// Check options that are invalid, and return what the operator sees.
fn expect_refused(options: ExportOptions) -> String {
    match options.validate() {
        Ok(_) => panic!("{options:?} was accepted"),
        Err(error) => error.to_string(),
    }
}

#[test]
fn a_counter_width_other_than_four_or_eight_is_refused() {
    for width in ["0", "1", "2", "3", "5", "6", "7", "9", "16", "255"] {
        let stderr = expect_refused(ExportOptions {
            counter_width: width.parse().unwrap(),
            ..defaults()
        });
        assert!(
            stderr.contains("counter width must be 4 or 8"),
            "width {width} was refused unhelpfully: {stderr}"
        );
    }
}

/// Template IDs below 256 collide with the set / FlowSet identifiers.
#[test]
fn a_template_id_below_the_reserved_range_is_refused() {
    for id in ["0", "1", "2", "255"] {
        let stderr = expect_refused(ExportOptions {
            template_id: id.parse().unwrap(),
            ..defaults()
        });
        assert!(
            stderr.contains("template ID must be at least 256"),
            "template id {id} was refused unhelpfully: {stderr}"
        );
    }
}

/// A zero interval would retransmit the template on every pass of the loop.
#[test]
fn a_zero_template_interval_is_refused() {
    let stderr = expect_refused(ExportOptions {
        template_interval: 0,
        ..defaults()
    });
    assert!(
        stderr.contains("--template-interval must be at least 1 second"),
        "unhelpful error: {stderr}"
    );
}

/// What is asked for with some export settings and no other flags.
fn startup(export: ExportOptions) -> StartupOptions {
    StartupOptions {
        export,
        no_sysctl: false,
        recv_buf: DEFAULT_RECV_BUF_SIZE,
        send_buf: DEFAULT_SEND_BUF_SIZE,
    }
}

/// What is done to the system, by name.
fn described(steps: &[StartupStep]) -> Vec<String> {
    steps
        .iter()
        .map(|step| match step {
            StartupStep::Sysctl(setting) => format!("sysctl {}={}", setting.path, setting.value),
            StartupStep::Signals => "signals".to_string(),
            StartupStep::Collector(send_buf) => format!("collector {send_buf}"),
            StartupStep::Events(recv_buf) => format!("netlink {recv_buf}"),
        })
        .collect()
}

/// The configuration is validated before the exporter touches the sysctls or
/// opens a socket, so a bad flag is reported as a bad flag. If this regressed,
/// there would be steps to take in place of the message below.
#[test]
fn configuration_is_validated_before_the_system_is_touched() {
    let refused = StartupOptions {
        // This would come first if the order were wrong.
        recv_buf: 999_999_999_999,
        ..startup(ExportOptions {
            counter_width: 5,
            ..defaults()
        })
    };
    let stderr = match refused.plan() {
        Ok(plan) => described(&plan.steps).join("\n"),
        Err(error) => error.to_string(),
    };

    assert!(stderr.contains("counter width must be 4 or 8"), "{stderr}");
    assert!(
        !stderr.contains("sysctl") && !stderr.contains("netlink"),
        "the system was touched before the flags were checked: {stderr}"
    );

    // The same with a width that is accepted reaches the sysctls and the socket.
    let accepted = StartupOptions {
        export: defaults(),
        ..refused
    };
    let steps = described(&accepted.plan().unwrap().steps).join("\n");
    assert!(steps.contains("sysctl") && steps.contains("netlink 2147483647"), "{steps}");
}

#[test]
fn the_system_is_set_up_in_a_fixed_order() {
    let plan = startup(defaults()).plan().unwrap();
    assert_eq!(
        described(&plan.steps),
        [
            "sysctl /proc/sys/net/netfilter/nf_conntrack_acct=1".to_string(),
            "sysctl /proc/sys/net/netfilter/nf_conntrack_events=1".to_string(),
            "signals".to_string(),
            format!("collector {DEFAULT_SEND_BUF_SIZE}"),
            format!("netlink {DEFAULT_RECV_BUF_SIZE}"),
        ]
    );
    assert_eq!(plan.settings.template.record_size, 58);

    let alone = StartupOptions {
        no_sysctl: true,
        recv_buf: 1,
        send_buf: 2,
        ..startup(defaults())
    };
    assert_eq!(
        described(&alone.plan().unwrap().steps),
        ["signals", "collector 2", "netlink 1"]
    );
}

#[test]
fn the_defaults_are_accepted() {
    let settings = defaults().validate().unwrap();
    assert_eq!(settings.template_interval, 30);
    assert_eq!(settings.template.template_id, 256);
    assert_eq!(settings.template.record_size, 58);
    assert_eq!(settings.template.counter_width, CounterWidth::Eight);
}

#[test]
fn four_byte_counters_can_be_asked_for() {
    let settings = ExportOptions {
        protocol: Protocol::Netflow9,
        profile: Profile::FlowOnly,
        counter_width: 4,
        template_id: 300,
        template_interval: 1,
    }
    .validate()
    .unwrap();
    assert_eq!(settings.template.record_size, 29);
    assert_eq!(settings.template.protocol, Protocol::Netflow9);
    assert_eq!(settings.template.template_id, 300);
    assert_eq!(settings.template_interval, 1);
}

#[test]
fn the_first_bad_setting_is_the_one_reported() {
    let all_bad = ExportOptions {
        counter_width: 3,
        template_id: 7,
        template_interval: 0,
        ..defaults()
    };
    assert_eq!(
        all_bad.validate().unwrap_err(),
        ConfigError::CounterWidth(CounterWidthError { bytes: 3 })
    );
    assert_eq!(
        ExportOptions { counter_width: 8, ..all_bad }.validate().unwrap_err(),
        ConfigError::Template(TemplateError::ReservedTemplateId(7))
    );
    assert_eq!(
        ExportOptions { counter_width: 8, template_id: 256, ..all_bad }
            .validate()
            .unwrap_err(),
        ConfigError::TemplateInterval
    );
}

#[test]
fn errors_name_the_value_that_was_refused() {
    assert_eq!(
        ConfigError::CounterWidth(CounterWidthError { bytes: 16 }).to_string(),
        "counter width must be 4 or 8 bytes, got 16"
    );
    assert_eq!(
        ConfigError::Template(TemplateError::ReservedTemplateId(255)).to_string(),
        "template ID must be at least 256, got 255"
    );
}
