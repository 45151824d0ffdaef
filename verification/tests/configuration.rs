//! Configuration resolution: documented defaults and numeric parsing.

use suricata_agent::config::{env_u64_or, resolve_interface, resolve_rules_location};

#[test]
fn rules_location_defaults() {
    let loc = resolve_rules_location(None, None);
    assert_eq!(loc.rules_dir, "/var/lib/suricata/rules");
    assert_eq!(loc.rules_filename, "custom.rules");
}

#[test]
fn rules_location_overrides() {
    let loc = resolve_rules_location(
        Some("/etc/suricata/rules".to_string()),
        Some("local.rules".to_string()),
    );
    assert_eq!(loc.rules_dir, "/etc/suricata/rules");
    assert_eq!(loc.rules_filename, "local.rules");
}

#[test]
fn interface_defaults_to_eth0() {
    assert_eq!(resolve_interface(None), "eth0");
    assert_eq!(resolve_interface(Some("wlan0".to_string())), "wlan0");
}

#[test]
fn numeric_parameters_parse_or_fall_back() {
    assert_eq!(env_u64_or(None, 30), 30);
    assert_eq!(env_u64_or(Some(&"5".to_string()), 30), 5);
    assert_eq!(env_u64_or(Some(&"+7".to_string()), 30), 7);
    assert_eq!(env_u64_or(Some(&"007".to_string()), 30), 7);
    assert_eq!(env_u64_or(Some(&"abc".to_string()), 30), 30);
    assert_eq!(env_u64_or(Some(&"".to_string()), 30), 30);
    assert_eq!(env_u64_or(Some(&"-1".to_string()), 30), 30);
    assert_eq!(env_u64_or(Some(&"18446744073709551615".to_string()), 30), u64::MAX);
    assert_eq!(env_u64_or(Some(&"18446744073709551616".to_string()), 30), 30);
}
