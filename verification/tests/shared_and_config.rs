use brewster::firmware::config::{
    configured_sensors, configured_unsigned, device_hostname, device_hostname_bytes,
    ds18b20_conversion_ms, ds18b20_resolution_bits, env_value, overrides, sensor_blocks,
    ssr_heat_deadband_centi, status_print_every_seconds, status_print_interval_cycles,
    temp_probe_name, udp_server_port,
};
use brewster::firmware::shared::{
    contains_address, crc8_maxim, days_to_ymd, normalized_dhcp_hostname, ntp_config_peers_from,
    parse_ipv4_octets, should_replace_master, unix_to_iso8601, NtpSelectionSample, NtpSource,
};

#[test]
fn ntp_sources_have_codes_and_names() {
    for source in [NtpSource::Unknown, NtpSource::Config, NtpSource::DhcpGateway] {
        assert_eq!(NtpSource::from_u8(source.code()), source);
    }
    assert_eq!(NtpSource::from_u8(9), NtpSource::Unknown);
    assert_eq!(NtpSource::Config.label(), "config");
    assert_eq!(NtpSource::DhcpGateway.label(), "dhcp_gateway");
    assert_eq!(NtpSource::Unknown.label(), "unknown");
}

#[test]
fn addresses_are_read() {
    assert_eq!(parse_ipv4_octets("192.168.1.50"), Some([192, 168, 1, 50]));
    assert_eq!(parse_ipv4_octets("0.0.0.0"), Some([0, 0, 0, 0]));
    for text in ["", "1.2.3", "1.2.3.4.5", "1.2.3.256", "a.b.c.d", "1..2.3", " 1.2.3.4", "1.2.3.4/24"] {
        assert_eq!(parse_ipv4_octets(text), None, "{text:?}");
    }
    assert!(contains_address(&[[1, 2, 3, 4], [5, 6, 7, 8]], [5, 6, 7, 8]));
    assert!(!contains_address(&[[1, 2, 3, 4]], [1, 2, 3, 5]));
}

#[test]
fn configured_peers_are_distinct_and_at_most_four() {
    let peers = ntp_config_peers_from(
        Some("10.0.0.1, 10.0.0.2,bad,10.0.0.1,10.0.0.3 ,10.0.0.4,10.0.0.5"),
        Some("9.9.9.9"),
    );
    assert_eq!(&peers[..], &[[10, 0, 0, 1], [10, 0, 0, 2], [10, 0, 0, 3], [10, 0, 0, 4]]);
}

#[test]
fn the_single_peer_is_used_where_the_list_gives_none() {
    assert_eq!(&ntp_config_peers_from(Some("bad"), Some("9.9.9.9"))[..], &[[9, 9, 9, 9]]);
    assert_eq!(&ntp_config_peers_from(None, Some("9.9.9.9"))[..], &[[9, 9, 9, 9]]);
    assert!(ntp_config_peers_from(None, Some("x")).is_empty());
    assert!(ntp_config_peers_from(None, None).is_empty());
}

#[test]
fn a_better_sample_takes_over() {
    let sample = |stratum, latency_ms, jitter_ms| NtpSelectionSample { stratum, latency_ms, jitter_ms };
    let current = sample(2, 20, 5);
    assert!(should_replace_master(current, sample(1, 900, 900)));
    assert!(should_replace_master(current, sample(2, 19, 900)));
    assert!(should_replace_master(current, sample(2, 20, 4)));
    assert!(!should_replace_master(current, current));
    assert!(!should_replace_master(current, sample(3, 0, 0)));
    assert!(!should_replace_master(current, sample(2, 21, 0)));
    assert!(!should_replace_master(current, sample(2, 20, 6)));
}

#[test]
fn host_names_are_made_safe() {
    assert_eq!(normalized_dhcp_hostname("My Fridge!").as_str(), "my-fridge");
    assert_eq!(normalized_dhcp_hostname("--a_b--").as_str(), "a-b");
    assert_eq!(normalized_dhcp_hostname("").as_str(), "brewster");
    assert_eq!(normalized_dhcp_hostname("---").as_str(), "brewster");
    let long = "a".repeat(40);
    assert_eq!(normalized_dhcp_hostname(&long).as_str(), "a".repeat(32));
    let safe = normalized_dhcp_hostname("Kegerator 3000");
    assert_eq!(normalized_dhcp_hostname(safe.as_str()), safe);
}

#[test]
fn the_checksum_of_checked_bytes_is_zero() {
    let rom = [0x28, 0xff, 0x64, 0x1e, 0x0f, 0x16, 0x03];
    let crc = crc8_maxim(&rom);
    let mut whole = rom.to_vec();
    whole.push(crc);
    assert_eq!(crc8_maxim(&whole), 0);
    assert_eq!(crc8_maxim(b"123456789"), 0xa1);
    assert_eq!(crc8_maxim(&[]), 0);
}

#[test]
fn days_are_dated() {
    assert_eq!(days_to_ymd(0), (1970, 1, 1));
    assert_eq!(days_to_ymd(59), (1970, 3, 1));
    assert_eq!(days_to_ymd(11016), (2000, 2, 29));
    assert_eq!(days_to_ymd(11017), (2000, 3, 1));
    assert_eq!(days_to_ymd(47540), (2100, 2, 28));
    assert_eq!(days_to_ymd(47541), (2100, 3, 1));
    assert_eq!(days_to_ymd(49709), (2106, 2, 6));
}

#[test]
fn moments_are_written_in_iso_8601() {
    assert_eq!(unix_to_iso8601(0), "1970-01-01T00:00:00Z");
    assert_eq!(unix_to_iso8601(951_827_696), "2000-02-29T12:34:56Z");
    assert_eq!(unix_to_iso8601(1_767_225_599), "2025-12-31T23:59:59Z");
    assert_eq!(unix_to_iso8601(u32::MAX), "2106-02-07T06:28:15Z");
}

#[test]
fn resolution_is_brought_into_range() {
    assert_eq!(ds18b20_resolution_bits(None), 11);
    assert_eq!(ds18b20_resolution_bits(Some("12")), 12);
    assert_eq!(ds18b20_resolution_bits(Some("3")), 9);
    assert_eq!(ds18b20_resolution_bits(Some("99")), 12);
    assert_eq!(ds18b20_resolution_bits(Some("999")), 11);
    assert_eq!(ds18b20_resolution_bits(Some("x")), 11);
    assert_eq!(
        ["9", "10", "11", "12"].map(|b| ds18b20_conversion_ms(Some(b))),
        [94, 188, 375, 750],
    );
}

#[test]
fn configured_values_have_defaults() {
    assert_eq!(configured_unsigned(Some("12"), 11), None);
    assert_eq!(configured_unsigned(Some("11"), 11), Some(11));
    assert_eq!(ssr_heat_deadband_centi(None), 50);
    assert_eq!(ssr_heat_deadband_centi(Some(-1)), 50);
    assert_eq!(ssr_heat_deadband_centi(Some(0)), 0);
    assert_eq!(ssr_heat_deadband_centi(Some(75)), 75);
    assert_eq!(status_print_every_seconds(None), 5);
    assert_eq!(status_print_every_seconds(Some("0")), 5);
    assert_eq!(status_print_every_seconds(Some("30")), 30);
    assert_eq!(status_print_interval_cycles(Some("30")), 30);
    assert_eq!(status_print_interval_cycles(Some("18446744073709551615")), u32::MAX);
    assert_eq!(temp_probe_name(None), "probe-1");
    assert_eq!(temp_probe_name(Some("")), "probe-1");
    assert_eq!(temp_probe_name(Some("beer")), "beer");
    assert_eq!(udp_server_port(None), 47890);
    assert_eq!(udp_server_port(Some("1024")), 47890);
    assert_eq!(udp_server_port(Some("1025")), 1025);
    assert_eq!(udp_server_port(Some("65536")), 47890);
}

#[test]
fn host_names_are_cut_between_characters() {
    assert_eq!(device_hostname(None), "brewster");
    assert_eq!(device_hostname(Some("")), "brewster");
    assert_eq!(device_hostname(Some("aaaaaaaaaabbbbbbbbbbc")), "aaaaaaaaaabbbbbbbbbb");
    assert_eq!(device_hostname(Some("aaaaaaaaaabbbbbbbbbä")), "aaaaaaaaaabbbbbbbbb");
    let bytes = device_hostname_bytes(Some("fridge"));
    assert_eq!(&bytes[..6], b"fridge");
    assert_eq!(bytes[6..], [0u8; 14]);
}

const CONFIG: &str = "\
SSID = \"my net = home\"
# PASSWORD = \"old\"
  PASSWORD=plain text  \r
NTP_SERVERS = \"\"
NTP_SERVERS = \"1.2.3.4\"
NTP_SERVER = \"
SSR_HEAT_DEADBAND = 0.5 # degrees
no setting here
";

#[test]
fn values_are_read_from_the_configuration_file() {
    let value = |key| env_value(CONFIG, key);
    assert_eq!(value("SSID"), Some("my net = home".to_string()));
    assert_eq!(value("PASSWORD"), Some("plain text".to_string()));
    assert_eq!(value("NTP_SERVERS"), Some(String::new()));
    assert_eq!(value("NTP_SERVER"), Some("\"".to_string()));
    assert_eq!(value("SSR_HEAT_DEADBAND"), Some("0.5 # degrees".to_string()));
    assert_eq!(value("DEVICE_HOSTNAME"), None);
    assert_eq!(env_value("", "SSID"), None);
    let found = overrides(CONFIG);
    let keys: Vec<&str> = found.iter().map(|(key, _)| *key).collect();
    assert_eq!(keys, ["SSID", "PASSWORD", "NTP_SERVERS", "NTP_SERVER", "SSR_HEAT_DEADBAND"]);
    assert_eq!(found[1].1, "plain text");
}

fn probes(contents: &str) -> (Vec<(u8, String)>, usize) {
    let (blocks, control) = sensor_blocks(contents);
    (blocks.into_iter().map(|b| (b.pin, b.name)).collect(), control)
}

#[test]
fn probes_are_read_from_the_configuration_file() {
    let text = "pin = 1\n[[sensors]] # first\npin = \"4\"\nname = \"keg # 1\"\n\
                [[sensors]]\npin = 300\nname = \"lost\"\ncontrol = true\n\
                [[sensors]]\npin = 6\nname = tank\ncontrol = TRUE\n[other]\npin = 9\n\
                [[sensors]]\nname = \"room\"\npin = 7\npin = 8\ncontrol = true";
    let (found, control) = probes(text);
    let expected = [(4, "\"keg"), (6, "tank"), (8, "room")];
    assert_eq!(found, expected.map(|(pin, name)| (pin, name.to_string())));
    assert_eq!(control, 1);
    assert_eq!(probes("[[sensors]]\nname = \"a\"\npin = x"), (Vec::new(), 0));
}

#[test]
fn a_device_has_one_to_three_probes() {
    let block = |pin: u8, more: &str| format!("[[sensors]]\npin={pin}\nname=p{pin}\n{more}\n");
    let four = block(1, "") + &block(2, "") + &block(3, "control = false") + &block(4, "control=true");
    let (found, control) = probes(&four);
    assert_eq!(found.iter().map(|(pin, _)| *pin).collect::<Vec<u8>>(), [1, 2, 3]);
    assert_eq!(control, 0);
    let (sensors, control) = configured_sensors("");
    assert_eq!((sensors.len(), sensors[0].pin, sensors[0].name.as_str()), (1, 5, "probe-1"));
    assert_eq!(control, 0);
    let (sensors, control) = configured_sensors(&(block(1, "") + &block(2, "control = true")));
    assert_eq!((sensors.len(), control), (2, 1));
}
