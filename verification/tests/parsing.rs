use reachability_assistant::cli::{Cli, Command};
use reachability_assistant::inspect::{
    first_non_empty_line, has_ufw_allow_rule, has_upnp_mapping, inspection_command, is_ipv4,
    is_private_ipv4, line_allows, line_maps_port_to, matches_any_hint, parse_external_ip, parse_default_gateway,
    parse_firewall_status, parse_lan_ip, parse_port_check, parse_public_ip, parse_router_status,
};
use reachability_assistant::profile::load_profile;
use reachability_assistant::system::CommandOutput;
use reachability_assistant::text::{fields_of, lines_of, parse_u8, parses_as_u8_exec, trim_exec, words_of};

fn ok(stdout: &str) -> CommandOutput {
    CommandOutput { success: true, stdout: stdout.to_string(), stderr: String::new() }
}

fn err(stderr: &str) -> CommandOutput {
    CommandOutput { success: false, stdout: String::new(), stderr: stderr.to_string() }
}

fn chars(s: &str) -> Vec<char> {
    s.chars().collect()
}

fn texts(v: &[Vec<char>]) -> Vec<String> {
    v.iter().map(|t| t.iter().collect()).collect()
}

fn args(list: &[&str]) -> Vec<String> {
    list.iter().map(|s| s.to_string()).collect()
}

#[test]
fn lines_follow_str_lines() {
    for sample in ["", "a", "a\n", "a\r\nb", "\n\nx\r", "one\ntwo\r\n\r\nthree\n"] {
        let expected: Vec<String> = sample.lines().map(|l| l.to_string()).collect();
        assert_eq!(texts(&lines_of(&chars(sample))), expected, "{sample:?}");
    }
}

#[test]
fn words_fields_and_trim_follow_std() {
    for sample in ["", "  a  b\tc\u{3000}d ", "x", "\u{a0}\u{2003}"] {
        let expected: Vec<String> = sample.split_whitespace().map(|w| w.to_string()).collect();
        assert_eq!(texts(&words_of(&chars(sample))), expected, "{sample:?}");
        let trimmed: String = trim_exec(&chars(sample)).iter().collect();
        assert_eq!(trimmed, sample.trim());
    }
    for sample in ["", "1.2.3.4", "..", "a.b."] {
        let expected: Vec<String> = sample.split('.').map(|w| w.to_string()).collect();
        assert_eq!(texts(&fields_of(&chars(sample), '.')), expected, "{sample:?}");
    }
}

#[test]
fn u8_text_follows_u8_from_str() {
    for sample in ["0", "255", "256", "+7", "+", "-1", "", "007", "12a", "1000", "+255", "++1"] {
        assert_eq!(parses_as_u8_exec(&chars(sample)), sample.parse::<u8>().is_ok(), "{sample:?}");
        assert_eq!(parse_u8(&chars(sample)), sample.parse::<u8>().ok(), "{sample:?}");
    }
}

#[test]
fn ipv4_recognition() {
    assert!(is_ipv4(&chars("192.168.1.50")));
    assert!(is_ipv4(&chars("+1.02.3.255")));
    assert!(!is_ipv4(&chars("256.1.1.1")));
    assert!(!is_ipv4(&chars("1.2.3")));
    assert!(!is_ipv4(&chars("1..2.3")));
    assert!(!is_ipv4(&chars("fe80::1")));
}

#[test]
fn private_ranges_are_the_private_and_carrier_grade_nat_blocks() {
    assert!(is_private_ipv4(&chars("10.0.0.1")));
    assert!(is_private_ipv4(&chars("100.64.1.9")));
    assert!(is_private_ipv4(&chars("100.100.0.1")));
    assert!(is_private_ipv4(&chars("100.127.255.255")));
    assert!(!is_private_ipv4(&chars("100.128.0.1")));
    assert!(!is_private_ipv4(&chars("100.63.0.1")));
    assert!(is_private_ipv4(&chars("172.16.0.1")));
    assert!(is_private_ipv4(&chars("172.20.0.1")));
    assert!(is_private_ipv4(&chars("172.31.0.1")));
    assert!(!is_private_ipv4(&chars("172.2.0.1")));
    assert!(!is_private_ipv4(&chars("172.200.1.1")));
    assert!(!is_private_ipv4(&chars("172.15.0.1")));
    assert!(!is_private_ipv4(&chars("172.32.0.1")));
    assert!(is_private_ipv4(&chars("192.168.0.1")));
    assert!(!is_private_ipv4(&chars("192.169.0.1")));
    assert!(!is_private_ipv4(&chars("41.190.2.4")));
    assert!(!is_private_ipv4(&chars("10.0.0")));
    assert!(!is_private_ipv4(&chars("010.0.0.1")));
    assert!(!is_private_ipv4(&chars("+10.0.0.1")));
    assert!(!is_private_ipv4(&chars("172.016.0.1")));
    assert!(!is_private_ipv4(&chars("192.+168.0.1")));
    assert!(is_private_ipv4(&chars("10.+5.0.1")));
    assert!(is_private_ipv4(&chars("10.0.0.0")));
}

#[test]
fn lan_ip_is_the_first_ipv4_word() {
    assert_eq!(parse_lan_ip(&ok("fe80::1 192.168.1.5 10.0.0.2")), Some("192.168.1.5".to_string()));
    assert_eq!(parse_lan_ip(&ok("fe80::1")), None);
    assert_eq!(parse_lan_ip(&err("boom")), None);
}

#[test]
fn public_ip_is_the_first_filled_line_when_it_is_ipv4() {
    assert_eq!(parse_public_ip(&ok("\n   \n  41.1.1.1  \nx")), Some("41.1.1.1".to_string()));
    assert_eq!(parse_public_ip(&ok("<html>\n41.1.1.1")), None);
    assert_eq!(parse_public_ip(&err("offline")), None);
    let line: Option<String> = first_non_empty_line(&chars(" \n\t a b \n")).map(|l| l.iter().collect());
    assert_eq!(line, Some("a b".to_string()));
}

#[test]
fn default_gateway_is_read_from_the_first_default_route() {
    assert_eq!(
        parse_default_gateway("10.0.0.0/8 dev eth1\ndefault via 192.168.1.1 dev eth0\n"),
        Some("192.168.1.1".to_string())
    );
    assert_eq!(parse_default_gateway("default dev wg0\ndefault via 10.0.0.1 dev eth0"), None);
    assert_eq!(parse_default_gateway("no routes"), None);
    assert_eq!(parse_default_gateway("default via"), None);
}

#[test]
fn port_check_details() {
    let hints = vec!["subspace", "space-acres", "farmer", "node"];
    let check = parse_port_check(30333, "tcp", &hints, &ok("LISTEN 0 0 *:22 *:*"));
    assert!(!check.listening);
    assert_eq!(check.details, "Nothing is listening on TCP port 30333.");
    let check = parse_port_check(30333, "tcp", &hints, &err("ss: not found"));
    assert_eq!(check.details, "Could not inspect listening sockets with ss: ss: not found");
    let check = parse_port_check(
        30333,
        "tcp",
        &hints,
        &ok("LISTEN a:30333 users:((\"SUBSPACE-NODE\"))\nother\nLISTEN b:30333 users:((\"Farmer\"))"),
    );
    assert!(check.listening);
    assert!(!check.occupied_by_other_process);
    assert_eq!(
        check.details,
        "Found listener entries: LISTEN a:30333 users:((\"SUBSPACE-NODE\")) | LISTEN b:30333 users:((\"Farmer\"))"
    );
    let check = parse_port_check(30333, "tcp", &hints, &ok("LISTEN a:30333 users:((\"nginx\"))"));
    assert!(check.occupied_by_other_process);
}

#[test]
fn hint_and_rule_matching_on_lowered_text() {
    assert!(matches_any_hint(&chars("users:((\"subspace-node\"))"), &vec![chars("node")]));
    assert!(!matches_any_hint(&chars("users:((\"nginx\"))"), &vec![chars("node"), chars("farmer")]));
    assert!(line_allows(&chars("30333/tcp allow anywhere"), &chars("30333/tcp")));
    assert!(!line_allows(&chars("30333/tcp deny anywhere"), &chars("30333/tcp")));
    let lan = chars("192.168.1.50");
    let tcp = chars("tcp");
    assert!(line_maps_port_to(&chars(" 0 tcp 30333->192.168.1.50:30333 'x'"), 30333, &tcp, &lan));
    assert!(!line_maps_port_to(&chars(" 0 tcp 30333->192.168.1.99:30333 'x'"), 30333, &tcp, &lan));
    assert!(!line_maps_port_to(&chars(" 0 tcp 30333->192.168.1.500:30333 'x'"), 30333, &tcp, &lan));
    assert!(!line_maps_port_to(&chars("tcp x 30333 y"), 30333, &tcp, &lan));
    assert!(!line_maps_port_to(&chars("known candidate ports: 30333, 30433"), 30333, &tcp, &lan));
    assert!(!line_maps_port_to(&chars("udp 30333->192.168.1.50:30333"), 30333, &tcp, &lan));
}

#[test]
fn ufw_rules_are_matched_without_regard_to_case() {
    let lines = vec![chars("30333/TCP ALLOW Anywhere"), chars("30433/tcp DENY Anywhere")];
    assert!(has_ufw_allow_rule(&lines, 30333, "tcp"));
    assert!(!has_ufw_allow_rule(&lines, 30433, "tcp"));
    let mappings = vec![chars(" 0 TCP 30333->192.168.1.50:30333 'space-acres'")];
    let lan = chars("192.168.1.50");
    assert!(has_upnp_mapping(&mappings, 30333, "tcp", &lan));
    assert!(has_upnp_mapping(&mappings, 30333, "TCP", &lan));
    assert!(!has_upnp_mapping(&mappings, 30433, "tcp", &lan));
    assert!(!has_upnp_mapping(&mappings, 30333, "tcp", &chars("192.168.1.5")));
}

#[test]
fn firewall_status_fields() {
    let profile = load_profile("space-acres").unwrap();
    let status = parse_firewall_status(&profile, "linux", &ok("Status: inactive"));
    assert!(status.supported);
    assert!(status.ufw_installed);
    assert!(!status.ufw_active);
    assert!(!status.required_ports_allowed);
    assert_eq!(status.details, "Checked current UFW rules against the Space Acres ports.");
    let status = parse_firewall_status(&profile, "macos", &err("ufw: command not found"));
    assert!(!status.supported);
    assert!(!status.ufw_installed);
    assert_eq!(status.details, "Could not read UFW status: ufw: command not found");
}

#[test]
fn router_status_fields() {
    let profile = load_profile("space-acres").unwrap();
    let lan = Some("10.0.0.7".to_string());
    let output = ok("ExternalIPAddress = 41.190.2.4\n 0 TCP 30333->10.0.0.7:30333 x\n 1 TCP 30433->10.0.0.7:30433 x");
    let status = parse_router_status(&profile, &lan, &output);
    assert!(status.available && status.success && !status.attempted);
    assert_eq!(status.backend, "upnp_igd");
    assert_eq!(status.external_ip, Some("41.190.2.4".to_string()));
    assert_eq!(
        status.details,
        "Detected a reachable UPnP IGD backend and found both required Space Acres mappings."
    );
    let status = parse_router_status(&profile, &None, &output);
    assert!(status.available && !status.success);
    let status = parse_router_status(&profile, &Some("10.0.0.8".to_string()), &output);
    assert!(!status.success);
    assert_eq!(
        status.details,
        "Detected a reachable UPnP IGD backend, but both Space Acres mappings are not there yet."
    );
    let status = parse_router_status(&profile, &lan, &err("No IGD"));
    assert!(!status.available);
    assert_eq!(status.details, "UPnP IGD backend is not available: No IGD");
}

#[test]
fn inspection_runs_six_read_only_commands() {
    let keys: Vec<String> = (0..6)
        .map(|k| {
            let r = inspection_command(k);
            format!("{} {}", r.program, r.args.join(" "))
        })
        .collect();
    assert_eq!(
        keys,
        vec!["ss -ltnp", "ufw status", "hostname -I", "ip route", "curl -fsSL https://api.ipify.org", "upnpc -l"]
    );
}

#[test]
fn unknown_profile_is_refused() {
    assert_eq!(
        load_profile("farmer").err(),
        Some("Unsupported profile 'farmer'. MVP currently supports only 'space-acres'.".to_string())
    );
    let profile = load_profile("space-acres").unwrap();
    assert_eq!(profile.display_name, "Space Acres");
    assert_eq!(profile.required_ports.len(), 2);
    assert_eq!(profile.required_ports[1].port, 30433);
}

#[test]
fn command_line_parsing() {
    match Cli::parse(&args(&["report", "--json"])).unwrap().command {
        Command::Report(a) => {
            assert!(a.json);
            assert_eq!(a.role.profile, "space-acres");
        }
        _ => panic!("expected report"),
    }
    match Cli::parse(&args(&["apply", "--profile", "custom"])).unwrap().command {
        Command::Apply(a) => assert_eq!(a.role.profile, "custom"),
        _ => panic!("expected apply"),
    }
    match Cli::parse(&args(&["inspect"])).unwrap().command {
        Command::Inspect(a) => assert_eq!(a.profile, "space-acres"),
        _ => panic!("expected inspect"),
    }
    let missing = Cli::parse(&args(&[])).err().unwrap();
    assert!(missing.starts_with("Missing command. Expected one of: inspect, apply, renew, report\n\nUsage:\n"));
    let no_value = Cli::parse(&args(&["inspect", "--profile"])).err().unwrap();
    assert!(no_value.starts_with("Expected a value after --profile\n\nUsage:"));
    assert_eq!(Cli::parse(&args(&["-V"])).err().unwrap(), "reachability-assistant-mvp 0.1.0");
    let help = Cli::parse(&args(&["--help"])).err().unwrap();
    assert!(help.starts_with("Usage:\n  reachability-assistant inspect"));
    assert!(help.ends_with("  - One router automation backend\n"));
    assert!(help.contains("  reachability-assistant renew [--profile space-acres] [--previous-lan-ip IP] [--previous-gateway IP]\n"));
    let unknown = Cli::parse(&args(&["refresh"])).err().unwrap();
    assert!(unknown.starts_with("Unknown command. Expected one of: inspect, apply, renew, report"));
}

#[test]
fn renew_command_carries_the_previous_values() {
    let parsed = Cli::parse(&args(&[
        "renew",
        "--profile",
        "space-acres",
        "--previous-lan-ip",
        "192.168.1.50",
        "--previous-gateway",
        "192.168.1.1",
    ]));
    match parsed.unwrap().command {
        Command::Renew(a) => {
            assert_eq!(a.role.profile, "space-acres");
            assert_eq!(a.previous_lan_ip, Some("192.168.1.50".to_string()));
            assert_eq!(a.previous_gateway, Some("192.168.1.1".to_string()));
        }
        _ => panic!("expected renew"),
    }
    match Cli::parse(&args(&["renew"])).unwrap().command {
        Command::Renew(a) => {
            assert_eq!(a.role.profile, "space-acres");
            assert_eq!(a.previous_lan_ip, None);
            assert_eq!(a.previous_gateway, None);
        }
        _ => panic!("expected renew"),
    }
    let missing = Cli::parse(&args(&["renew", "--previous-gateway"])).err().unwrap();
    assert!(missing.starts_with("Expected a value after --previous-gateway\n\n"));
}

#[test]
fn external_address_is_read_from_the_router_listing() {
    let lines = vec![chars("found device"), chars("ExternalIPAddress = 41.190.2.4"), chars("ExternalIPAddress = 1.1.1.1")];
    assert_eq!(parse_external_ip(&lines), Some("41.190.2.4".to_string()));
    assert_eq!(parse_external_ip(&vec![chars("ExternalIPAddress = unknown")]), None);
    assert_eq!(parse_external_ip(&vec![chars("no address")]), None);
}
