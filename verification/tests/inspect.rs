use reachability_assistant::inspect::{inspect, parse_firewall_status, parse_router_status};
use reachability_assistant::model::{Classification, InspectionReport};
use reachability_assistant::profile::{load_profile, Profile};
use reachability_assistant::system::{CommandOutput, CommandRequest, Step};
use std::collections::HashMap;

fn ok(stdout: &str) -> CommandOutput {
    CommandOutput {
        success: true,
        stdout: stdout.to_string(),
        stderr: String::new(),
    }
}

fn err(stderr: &str) -> CommandOutput {
    CommandOutput {
        success: false,
        stdout: String::new(),
        stderr: stderr.to_string(),
    }
}

fn key_of(request: &CommandRequest) -> String {
    format!("{} {}", request.program, request.args.join(" "))
}

fn inspect_with_fixtures(profile: &Profile, outputs: HashMap<String, CommandOutput>) -> InspectionReport {
    let mut seen = Vec::new();
    loop {
        match inspect(profile, "linux", &seen) {
            Step::Run(request) => {
                let key = key_of(&request);
                let output = outputs
                    .get(&key)
                    .cloned()
                    .unwrap_or_else(|| err(&format!("missing fixture for {key}")));
                seen.push(output);
            }
            Step::Done(report) => return report,
        }
    }
}

#[test]
fn classifies_missing_listener_when_expected_ports_are_not_listening() {
    let profile = load_profile("space-acres").unwrap();
    let report = inspect_with_fixtures(
        &profile,
        HashMap::from([
            (
                "ss -ltnp".to_string(),
                ok("State Recv-Q Send-Q Local Address:Port Peer Address:PortProcess"),
            ),
            (
                "ufw status".to_string(),
                ok("Status: active\n30333/tcp ALLOW Anywhere\n30433/tcp ALLOW Anywhere"),
            ),
            ("hostname -I".to_string(), ok("192.168.1.50")),
            ("ip route".to_string(), ok("default via 192.168.1.1 dev eth0")),
            ("curl -fsSL https://api.ipify.org".to_string(), ok("41.190.2.4")),
            ("upnpc -l".to_string(), ok("upnp device found")),
        ]),
    );

    assert_eq!(report.classification, Classification::MissingListener);
}

#[test]
fn classifies_port_conflict_when_listener_belongs_to_unexpected_process() {
    let profile = load_profile("space-acres").unwrap();
    let report = inspect_with_fixtures(
        &profile,
        HashMap::from([
            (
                "ss -ltnp".to_string(),
                ok("LISTEN 0 128 0.0.0.0:30333 0.0.0.0:* users:((\"nginx\",pid=1,fd=7))\nLISTEN 0 128 0.0.0.0:30433 0.0.0.0:* users:((\"subspace-node\",pid=2,fd=9))"),
            ),
            (
                "ufw status".to_string(),
                ok("Status: active\n30333/tcp ALLOW Anywhere\n30433/tcp ALLOW Anywhere"),
            ),
            ("hostname -I".to_string(), ok("192.168.1.50")),
            ("ip route".to_string(), ok("default via 192.168.1.1 dev eth0")),
            ("curl -fsSL https://api.ipify.org".to_string(), ok("41.190.2.4")),
            ("upnpc -l".to_string(), ok("ExternalIPAddress = 41.190.2.4")),
        ]),
    );

    assert_eq!(report.classification, Classification::PortConflict);
}

#[test]
fn classifies_local_firewall_block_when_required_rules_are_missing() {
    let profile = load_profile("space-acres").unwrap();
    let report = inspect_with_fixtures(
        &profile,
        HashMap::from([
            (
                "ss -ltnp".to_string(),
                ok("LISTEN 0 128 0.0.0.0:30333 0.0.0.0:* users:((\"subspace-node\",pid=2,fd=9))\nLISTEN 0 128 0.0.0.0:30433 0.0.0.0:* users:((\"subspace-farmer\",pid=3,fd=9))"),
            ),
            ("ufw status".to_string(), ok("Status: active\n30333/tcp ALLOW Anywhere")),
            ("hostname -I".to_string(), ok("192.168.1.50")),
            ("ip route".to_string(), ok("default via 192.168.1.1 dev eth0")),
            ("curl -fsSL https://api.ipify.org".to_string(), ok("41.190.2.4")),
            ("upnpc -l".to_string(), ok("ExternalIPAddress = 41.190.2.4")),
        ]),
    );

    assert_eq!(report.classification, Classification::LocalFirewallBlock);
}

#[test]
fn firewall_parser_requires_allow_rule_not_just_port_mention() {
    let profile = load_profile("space-acres").unwrap();
    let status_output = ok("Status: active\n30333/tcp DENY Anywhere\n30433/tcp ALLOW Anywhere");

    let firewall = parse_firewall_status(&profile, "linux", &status_output);

    assert!(!firewall.required_ports_allowed);
}

#[test]
fn classifies_router_automation_unsupported_when_upnpc_is_missing() {
    let profile = load_profile("space-acres").unwrap();
    let report = inspect_with_fixtures(
        &profile,
        HashMap::from([
            (
                "ss -ltnp".to_string(),
                ok("LISTEN 0 128 0.0.0.0:30333 0.0.0.0:* users:((\"subspace-node\",pid=2,fd=9))\nLISTEN 0 128 0.0.0.0:30433 0.0.0.0:* users:((\"subspace-farmer\",pid=3,fd=9))"),
            ),
            (
                "ufw status".to_string(),
                ok("Status: active\n30333/tcp ALLOW Anywhere\n30433/tcp ALLOW Anywhere"),
            ),
            ("hostname -I".to_string(), ok("192.168.1.50")),
            ("ip route".to_string(), ok("default via 192.168.1.1 dev eth0")),
            ("curl -fsSL https://api.ipify.org".to_string(), ok("41.190.2.4")),
            ("upnpc -l".to_string(), err("No IGD UPnP Device found on the network")),
        ]),
    );

    assert_eq!(report.classification, Classification::RouterAutomationUnsupported);
}

#[test]
fn classifies_healthy_when_all_local_checks_and_router_mappings_exist() {
    let profile = load_profile("space-acres").unwrap();
    let report = inspect_with_fixtures(
        &profile,
        HashMap::from([
            (
                "ss -ltnp".to_string(),
                ok("LISTEN 0 128 0.0.0.0:30333 0.0.0.0:* users:((\"subspace-node\",pid=2,fd=9))\nLISTEN 0 128 0.0.0.0:30433 0.0.0.0:* users:((\"subspace-farmer\",pid=3,fd=9))"),
            ),
            (
                "ufw status".to_string(),
                ok("Status: active\n30333/tcp ALLOW Anywhere\n30433/tcp ALLOW Anywhere"),
            ),
            ("hostname -I".to_string(), ok("192.168.1.50")),
            ("ip route".to_string(), ok("default via 192.168.1.1 dev eth0")),
            ("curl -fsSL https://api.ipify.org".to_string(), ok("41.190.2.4")),
            (
                "upnpc -l".to_string(),
                ok("ExternalIPAddress = 41.190.2.4\n 0 TCP 30333->192.168.1.50:30333 'space-acres'\n 1 TCP 30433->192.168.1.50:30433 'space-acres'"),
            ),
        ]),
    );

    assert_eq!(report.classification, Classification::Healthy);
}

#[test]
fn router_parser_requires_mapping_lines_not_just_port_mentions() {
    let profile = load_profile("space-acres").unwrap();
    let router = parse_router_status(
        &profile,
        &Some("192.168.1.50".to_string()),
        &ok("ExternalIPAddress = 41.190.2.4\nKnown candidate ports: 30333, 30433"),
    );

    assert!(router.available);
    assert!(!router.success);
}

#[test]
fn classifies_manual_router_action_required_when_local_state_is_good_but_mappings_are_missing() {
    let profile = load_profile("space-acres").unwrap();
    let report = inspect_with_fixtures(
        &profile,
        HashMap::from([
            (
                "ss -ltnp".to_string(),
                ok("LISTEN 0 128 0.0.0.0:30333 0.0.0.0:* users:((\"subspace-node\",pid=2,fd=9))\nLISTEN 0 128 0.0.0.0:30433 0.0.0.0:* users:((\"subspace-farmer\",pid=3,fd=9))"),
            ),
            (
                "ufw status".to_string(),
                ok("Status: active\n30333/tcp ALLOW Anywhere\n30433/tcp ALLOW Anywhere"),
            ),
            ("hostname -I".to_string(), ok("192.168.1.50")),
            ("ip route".to_string(), ok("default via 192.168.1.1 dev eth0")),
            ("curl -fsSL https://api.ipify.org".to_string(), ok("41.190.2.4")),
            (
                "upnpc -l".to_string(),
                ok("ExternalIPAddress = 41.190.2.4\nNo port mapping entries"),
            ),
        ]),
    );

    assert_eq!(report.classification, Classification::ManualRouterActionRequired);
}

#[test]
fn classifies_upstream_restriction_when_public_ip_hint_is_private() {
    let profile = load_profile("space-acres").unwrap();
    let report = inspect_with_fixtures(
        &profile,
        HashMap::from([
            (
                "ss -ltnp".to_string(),
                ok("LISTEN 0 128 0.0.0.0:30333 0.0.0.0:* users:((\"subspace-node\",pid=2,fd=9))\nLISTEN 0 128 0.0.0.0:30433 0.0.0.0:* users:((\"subspace-farmer\",pid=3,fd=9))"),
            ),
            (
                "ufw status".to_string(),
                ok("Status: active\n30333/tcp ALLOW Anywhere\n30433/tcp ALLOW Anywhere"),
            ),
            ("hostname -I".to_string(), ok("192.168.1.50")),
            ("ip route".to_string(), ok("default via 192.168.1.1 dev eth0")),
            ("curl -fsSL https://api.ipify.org".to_string(), ok("100.64.1.9")),
            ("upnpc -l".to_string(), ok("ExternalIPAddress = 100.64.1.9")),
        ]),
    );

    assert_eq!(report.classification, Classification::LikelyUpstreamRestriction);
}
