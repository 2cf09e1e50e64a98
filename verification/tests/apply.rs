use reachability_assistant::apply::apply;
use reachability_assistant::model::{Classification, InspectionReport};
use reachability_assistant::profile::{load_profile, Profile};
use reachability_assistant::system::{CommandOutput, CommandRequest, Step};
use std::collections::HashMap;

fn ok(stdout: &str) -> CommandOutput {
    CommandOutput {
        success: true,
        stdout: stdout.to_string(),
        stderr: String::new(),
    }
}

fn err(stderr: &str) -> CommandOutput {
    CommandOutput {
        success: false,
        stdout: String::new(),
        stderr: stderr.to_string(),
    }
}

fn key_of(request: &CommandRequest) -> String {
    format!("{} {}", request.program, request.args.join(" "))
}

fn apply_with_fixtures(
    profile: &Profile,
    fixtures: HashMap<String, Vec<CommandOutput>>,
) -> InspectionReport {
    let mut fixtures = fixtures;
    let mut seen = Vec::new();
    loop {
        match apply(profile, "linux", &seen) {
            Step::Run(request) => {
                let key = key_of(&request);
                let output = fixtures
                    .get_mut(&key)
                    .and_then(|entries| {
                        if entries.is_empty() {
                            None
                        } else {
                            Some(entries.remove(0))
                        }
                    })
                    .unwrap_or_else(|| err(&format!("missing fixture for {key}")));
                seen.push(output);
            }
            Step::Done(report) => return report,
        }
    }
}

#[test]
fn apply_skips_mutation_when_listener_is_missing() {
    let profile = load_profile("space-acres").unwrap();
    let fixtures = HashMap::from([
        (
            "ss -ltnp".to_string(),
            vec![ok(
                "State Recv-Q Send-Q Local Address:Port Peer Address:PortProcess",
            )],
        ),
        (
            "ufw status".to_string(),
            vec![ok(
                "Status: active\n30333/tcp ALLOW Anywhere\n30433/tcp ALLOW Anywhere",
            )],
        ),
        ("hostname -I".to_string(), vec![ok("192.168.1.50")]),
        (
            "ip route".to_string(),
            vec![ok("default via 192.168.1.1 dev eth0")],
        ),
        (
            "curl -fsSL https://api.ipify.org".to_string(),
            vec![ok("41.190.2.4")],
        ),
        (
            "upnpc -l".to_string(),
            vec![ok("ExternalIPAddress = 41.190.2.4")],
        ),
    ]);

    let report = apply_with_fixtures(&profile, fixtures);

    assert_eq!(report.classification, Classification::MissingListener);
    assert_eq!(report.actions_attempted.len(), 1);
    assert!(!report.actions_attempted[0].attempted);
}

#[test]
fn apply_skips_router_mutation_when_backend_is_unavailable() {
    let profile = load_profile("space-acres").unwrap();
    let fixtures = HashMap::from([
        (
            "ss -ltnp".to_string(),
            vec![
                ok(
                    "LISTEN 0 128 0.0.0.0:30333 0.0.0.0:* users:((\"subspace-node\",pid=2,fd=9))\nLISTEN 0 128 0.0.0.0:30433 0.0.0.0:* users:((\"subspace-farmer\",pid=3,fd=9))",
                ),
                ok(
                    "LISTEN 0 128 0.0.0.0:30333 0.0.0.0:* users:((\"subspace-node\",pid=2,fd=9))\nLISTEN 0 128 0.0.0.0:30433 0.0.0.0:* users:((\"subspace-farmer\",pid=3,fd=9))",
                ),
            ],
        ),
        (
            "ufw status".to_string(),
            vec![
                ok("Status: active\n30333/tcp ALLOW Anywhere"),
                ok("Status: active\n30333/tcp ALLOW Anywhere\n30433/tcp ALLOW Anywhere"),
            ],
        ),
        (
            "hostname -I".to_string(),
            vec![ok("192.168.1.50"), ok("192.168.1.50")],
        ),
        (
            "ip route".to_string(),
            vec![
                ok("default via 192.168.1.1 dev eth0"),
                ok("default via 192.168.1.1 dev eth0"),
            ],
        ),
        (
            "curl -fsSL https://api.ipify.org".to_string(),
            vec![ok("41.190.2.4"), ok("41.190.2.4")],
        ),
        (
            "upnpc -l".to_string(),
            vec![
                err("No IGD UPnP Device found on the network"),
                err("No IGD UPnP Device found on the network"),
            ],
        ),
        ("ufw allow 30333/tcp".to_string(), vec![ok("Rule added")]),
        ("ufw allow 30433/tcp".to_string(), vec![ok("Rule added")]),
    ]);

    let report = apply_with_fixtures(&profile, fixtures);

    assert_eq!(
        report.classification,
        Classification::RouterAutomationUnsupported
    );
    assert!(
        report
            .actions_attempted
            .iter()
            .any(|action| action.name == "upnpc" && !action.attempted)
    );
}

#[test]
fn apply_marks_router_failure_as_manual_router_action_required() {
    let profile = load_profile("space-acres").unwrap();
    let fixtures = HashMap::from([
        (
            "ss -ltnp".to_string(),
            vec![
                ok(
                    "LISTEN 0 128 0.0.0.0:30333 0.0.0.0:* users:((\"subspace-node\",pid=2,fd=9))\nLISTEN 0 128 0.0.0.0:30433 0.0.0.0:* users:((\"subspace-farmer\",pid=3,fd=9))",
                ),
                ok(
                    "LISTEN 0 128 0.0.0.0:30333 0.0.0.0:* users:((\"subspace-node\",pid=2,fd=9))\nLISTEN 0 128 0.0.0.0:30433 0.0.0.0:* users:((\"subspace-farmer\",pid=3,fd=9))",
                ),
            ],
        ),
        (
            "ufw status".to_string(),
            vec![
                ok("Status: active\n30333/tcp ALLOW Anywhere\n30433/tcp ALLOW Anywhere"),
                ok("Status: active\n30333/tcp ALLOW Anywhere\n30433/tcp ALLOW Anywhere"),
            ],
        ),
        (
            "hostname -I".to_string(),
            vec![ok("192.168.1.50"), ok("192.168.1.50")],
        ),
        (
            "ip route".to_string(),
            vec![
                ok("default via 192.168.1.1 dev eth0"),
                ok("default via 192.168.1.1 dev eth0"),
            ],
        ),
        (
            "curl -fsSL https://api.ipify.org".to_string(),
            vec![ok("41.190.2.4"), ok("41.190.2.4")],
        ),
        (
            "upnpc -l".to_string(),
            vec![
                ok("ExternalIPAddress = 41.190.2.4\nNo port mapping entries"),
                ok("ExternalIPAddress = 41.190.2.4\nNo port mapping entries"),
            ],
        ),
        (
            "upnpc -e space-acres -a 192.168.1.50 30333 30333 TCP".to_string(),
            vec![err("AddPortMapping failed")],
        ),
        (
            "upnpc -e space-acres -a 192.168.1.50 30433 30433 TCP".to_string(),
            vec![ok("AddPortMapping(30433)")],
        ),
    ]);

    let report = apply_with_fixtures(&profile, fixtures);

    assert_eq!(
        report.classification,
        Classification::ManualRouterActionRequired
    );
    assert!(
        report
            .remediation_message
            .contains("Router mapping was attempted")
    );
}
