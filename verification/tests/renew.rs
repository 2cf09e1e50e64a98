use reachability_assistant::renew::{renew, RenewContext};
use reachability_assistant::model::{Classification, InspectionReport};
use reachability_assistant::profile::{load_profile, Profile};
use reachability_assistant::system::{CommandOutput, CommandRequest, Step};
use std::collections::HashMap;

fn ok(stdout: &str) -> CommandOutput {
    CommandOutput {
        success: true,
        stdout: stdout.to_string(),
        stderr: String::new(),
    }
}

fn err(stderr: &str) -> CommandOutput {
    CommandOutput {
        success: false,
        stdout: String::new(),
        stderr: stderr.to_string(),
    }
}

fn key_of(request: &CommandRequest) -> String {
    format!("{} {}", request.program, request.args.join(" "))
}

fn renew_with_fixtures(
    profile: &Profile,
    context: RenewContext,
    fixtures: HashMap<String, Vec<CommandOutput>>,
) -> InspectionReport {
    let mut fixtures = fixtures;
    let mut seen = Vec::new();
    loop {
        match renew(profile, &context, "linux", &seen) {
            Step::Run(request) => {
                let key = key_of(&request);
                let output = fixtures
                    .get_mut(&key)
                    .and_then(|entries| {
                        if entries.is_empty() {
                            None
                        } else {
                            Some(entries.remove(0))
                        }
                    })
                    .unwrap_or_else(|| err(&format!("missing fixture for {key}")));
                seen.push(output);
            }
            Step::Done(report) => return report,
        }
    }
}

#[test]
fn renew_marks_lan_ip_drift_when_previous_ip_changes() {
    let profile = load_profile("space-acres").unwrap();
    let fixtures = HashMap::from([
        (
            "ss -ltnp".to_string(),
            vec![
                ok(
                    "LISTEN 0 128 0.0.0.0:30333 0.0.0.0:* users:((\"subspace-node\",pid=2,fd=9))\nLISTEN 0 128 0.0.0.0:30433 0.0.0.0:* users:((\"subspace-farmer\",pid=3,fd=9))",
                ),
                ok(
                    "LISTEN 0 128 0.0.0.0:30333 0.0.0.0:* users:((\"subspace-node\",pid=2,fd=9))\nLISTEN 0 128 0.0.0.0:30433 0.0.0.0:* users:((\"subspace-farmer\",pid=3,fd=9))",
                ),
            ],
        ),
        (
            "ufw status".to_string(),
            vec![
                ok("Status: active\n30333/tcp ALLOW Anywhere\n30433/tcp ALLOW Anywhere"),
                ok("Status: active\n30333/tcp ALLOW Anywhere\n30433/tcp ALLOW Anywhere"),
            ],
        ),
        (
            "hostname -I".to_string(),
            vec![ok("192.168.1.50"), ok("192.168.1.50")],
        ),
        (
            "ip route".to_string(),
            vec![
                ok("default via 192.168.1.1 dev eth0"),
                ok("default via 192.168.1.1 dev eth0"),
            ],
        ),
        (
            "curl -fsSL https://api.ipify.org".to_string(),
            vec![ok("41.190.2.4"), ok("41.190.2.4")],
        ),
        (
            "upnpc -l".to_string(),
            vec![
                ok("ExternalIPAddress = 41.190.2.4\nNo port mapping entries"),
                ok(
                    "ExternalIPAddress = 41.190.2.4\n 0 TCP 30333->192.168.1.50:30333 'space-acres'\n 1 TCP 30433->192.168.1.50:30433 'space-acres'",
                ),
            ],
        ),
        (
            "upnpc -e space-acres -a 192.168.1.50 30333 30333 TCP".to_string(),
            vec![ok("AddPortMapping(30333)")],
        ),
        (
            "upnpc -e space-acres -a 192.168.1.50 30433 30433 TCP".to_string(),
            vec![ok("AddPortMapping(30433)")],
        ),
    ]);

    let report = renew_with_fixtures(
        &profile,
        RenewContext {
            previous_lan_ip: Some("192.168.1.44".to_string()),
            previous_gateway: Some("192.168.1.1".to_string()),
        },
        fixtures,
    );

    assert!(report.network.lan_ip_drifted);
    assert_eq!(report.classification, Classification::Healthy);
    assert!(report.remediation_message.contains("network drift"));
}

#[test]
fn renew_marks_failed_mapping_refresh_for_manual_review() {
    let profile = load_profile("space-acres").unwrap();
    let fixtures = HashMap::from([
        (
            "ss -ltnp".to_string(),
            vec![
                ok(
                    "LISTEN 0 128 0.0.0.0:30333 0.0.0.0:* users:((\"subspace-node\",pid=2,fd=9))\nLISTEN 0 128 0.0.0.0:30433 0.0.0.0:* users:((\"subspace-farmer\",pid=3,fd=9))",
                ),
                ok(
                    "LISTEN 0 128 0.0.0.0:30333 0.0.0.0:* users:((\"subspace-node\",pid=2,fd=9))\nLISTEN 0 128 0.0.0.0:30433 0.0.0.0:* users:((\"subspace-farmer\",pid=3,fd=9))",
                ),
            ],
        ),
        (
            "ufw status".to_string(),
            vec![
                ok("Status: active\n30333/tcp ALLOW Anywhere\n30433/tcp ALLOW Anywhere"),
                ok("Status: active\n30333/tcp ALLOW Anywhere\n30433/tcp ALLOW Anywhere"),
            ],
        ),
        (
            "hostname -I".to_string(),
            vec![ok("192.168.1.50"), ok("192.168.1.50")],
        ),
        (
            "ip route".to_string(),
            vec![
                ok("default via 192.168.1.1 dev eth0"),
                ok("default via 192.168.1.1 dev eth0"),
            ],
        ),
        (
            "curl -fsSL https://api.ipify.org".to_string(),
            vec![ok("41.190.2.4"), ok("41.190.2.4")],
        ),
        (
            "upnpc -l".to_string(),
            vec![
                ok("ExternalIPAddress = 41.190.2.4\nNo port mapping entries"),
                ok("ExternalIPAddress = 41.190.2.4\nNo port mapping entries"),
            ],
        ),
        (
            "upnpc -e space-acres -a 192.168.1.50 30333 30333 TCP".to_string(),
            vec![err("AddPortMapping failed")],
        ),
        (
            "upnpc -e space-acres -a 192.168.1.50 30433 30433 TCP".to_string(),
            vec![ok("AddPortMapping(30433)")],
        ),
    ]);

    let report = renew_with_fixtures(
        &profile,
        RenewContext {
            previous_lan_ip: None,
            previous_gateway: None,
        },
        fixtures,
    );

    assert_eq!(
        report.classification,
        Classification::ManualRouterActionRequired
    );
    assert!(report.remediation_message.contains("Renewal attempted"));
}
