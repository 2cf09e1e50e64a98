use reachability_assistant::apply::apply;
use reachability_assistant::inspect::inspect;
use reachability_assistant::model::{Classification, InspectionReport};
use reachability_assistant::profile::{load_profile, Profile};
use reachability_assistant::renew::{renew, RenewContext};
use reachability_assistant::system::{CommandOutput, Step};
use std::collections::HashMap;

fn ok(stdout: &str) -> CommandOutput {
    CommandOutput { success: true, stdout: stdout.to_string(), stderr: String::new() }
}

fn err(stderr: &str) -> CommandOutput {
    CommandOutput { success: false, stdout: String::new(), stderr: stderr.to_string() }
}

const LISTENING: &str = "LISTEN 0 128 0.0.0.0:30333 0.0.0.0:* users:((\"subspace-node\",pid=2,fd=9))\nLISTEN 0 128 0.0.0.0:30433 0.0.0.0:* users:((\"subspace-farmer\",pid=3,fd=9))";
const ALLOWED: &str = "Status: active\n30333/tcp ALLOW Anywhere\n30433/tcp ALLOW Anywhere";
const MAPPED: &str = "ExternalIPAddress = 41.190.2.4\n 0 TCP 30333->192.168.1.50:30333 'space-acres'\n 1 TCP 30433->192.168.1.50:30433 'space-acres'";

/// Runs a session against fixed replies and records every command it asked for.
fn drive(
    step: &dyn Fn(&Vec<CommandOutput>) -> Step,
    replies: &HashMap<&str, Vec<CommandOutput>>,
) -> (InspectionReport, Vec<String>) {
    let mut replies: HashMap<String, Vec<CommandOutput>> =
        replies.iter().map(|(k, v)| (k.to_string(), v.clone())).collect();
    let mut seen = Vec::new();
    let mut asked = Vec::new();
    loop {
        match step(&seen) {
            Step::Run(request) => {
                let key = format!("{} {}", request.program, request.args.join(" "));
                let reply = replies
                    .get_mut(&key)
                    .and_then(|v| if v.is_empty() { None } else { Some(v.remove(0)) })
                    .unwrap_or_else(|| err(&format!("missing fixture for {key}")));
                asked.push(key);
                seen.push(reply);
            }
            Step::Done(report) => return (report, asked),
        }
    }
}

fn twice(o: CommandOutput) -> Vec<CommandOutput> {
    vec![o.clone(), o]
}

fn base(upnp: Vec<CommandOutput>, ufw: Vec<CommandOutput>) -> HashMap<&'static str, Vec<CommandOutput>> {
    HashMap::from([
        ("ss -ltnp", twice(ok(LISTENING))),
        ("ufw status", ufw),
        ("hostname -I", twice(ok("192.168.1.50"))),
        ("ip route", twice(ok("default via 192.168.1.1 dev eth0"))),
        ("curl -fsSL https://api.ipify.org", twice(ok("41.190.2.4"))),
        ("upnpc -l", upnp),
    ])
}

fn profile() -> Profile {
    load_profile("space-acres").unwrap()
}

#[test]
fn apply_on_an_unready_service_asks_only_for_the_inspection() {
    let p = profile();
    let mut replies = base(twice(ok(MAPPED)), twice(ok(ALLOWED)));
    replies.insert("ss -ltnp", vec![ok("LISTEN 0 128 0.0.0.0:30333 users:((\"nginx\"))")]);
    let (report, asked) = drive(&|seen| apply(&p, "linux", seen), &replies);
    assert_eq!(asked.len(), 6);
    assert!(asked.iter().all(|k| !k.starts_with("ufw allow") && !k.starts_with("upnpc -e")));
    assert_eq!(report.classification, Classification::PortConflict);
    assert_eq!(report.actions_attempted.len(), 1);
    assert_eq!(report.actions_attempted[0].name, "preflight");
    assert!(!report.actions_attempted[0].success);
}

#[test]
fn apply_adds_missing_ufw_rules_and_reports_healthy() {
    let p = profile();
    let mut replies = base(twice(ok(MAPPED)), vec![ok("Status: active"), ok(ALLOWED)]);
    replies.insert("ufw allow 30333/tcp", vec![ok("Rule added")]);
    replies.insert("ufw allow 30433/tcp", vec![ok("Rule added")]);
    let (report, asked) = drive(&|seen| apply(&p, "linux", seen), &replies);
    assert_eq!(asked[6], "ufw allow 30333/tcp");
    assert_eq!(asked[7], "ufw allow 30433/tcp");
    assert_eq!(asked.len(), 14);
    assert_eq!(report.classification, Classification::Healthy);
    let names: Vec<&str> = report.actions_attempted.iter().map(|a| a.name.as_str()).collect();
    assert_eq!(names, vec!["ufw allow 30333/tcp", "ufw allow 30433/tcp", "upnpc"]);
    assert_eq!(report.actions_attempted[0].details, "Rule added");
    assert!(!report.actions_attempted[2].attempted && report.actions_attempted[2].success);
}

#[test]
fn apply_reports_a_failed_ufw_rule_as_a_firewall_block() {
    let p = profile();
    let mut replies = base(twice(ok(MAPPED)), vec![ok("Status: active"), ok(ALLOWED)]);
    replies.insert("ufw allow 30333/tcp", vec![err("ERROR: You need to be root")]);
    replies.insert("ufw allow 30433/tcp", vec![ok("Rule added")]);
    let (report, _) = drive(&|seen| apply(&p, "linux", seen), &replies);
    assert_eq!(report.classification, Classification::LocalFirewallBlock);
    assert_eq!(report.error_code, "local_firewall_block");
    assert_eq!(
        report.remediation_message,
        "Automatic UFW rule creation failed. Re-run with elevated privileges or add the rules manually."
    );
    assert_eq!(report.actions_attempted[0].details, "ERROR: You need to be root");
}

#[test]
fn apply_maps_ports_to_the_detected_lan_address() {
    let p = profile();
    let mut replies = base(
        vec![ok("ExternalIPAddress = 41.190.2.4"), ok(MAPPED)],
        twice(ok(ALLOWED)),
    );
    replies.insert("hostname -I", twice(ok("10.1.2.3")));
    replies.insert("upnpc -e space-acres -a 10.1.2.3 30333 30333 TCP", vec![ok("done")]);
    replies.insert("upnpc -e space-acres -a 10.1.2.3 30433 30433 TCP", vec![ok("done")]);
    let (report, asked) = drive(&|seen| apply(&p, "linux", seen), &replies);
    assert_eq!(asked[6], "upnpc -e space-acres -a 10.1.2.3 30333 30333 TCP");
    assert_eq!(asked[7], "upnpc -e space-acres -a 10.1.2.3 30433 30433 TCP");
    assert_eq!(report.actions_attempted[1].name, "upnpc TCP 30333 -> 10.1.2.3:30333");
    assert_eq!(report.actions_attempted[0].name, "ufw");
    assert!(report.actions_attempted.iter().all(|a| !a.attempted || a.success));
}

#[test]
fn apply_without_a_lan_address_skips_the_router() {
    let p = profile();
    let mut replies = base(twice(ok("ExternalIPAddress = 41.190.2.4")), twice(ok(ALLOWED)));
    replies.insert("hostname -I", twice(err("hostname: invalid option")));
    let (report, asked) = drive(&|seen| apply(&p, "linux", seen), &replies);
    assert_eq!(asked.len(), 12);
    assert_eq!(report.actions_attempted[1].name, "upnpc");
    assert_eq!(
        report.actions_attempted[1].details,
        "Skipped router automation because no LAN IP was detected."
    );
    assert_eq!(report.classification, Classification::ManualRouterActionRequired);
}

#[test]
fn renew_reports_gateway_drift_in_the_network_notes() {
    let p = profile();
    let mut replies = base(vec![ok("ExternalIPAddress = x"), ok("ExternalIPAddress = x")], twice(ok(ALLOWED)));
    replies.insert("upnpc -e space-acres -a 192.168.1.50 30333 30333 TCP", vec![ok("ok")]);
    replies.insert("upnpc -e space-acres -a 192.168.1.50 30433 30433 TCP", vec![ok("ok")]);
    let context = RenewContext {
        previous_lan_ip: Some("192.168.1.44".to_string()),
        previous_gateway: Some("192.168.1.254".to_string()),
    };
    let (report, asked) = drive(&|seen| renew(&p, &context, "linux", seen), &replies);
    assert_eq!(asked.len(), 14);
    assert!(report.network.lan_ip_drifted);
    assert!(report.network.gateway_drifted);
    assert_eq!(
        report.network.details,
        "Collected LAN, gateway, and public IP info from the local machine. Drift detected: LAN IP changed from 192.168.1.44 to 192.168.1.50; gateway changed from 192.168.1.254 to 192.168.1.1."
    );
    assert_eq!(report.classification, Classification::ManualRouterActionRequired);
    assert_eq!(
        report.remediation_message,
        "Local checks look good, but the router mapping still needs manual attention. Previous values supplied: lan_ip=Some(\"192.168.1.44\"), gateway=Some(\"192.168.1.254\")."
    );
    assert_eq!(report.actions_attempted[0].name, "renew preflight");
    assert_eq!(report.actions_attempted[1].name, "upnpc renew TCP 30333 -> 192.168.1.50:30333");
}

#[test]
fn renew_without_previous_values_reports_no_drift() {
    let p = profile();
    let replies = base(twice(ok(MAPPED)), twice(ok(ALLOWED)));
    let context = RenewContext { previous_lan_ip: None, previous_gateway: Some("192.168.1.1".to_string()) };
    let mut replies = replies;
    replies.insert("upnpc -e space-acres -a 192.168.1.50 30333 30333 TCP", vec![ok("ok")]);
    replies.insert("upnpc -e space-acres -a 192.168.1.50 30433 30433 TCP", vec![ok("ok")]);
    let (report, _) = drive(&|seen| renew(&p, &context, "linux", seen), &replies);
    assert!(!report.network.lan_ip_drifted);
    assert!(!report.network.gateway_drifted);
    assert_eq!(report.classification, Classification::Healthy);
    assert_eq!(report.remediation_message, "Required listeners are up and the local checks look good.");
}

#[test]
fn renew_with_the_backend_down_skips_the_refresh() {
    let p = profile();
    let replies = base(twice(err("No IGD UPnP Device found on the network")), twice(ok(ALLOWED)));
    let context = RenewContext { previous_lan_ip: None, previous_gateway: None };
    let (report, asked) = drive(&|seen| renew(&p, &context, "linux", seen), &replies);
    assert_eq!(asked.len(), 12);
    assert_eq!(report.actions_attempted.len(), 2);
    assert_eq!(report.actions_attempted[1].name, "upnpc renew");
    assert_eq!(report.classification, Classification::RouterAutomationUnsupported);
}

#[test]
fn stale_router_mappings_are_not_healthy() {
    let p = profile();
    let stale = "ExternalIPAddress = 41.190.2.4\n 0 TCP 30333->192.168.1.99:30333 'old'\n 1 TCP 30433->192.168.1.99:30433 'old'";
    let replies = base(twice(ok(stale)), twice(ok(ALLOWED)));
    let (report, _) = drive(&|seen| inspect(&p, "linux", seen), &replies);
    assert_eq!(report.classification, Classification::ManualRouterActionRequired);
    assert!(!report.router_automation.success);
    let mut replies = base(vec![ok(stale), ok(MAPPED)], twice(ok(ALLOWED)));
    replies.insert("upnpc -e space-acres -a 192.168.1.50 30333 30333 TCP", vec![ok("ok")]);
    replies.insert("upnpc -e space-acres -a 192.168.1.50 30433 30433 TCP", vec![ok("ok")]);
    let (report, asked) = drive(&|seen| apply(&p, "linux", seen), &replies);
    assert_eq!(asked[6], "upnpc -e space-acres -a 192.168.1.50 30333 30333 TCP");
    assert_eq!(report.classification, Classification::Healthy);
}

#[test]
fn router_external_address_is_captured() {
    let p = profile();
    let replies = base(twice(ok(MAPPED)), twice(ok(ALLOWED)));
    let (report, _) = drive(&|seen| inspect(&p, "linux", seen), &replies);
    assert_eq!(report.router_automation.external_ip, Some("41.190.2.4".to_string()));
    assert!(report.to_pretty_json().contains("\"external_ip\": \"41.190.2.4\""));
    assert_eq!(report.classification, Classification::Healthy);
}

#[test]
fn private_router_external_address_is_an_upstream_restriction() {
    let p = profile();
    let listing = "ExternalIPAddress = 10.0.0.5\n 0 TCP 30333->192.168.1.50:30333 'space-acres'\n 1 TCP 30433->192.168.1.50:30433 'space-acres'";
    let replies = base(twice(ok(listing)), twice(ok(ALLOWED)));
    let (report, _) = drive(&|seen| inspect(&p, "linux", seen), &replies);
    assert!(report.network.likely_cgnat_or_double_nat);
    assert_eq!(report.classification, Classification::LikelyUpstreamRestriction);
}

#[test]
fn disagreeing_router_external_address_is_an_upstream_restriction() {
    let p = profile();
    let listing = "ExternalIPAddress = 41.190.2.5\n 0 TCP 30333->192.168.1.50:30333 'space-acres'\n 1 TCP 30433->192.168.1.50:30433 'space-acres'";
    let replies = base(twice(ok(listing)), twice(ok(ALLOWED)));
    let (report, _) = drive(&|seen| inspect(&p, "linux", seen), &replies);
    assert_eq!(report.classification, Classification::LikelyUpstreamRestriction);
    let mut replies = base(twice(ok(listing)), twice(ok(ALLOWED)));
    replies.insert("curl -fsSL https://api.ipify.org", twice(err("offline")));
    let (report, _) = drive(&|seen| inspect(&p, "linux", seen), &replies);
    assert!(!report.network.likely_cgnat_or_double_nat);
    assert_eq!(report.classification, Classification::Healthy);
}
