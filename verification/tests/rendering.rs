use reachability_assistant::inspect::inspect;
use reachability_assistant::json::{push_document_member, push_field, render_document, JsonMember, JsonScalar};
use reachability_assistant::model::{
    escape_json, option_to_json, ActionRecord, Classification, InspectionReport,
};
use reachability_assistant::profile::{load_profile, Profile};
use reachability_assistant::reporter::{exit_code, render_human_report};
use reachability_assistant::system::{CommandOutput, Step};
use std::collections::HashMap;

fn ok(stdout: &str) -> CommandOutput {
    CommandOutput { success: true, stdout: stdout.to_string(), stderr: String::new() }
}

fn err(stderr: &str) -> CommandOutput {
    CommandOutput { success: false, stdout: String::new(), stderr: stderr.to_string() }
}

fn inspect_with_fixtures(profile: &Profile, outputs: &HashMap<String, CommandOutput>) -> InspectionReport {
    let mut seen = Vec::new();
    loop {
        match inspect(profile, "linux", &seen) {
            Step::Run(request) => {
                let key = format!("{} {}", request.program, request.args.join(" "));
                seen.push(outputs.get(&key).cloned().unwrap_or_else(|| err("missing fixture")));
            }
            Step::Done(report) => return report,
        }
    }
}

fn sample_report(public_ip: &str, lan: CommandOutput) -> InspectionReport {
    let profile = load_profile("space-acres").unwrap();
    inspect_with_fixtures(
        &profile,
        &HashMap::from([
            (
                "ss -ltnp".to_string(),
                ok("LISTEN 0 128 0.0.0.0:30333 0.0.0.0:* users:((\"subspace-node\",pid=2,fd=9))\nLISTEN 0 128 0.0.0.0:30433 0.0.0.0:* users:((\"Subspace-Farmer\",pid=3,fd=9))"),
            ),
            ("ufw status".to_string(), ok("Status: active\n30333/tcp ALLOW Anywhere\n30433/tcp ALLOW Anywhere")),
            ("hostname -I".to_string(), lan),
            ("ip route".to_string(), ok("default via 192.168.1.1 dev eth0")),
            ("curl -fsSL https://api.ipify.org".to_string(), ok(public_ip)),
            ("upnpc -l".to_string(), err("No IGD \"UPnP\" Device\nfound")),
        ]),
    )
}

// The formatting below is written out independently, field by field, so that
// the library's rendering is checked against a second reading of the format.
fn expected_escape(value: &str) -> String {
    let mut out = String::new();
    for c in value.chars() {
        match c {
            '\\' => out.push_str("\\\\"),
            '"' => out.push_str("\\\""),
            '\n' => out.push_str("\\n"),
            '\r' => out.push_str("\\r"),
            '\t' => out.push_str("\\t"),
            c if (c as u32) < 0x20 => out.push_str(&format!("\\u{:04x}", c as u32)),
            c => out.push(c),
        }
    }
    out
}

fn expected_option(value: &Option<String>) -> String {
    match value {
        Some(value) => format!("\"{}\"", expected_escape(value)),
        None => "null".to_string(),
    }
}

fn expected_json(r: &InspectionReport) -> String {
    let listeners = r
        .listeners
        .iter()
        .map(|l| {
            format!(
                "    {{\n      \"port\": {},\n      \"protocol\": \"{}\",\n      \"listening\": {},\n      \"occupied_by_other_process\": {},\n      \"details\": \"{}\"\n    }}",
                l.port,
                expected_escape(l.protocol),
                l.listening,
                l.occupied_by_other_process,
                expected_escape(&l.details)
            )
        })
        .collect::<Vec<_>>()
        .join(",\n");
    let actions = r
        .actions_attempted
        .iter()
        .map(|a| {
            format!(
                "    {{\n      \"name\": \"{}\",\n      \"attempted\": {},\n      \"success\": {},\n      \"details\": \"{}\"\n    }}",
                expected_escape(&a.name),
                a.attempted,
                a.success,
                expected_escape(&a.details)
            )
        })
        .collect::<Vec<_>>()
        .join(",\n");
    format!(
        "{{\n  \"profile\": \"{}\",\n  \"classification\": \"{}\",\n  \"remediation_message\": \"{}\",\n  \"error_code\": \"{}\",\n  \"listeners\": [\n{}\n  ],\n  \"firewall\": {{\n    \"supported\": {},\n    \"ufw_installed\": {},\n    \"ufw_active\": {},\n    \"required_ports_allowed\": {},\n    \"details\": \"{}\"\n  }},\n  \"network\": {{\n    \"platform\": \"{}\",\n    \"lan_ip\": {},\n    \"default_gateway\": {},\n    \"public_ip\": {},\n    \"likely_cgnat_or_double_nat\": {},\n    \"lan_ip_drifted\": {},\n    \"gateway_drifted\": {},\n    \"details\": \"{}\"\n  }},\n  \"router_automation\": {{\n    \"backend\": \"{}\",\n    \"available\": {},\n    \"attempted\": {},\n    \"success\": {},\n    \"external_ip\": {},\n    \"details\": \"{}\"\n  }},\n  \"actions_attempted\": [\n{}\n  ]\n}}",
        expected_escape(&r.profile),
        r.classification.error_code(),
        expected_escape(&r.remediation_message),
        expected_escape(&r.error_code),
        listeners,
        r.firewall.supported,
        r.firewall.ufw_installed,
        r.firewall.ufw_active,
        r.firewall.required_ports_allowed,
        expected_escape(&r.firewall.details),
        expected_escape(&r.network.platform),
        expected_option(&r.network.lan_ip),
        expected_option(&r.network.default_gateway),
        expected_option(&r.network.public_ip),
        r.network.likely_cgnat_or_double_nat,
        r.network.lan_ip_drifted,
        r.network.gateway_drifted,
        expected_escape(&r.network.details),
        expected_escape(r.router_automation.backend),
        r.router_automation.available,
        r.router_automation.attempted,
        r.router_automation.success,
        expected_option(&r.router_automation.external_ip),
        expected_escape(&r.router_automation.details),
        actions
    )
}

fn expected_human(display_name: &str, r: &InspectionReport) -> String {
    let mut lines = vec![
        "Autonomys Reachability Assistant MVP".to_string(),
        format!("Profile: {display_name}"),
        format!("Classification: {}", r.error_code),
        format!("Next step: {}", r.remediation_message),
        String::new(),
        "Listeners:".to_string(),
    ];
    for l in &r.listeners {
        lines.push(format!(
            "- {} {}/{} | listening={} occupied_by_other_process={} | {}",
            display_name, l.port, l.protocol, l.listening, l.occupied_by_other_process, l.details
        ));
    }
    lines.push(String::new());
    lines.push(format!(
        "Firewall: supported={} installed={} active={} required_ports_allowed={}",
        r.firewall.supported, r.firewall.ufw_installed, r.firewall.ufw_active, r.firewall.required_ports_allowed
    ));
    lines.push(format!("Firewall notes: {}", r.firewall.details));
    lines.push(String::new());
    lines.push(format!(
        "Network: platform={} lan_ip={:?} gateway={:?} public_ip={:?} likely_cgnat_or_double_nat={} lan_ip_drifted={} gateway_drifted={}",
        r.network.platform, r.network.lan_ip, r.network.default_gateway, r.network.public_ip,
        r.network.likely_cgnat_or_double_nat, r.network.lan_ip_drifted, r.network.gateway_drifted
    ));
    lines.push(format!("Network notes: {}", r.network.details));
    lines.push(String::new());
    lines.push(format!(
        "Router automation: backend={} available={} attempted={} success={}",
        r.router_automation.backend, r.router_automation.available, r.router_automation.attempted,
        r.router_automation.success
    ));
    lines.push(format!("Router notes: {}", r.router_automation.details));
    if !r.actions_attempted.is_empty() {
        let attempted = r.actions_attempted.iter().filter(|a| a.attempted).count();
        let failed = r.actions_attempted.iter().filter(|a| a.attempted && !a.success).count();
        lines.push(String::new());
        lines.push("Actions:".to_string());
        lines.push(format!(
            "Summary: total={} attempted={} skipped={} failed={}",
            r.actions_attempted.len(),
            attempted,
            r.actions_attempted.len() - attempted,
            failed
        ));
        for a in &r.actions_attempted {
            lines.push(format!("- {} | attempted={} success={} | {}", a.name, a.attempted, a.success, a.details));
        }
    }
    lines.join("\n")
}

#[test]
fn json_report_matches_the_documented_layout() {
    let report = sample_report("100.64.1.9", ok("fe80::1 192.168.1.50"));
    assert_eq!(report.to_pretty_json(), expected_json(&report));
    assert!(report.to_pretty_json().contains("\"external_ip\": null"));
    assert!(report.to_pretty_json().contains("\"lan_ip\": \"192.168.1.50\""));
}

#[test]
fn json_report_with_actions_matches_the_documented_layout() {
    let mut report = sample_report("41.190.2.4", err("no hostname"));
    report.actions_attempted = vec![
        ActionRecord { name: "ufw".to_string(), attempted: false, success: true, details: "kept \"as is\"".to_string() },
        ActionRecord { name: "ufw allow 30333/tcp".to_string(), attempted: true, success: false, details: "line\\one\nline two\tand\rmore\u{1b}".to_string() },
    ];
    assert_eq!(report.to_pretty_json(), expected_json(&report));
    assert!(report.to_pretty_json().contains("\"lan_ip\": null"));
}

#[test]
fn human_report_matches_the_documented_layout() {
    let report = sample_report("100.64.1.9", ok("192.168.1.50"));
    assert_eq!(render_human_report("Space Acres", &report), expected_human("Space Acres", &report));
    assert!(render_human_report("Space Acres", &report).contains("lan_ip=Some(\"192.168.1.50\")"));
    assert!(!render_human_report("Space Acres", &report).contains("Actions:"));
}

#[test]
fn human_report_summarises_actions() {
    let mut report = sample_report("41.190.2.4", err("no hostname"));
    report.actions_attempted = vec![
        ActionRecord { name: "preflight".to_string(), attempted: false, success: false, details: "skipped".to_string() },
        ActionRecord { name: "ufw allow 30333/tcp".to_string(), attempted: true, success: false, details: "denied".to_string() },
        ActionRecord { name: "ufw allow 30433/tcp".to_string(), attempted: true, success: true, details: "Rule added".to_string() },
    ];
    let text = render_human_report("Space Acres", &report);
    assert_eq!(text, expected_human("Space Acres", &report));
    assert!(text.contains("Summary: total=3 attempted=2 skipped=1 failed=1"));
    assert!(text.contains("lan_ip=None"));
}

#[test]
fn escape_json_escapes_backslash_quote_and_control_characters() {
    assert_eq!(escape_json("a\"b\\c\nd"), "a\\\"b\\\\c\\nd");
    assert_eq!(escape_json("plain"), "plain");
    assert_eq!(escape_json("tab\there\r\u{1b}\u{0}\u{1f} é"), "tab\\there\\r\\u001b\\u0000\\u001f é");
    assert!(escape_json("x\ny\t\r\u{7}").chars().all(|c| (c as u32) >= 0x20));
}

#[test]
fn option_to_json_quotes_or_writes_null() {
    assert_eq!(option_to_json(&Some("1.2.3.4".to_string())), "\"1.2.3.4\"");
    assert_eq!(option_to_json(&Some("a\"b".to_string())), "\"a\\\"b\"");
    assert_eq!(option_to_json(&None), "null");
}

#[test]
fn exit_codes_follow_the_classification() {
    let mut report = sample_report("41.190.2.4", ok("192.168.1.50"));
    let cases = [
        (Classification::Healthy, 0, "healthy"),
        (Classification::MissingListener, 10, "missing_listener"),
        (Classification::PortConflict, 11, "port_conflict"),
        (Classification::LocalFirewallBlock, 12, "local_firewall_block"),
        (Classification::ManualRouterActionRequired, 13, "manual_router_action_required"),
        (Classification::RouterAutomationUnsupported, 14, "router_automation_unsupported"),
        (Classification::LikelyUpstreamRestriction, 15, "likely_upstream_restriction"),
    ];
    for (classification, code, name) in cases {
        report.classification = classification;
        assert_eq!(exit_code(&report), code);
        assert_eq!(classification.error_code(), name);
    }
}

#[test]
fn upstream_hint_sets_classification_and_message() {
    let report = sample_report("100.64.1.9", ok("192.168.1.50"));
    assert!(report.network.likely_cgnat_or_double_nat);
    assert_eq!(report.classification, Classification::LikelyUpstreamRestriction);
    assert_eq!(report.error_code, "likely_upstream_restriction");
    assert_eq!(
        report.remediation_message,
        "The network shape suggests something upstream, like CGNAT or double NAT. Public IP hint: 100.64.1.9"
    );
    let report = sample_report("41.190.2.4", ok("192.168.1.50"));
    assert!(!report.network.likely_cgnat_or_double_nat);
    assert_eq!(report.classification, Classification::RouterAutomationUnsupported);
    assert_eq!(
        report.remediation_message,
        "Router automation is unavailable. Check UPnP on the gateway or configure port forwarding by hand. UPnP IGD backend is not available: No IGD \"UPnP\" Device\nfound"
    );
}

#[test]
fn document_layout_nests_objects_and_lists() {
    let mut ms = Vec::new();
    push_document_member(&mut ms, "a", JsonMember::Scalar(JsonScalar::Null));
    let mut fs = Vec::new();
    push_field(&mut fs, "n", JsonScalar::Number(7));
    push_field(&mut fs, "t", JsonScalar::Text("x\"y\t".to_string()));
    push_document_member(&mut ms, "o", JsonMember::Object(fs));
    push_document_member(&mut ms, "e", JsonMember::List(Vec::new()));
    let mut item = Vec::new();
    push_field(&mut item, "b", JsonScalar::Bool(false));
    push_document_member(&mut ms, "l", JsonMember::List(vec![item]));
    assert_eq!(
        render_document(&ms),
        "{\n  \"a\": null,\n  \"o\": {\n    \"n\": 7,\n    \"t\": \"x\\\"y\\t\"\n  },\n  \"e\": [\n\n  ],\n  \"l\": [\n    {\n      \"b\": false\n    }\n  ]\n}"
    );
}
