//! The human-readable report and the process exit code of each classification.
use vstd::prelude::*;
use crate::model::{ActionRecord, ActionView, Classification, InspectionReport, PortCheck, PortCheckView, ReportView, action_views, port_check_views};
use crate::text::{
    bool_text, chars_of, debug_option, debug_text, decimal, join, join_exec, push_bool, push_decimal,
    push_str, string_from, string_of, texts,
};

verus! {

pub open spec fn header_lines(display_name: Seq<char>, r: ReportView) -> Seq<Seq<char>> {
    seq![
        "Autonomys Reachability Assistant MVP"@,
        "Profile: "@ + display_name,
        "Classification: "@ + r.error_code,
        "Next step: "@ + r.remediation_message,
        Seq::empty(),
        "Listeners:"@,
    ]
}

pub open spec fn listener_line(display_name: Seq<char>, l: PortCheckView) -> Seq<char> {
    "- "@ + display_name + " "@ + decimal(l.port as nat) + "/"@ + l.protocol + " | listening="@
        + bool_text(l.listening) + " occupied_by_other_process="@ + bool_text(
        l.occupied_by_other_process,
    ) + " | "@ + l.details
}

pub open spec fn listener_lines(display_name: Seq<char>, ls: Seq<PortCheckView>) -> Seq<Seq<char>> {
    ls.map_values(|l: PortCheckView| listener_line(display_name, l))
}

pub open spec fn status_lines(r: ReportView) -> Seq<Seq<char>> {
    seq![
        Seq::empty(),
        "Firewall: supported="@ + bool_text(r.firewall.supported) + " installed="@ + bool_text(
            r.firewall.ufw_installed,
        ) + " active="@ + bool_text(r.firewall.ufw_active) + " required_ports_allowed="@
            + bool_text(r.firewall.required_ports_allowed),
        "Firewall notes: "@ + r.firewall.details,
        Seq::empty(),
        "Network: platform="@ + r.network.platform + " lan_ip="@ + debug_text(r.network.lan_ip)
            + " gateway="@ + debug_text(r.network.default_gateway) + " public_ip="@ + debug_text(
            r.network.public_ip,
        ) + " likely_cgnat_or_double_nat="@ + bool_text(r.network.likely_cgnat_or_double_nat)
            + " lan_ip_drifted="@ + bool_text(r.network.lan_ip_drifted) + " gateway_drifted="@
            + bool_text(r.network.gateway_drifted),
        "Network notes: "@ + r.network.details,
        Seq::empty(),
        "Router automation: backend="@ + r.router_automation.backend + " available="@ + bool_text(
            r.router_automation.available,
        ) + " attempted="@ + bool_text(r.router_automation.attempted) + " success="@ + bool_text(
            r.router_automation.success,
        ),
        "Router notes: "@ + r.router_automation.details,
    ]
}

/// How many actions were attempted.
pub open spec fn attempted_count(actions: Seq<ActionView>) -> nat
    decreases actions.len(),
{
    if actions.len() == 0 {
        0
    } else {
        attempted_count(actions.drop_last()) + if actions.last().attempted { 1nat } else { 0nat }
    }
}

/// How many actions were attempted and failed.
pub open spec fn failed_count(actions: Seq<ActionView>) -> nat
    decreases actions.len(),
{
    if actions.len() == 0 {
        0
    } else {
        failed_count(actions.drop_last()) + if actions.last().attempted && !actions.last().success {
            1nat
        } else {
            0nat
        }
    }
}

pub open spec fn action_line(a: ActionView) -> Seq<char> {
    "- "@ + a.name + " | attempted="@ + bool_text(a.attempted) + " success="@ + bool_text(a.success)
        + " | "@ + a.details
}

pub open spec fn summary_line(actions: Seq<ActionView>) -> Seq<char> {
    "Summary: total="@ + decimal(actions.len()) + " attempted="@ + decimal(attempted_count(actions))
        + " skipped="@ + decimal((actions.len() - attempted_count(actions)) as nat) + " failed="@
        + decimal(failed_count(actions))
}

/// The actions section: present only when some action was recorded.
pub open spec fn action_section(actions: Seq<ActionView>) -> Seq<Seq<char>> {
    if actions.len() == 0 {
        Seq::empty()
    } else {
        seq![Seq::empty(), "Actions:"@, summary_line(actions)] + actions.map_values(
            |a: ActionView| action_line(a),
        )
    }
}

pub open spec fn human_lines(display_name: Seq<char>, r: ReportView) -> Seq<Seq<char>> {
    header_lines(display_name, r) + listener_lines(display_name, r.listeners) + status_lines(r)
        + action_section(r.actions_attempted)
}

/// The human-readable report: its lines joined with line breaks.
pub open spec fn human_report(display_name: Seq<char>, r: ReportView) -> Seq<char> {
    join(human_lines(display_name, r), "\n"@)
}

/// The process exit code of a classification.
pub open spec fn exit_code_of(c: Classification) -> i32 {
    match c {
        Classification::Healthy => 0,
        Classification::MissingListener => 10,
        Classification::PortConflict => 11,
        Classification::LocalFirewallBlock => 12,
        Classification::ManualRouterActionRequired => 13,
        Classification::RouterAutomationUnsupported => 14,
        Classification::LikelyUpstreamRestriction => 15,
    }
}

pub fn exit_code(report: &InspectionReport) -> (res: i32)
    ensures
        res == exit_code_of(report.classification),
{
    match report.classification {
        Classification::Healthy => 0,
        Classification::MissingListener => 10,
        Classification::PortConflict => 11,
        Classification::LocalFirewallBlock => 12,
        Classification::ManualRouterActionRequired => 13,
        Classification::RouterAutomationUnsupported => 14,
        Classification::LikelyUpstreamRestriction => 15,
    }
}

/// Each classification has its own exit code, and only a healthy report exits 0.
pub proof fn exit_codes_tell_classifications_apart(a: Classification, b: Classification)
    ensures
        exit_code_of(a) == exit_code_of(b) <==> a == b,
        exit_code_of(a) == 0 <==> a == Classification::Healthy,
{
}

fn line(s: String) -> (res: Vec<char>)
    ensures
        res@ == s@,
{
    chars_of(s.as_str())
}

fn push_line(out: &mut Vec<Vec<char>>, s: String)
    ensures
        texts(final(out)@) == texts(old(out)@).push(s@),
{
    let l = line(s);
    let ghost before = texts(out@);
    out.push(l);
    assert(texts(out@) =~= before.push(s@));
}

fn counts(actions: &Vec<ActionRecord>) -> (res: (usize, usize))
    ensures
        res.0 == attempted_count(action_views(actions@)),
        res.1 == failed_count(action_views(actions@)),
{
    let n = actions.len();
    let ghost av = action_views(actions@);
    let mut attempted: usize = 0;
    let mut failed: usize = 0;
    for i in 0..n
        invariant
            n == actions@.len(),
            av == action_views(actions@),
            attempted == attempted_count(av.take(i as int)),
            failed == failed_count(av.take(i as int)),
            attempted <= i,
            failed <= i,
    {
        assert(av.take(i + 1).drop_last() =~= av.take(i as int));
        if actions[i].attempted {
            attempted = attempted + 1;
            if !actions[i].success {
                failed = failed + 1;
            }
        }
    }
    assert(av.take(n as int) =~= av);
    (attempted, failed)
}

/// The lines of the actions section.
fn action_section_lines(actions: &Vec<ActionRecord>) -> (res: Vec<Vec<char>>)
    ensures
        texts(res@) == action_section(action_views(actions@)),
{
    let mut out: Vec<Vec<char>> = Vec::new();
    let ghost av = action_views(actions@);
    if actions.len() == 0 {
        assert(texts(out@) =~= action_section(av));
        return out;
    }
    let (attempted, failed) = counts(actions);
    proof {
        summary_counts_add_up(av);
    }
    push_line(&mut out, String::new());
    push_line(&mut out, string_from("Actions:"));
    let mut summary = string_from("Summary: total=");
    push_decimal(&mut summary, actions.len() as u64);
    push_str(&mut summary, " attempted=");
    push_decimal(&mut summary, attempted as u64);
    push_str(&mut summary, " skipped=");
    push_decimal(&mut summary, (actions.len() - attempted) as u64);
    push_str(&mut summary, " failed=");
    push_decimal(&mut summary, failed as u64);
    push_line(&mut out, summary);
    let ghost head = texts(out@);
    let ghost want = av.map_values(|a: ActionView| action_line(a));
    assert(head =~= seq![Seq::empty(), "Actions:"@, summary_line(av)]);
    let n = actions.len();
    for i in 0..n
        invariant
            n == actions@.len(),
            av == action_views(actions@),
            want == av.map_values(|a: ActionView| action_line(a)),
            texts(out@) == head + want.take(i as int),
    {
        let a = &actions[i];
        let mut s = string_from("- ");
        push_str(&mut s, a.name.as_str());
        push_str(&mut s, " | attempted=");
        push_bool(&mut s, a.attempted);
        push_str(&mut s, " success=");
        push_bool(&mut s, a.success);
        push_str(&mut s, " | ");
        push_str(&mut s, a.details.as_str());
        assert(s@ == want[i as int]);
        push_line(&mut out, s);
        assert(want.take(i + 1) =~= want.take(i as int).push(want[i as int]));
        assert(head + want.take(i + 1) =~= (head + want.take(i as int)).push(want[i as int]));
    }
    assert(want.take(n as int) =~= want);
    out
}

fn header_section(display_name: &str, report: &InspectionReport) -> (res: Vec<Vec<char>>)
    ensures
        texts(res@) == header_lines(display_name@, report@),
{
    let mut out: Vec<Vec<char>> = Vec::new();
    push_line(&mut out, string_from("Autonomys Reachability Assistant MVP"));
    let mut s = string_from("Profile: ");
    push_str(&mut s, display_name);
    push_line(&mut out, s);
    let mut s = string_from("Classification: ");
    push_str(&mut s, report.error_code.as_str());
    push_line(&mut out, s);
    let mut s = string_from("Next step: ");
    push_str(&mut s, report.remediation_message.as_str());
    push_line(&mut out, s);
    push_line(&mut out, String::new());
    push_line(&mut out, string_from("Listeners:"));
    assert(texts(out@) =~= header_lines(display_name@, report@));
    out
}

fn listener_section(display_name: &str, listeners: &Vec<PortCheck>) -> (res: Vec<Vec<char>>)
    ensures
        texts(res@) == listener_lines(display_name@, port_check_views(listeners@)),
{
    let mut out: Vec<Vec<char>> = Vec::new();
    let ghost want = listener_lines(display_name@, port_check_views(listeners@));
    let n = listeners.len();
    for i in 0..n
        invariant
            n == listeners@.len(),
            want == listener_lines(display_name@, port_check_views(listeners@)),
            texts(out@) == want.take(i as int),
    {
        let l = &listeners[i];
        let mut s = string_from("- ");
        push_str(&mut s, display_name);
        push_str(&mut s, " ");
        push_decimal(&mut s, l.port as u64);
        push_str(&mut s, "/");
        push_str(&mut s, l.protocol);
        push_str(&mut s, " | listening=");
        push_bool(&mut s, l.listening);
        push_str(&mut s, " occupied_by_other_process=");
        push_bool(&mut s, l.occupied_by_other_process);
        push_str(&mut s, " | ");
        push_str(&mut s, l.details.as_str());
        assert(s@ == want[i as int]);
        push_line(&mut out, s);
        assert(want.take(i + 1) =~= want.take(i as int).push(want[i as int]));
    }
    assert(want.take(n as int) =~= want);
    out
}

fn status_section(report: &InspectionReport) -> (res: Vec<Vec<char>>)
    ensures
        texts(res@) == status_lines(report@),
{
    let mut out: Vec<Vec<char>> = Vec::new();
    push_line(&mut out, String::new());
    let mut s = string_from("Firewall: supported=");
    push_bool(&mut s, report.firewall.supported);
    push_str(&mut s, " installed=");
    push_bool(&mut s, report.firewall.ufw_installed);
    push_str(&mut s, " active=");
    push_bool(&mut s, report.firewall.ufw_active);
    push_str(&mut s, " required_ports_allowed=");
    push_bool(&mut s, report.firewall.required_ports_allowed);
    push_line(&mut out, s);
    let mut s = string_from("Firewall notes: ");
    push_str(&mut s, report.firewall.details.as_str());
    push_line(&mut out, s);
    push_line(&mut out, String::new());
    let mut s = string_from("Network: platform=");
    push_str(&mut s, report.network.platform.as_str());
    push_str(&mut s, " lan_ip=");
    push_str(&mut s, debug_option(&report.network.lan_ip).as_str());
    push_str(&mut s, " gateway=");
    push_str(&mut s, debug_option(&report.network.default_gateway).as_str());
    push_str(&mut s, " public_ip=");
    push_str(&mut s, debug_option(&report.network.public_ip).as_str());
    push_str(&mut s, " likely_cgnat_or_double_nat=");
    push_bool(&mut s, report.network.likely_cgnat_or_double_nat);
    push_str(&mut s, " lan_ip_drifted=");
    push_bool(&mut s, report.network.lan_ip_drifted);
    push_str(&mut s, " gateway_drifted=");
    push_bool(&mut s, report.network.gateway_drifted);
    push_line(&mut out, s);
    let mut s = string_from("Network notes: ");
    push_str(&mut s, report.network.details.as_str());
    push_line(&mut out, s);
    push_line(&mut out, String::new());
    let mut s = string_from("Router automation: backend=");
    push_str(&mut s, report.router_automation.backend);
    push_str(&mut s, " available=");
    push_bool(&mut s, report.router_automation.available);
    push_str(&mut s, " attempted=");
    push_bool(&mut s, report.router_automation.attempted);
    push_str(&mut s, " success=");
    push_bool(&mut s, report.router_automation.success);
    push_line(&mut out, s);
    let mut s = string_from("Router notes: ");
    push_str(&mut s, report.router_automation.details.as_str());
    push_line(&mut out, s);
    assert(texts(out@) =~= status_lines(report@));
    out
}

/// Appends lines.
fn append_lines(out: &mut Vec<Vec<char>>, more: Vec<Vec<char>>)
    ensures
        texts(final(out)@) == texts(old(out)@) + texts(more@),
{
    let mut more = more;
    let ghost a = texts(out@);
    let ghost b = texts(more@);
    out.append(&mut more);
    assert(texts(out@) =~= a + b);
}

/// The human-readable report.
pub fn render_human_report(display_name: &str, report: &InspectionReport) -> (res: String)
    ensures
        res@ == human_report(display_name@, report@),
{
    let mut out = header_section(display_name, report);
    append_lines(&mut out, listener_section(display_name, &report.listeners));
    append_lines(&mut out, status_section(report));
    append_lines(&mut out, action_section_lines(&report.actions_attempted));
    let joined = join_exec(&out, &chars_of("\n"));
    string_of(&joined)
}

/// In the actions summary, attempted and skipped actions add up to the total,
/// and no more actions failed than were attempted.
pub proof fn summary_counts_add_up(actions: Seq<ActionView>)
    ensures
        failed_count(actions) <= attempted_count(actions) <= actions.len(),
    decreases actions.len(),
{
    if actions.len() > 0 {
        summary_counts_add_up(actions.drop_last());
    }
}

/// Each line of the human report shows the report fields it names: the header
/// its profile, classification code and next step; one line per listener
/// check; the firewall, network and router lines with every `key=value` taken
/// from the field of that name, each followed by its notes; and, when actions
/// were recorded, one line per action after the summary.
pub proof fn human_report_lines_show_their_fields(display_name: Seq<char>, r: ReportView)
    ensures
        ({
            let ls = human_lines(display_name, r);
            let b = 6 + r.listeners.len() as int;
            &&& ls.len() == b + 9 + if r.actions_attempted.len() == 0 {
                0
            } else {
                3 + r.actions_attempted.len()
            }
            &&& ls[1] == "Profile: "@ + display_name
            &&& ls[2] == "Classification: "@ + r.error_code
            &&& ls[3] == "Next step: "@ + r.remediation_message
            &&& forall|i: int|
                #![trigger r.listeners[i]]
                0 <= i < r.listeners.len() ==> ls[6 + i] == "- "@ + display_name + " "@ + decimal(
                    r.listeners[i].port as nat,
                ) + "/"@ + r.listeners[i].protocol + " | listening="@ + bool_text(r.listeners[i].listening)
                    + " occupied_by_other_process="@ + bool_text(r.listeners[i].occupied_by_other_process) + " | "@
                    + r.listeners[i].details
            &&& ls[b + 1] == "Firewall: supported="@ + bool_text(r.firewall.supported) + " installed="@ + bool_text(
                r.firewall.ufw_installed,
            ) + " active="@ + bool_text(r.firewall.ufw_active) + " required_ports_allowed="@ + bool_text(
                r.firewall.required_ports_allowed,
            )
            &&& ls[b + 2] == "Firewall notes: "@ + r.firewall.details
            &&& ls[b + 4] == "Network: platform="@ + r.network.platform + " lan_ip="@ + debug_text(r.network.lan_ip)
                + " gateway="@ + debug_text(r.network.default_gateway) + " public_ip="@ + debug_text(
                r.network.public_ip,
            ) + " likely_cgnat_or_double_nat="@ + bool_text(r.network.likely_cgnat_or_double_nat)
                + " lan_ip_drifted="@ + bool_text(r.network.lan_ip_drifted) + " gateway_drifted="@ + bool_text(
                r.network.gateway_drifted,
            )
            &&& ls[b + 5] == "Network notes: "@ + r.network.details
            &&& ls[b + 7] == "Router automation: backend="@ + r.router_automation.backend + " available="@
                + bool_text(r.router_automation.available) + " attempted="@ + bool_text(
                r.router_automation.attempted,
            ) + " success="@ + bool_text(r.router_automation.success)
            &&& ls[b + 8] == "Router notes: "@ + r.router_automation.details
            &&& forall|i: int|
                #![trigger r.actions_attempted[i]]
                0 <= i < r.actions_attempted.len() ==> ls[b + 12 + i] == "- "@ + r.actions_attempted[i].name
                    + " | attempted="@ + bool_text(r.actions_attempted[i].attempted) + " success="@ + bool_text(
                    r.actions_attempted[i].success,
                ) + " | "@ + r.actions_attempted[i].details
        }),
{
    let h = header_lines(display_name, r);
    let l = listener_lines(display_name, r.listeners);
    let st = status_lines(r);
    let ac = action_section(r.actions_attempted);
    let ls = human_lines(display_name, r);
    let b = 6 + r.listeners.len() as int;
    assert(ls =~= h + l + st + ac);
    assert forall|i: int| #![trigger r.listeners[i]] 0 <= i < r.listeners.len() implies ls[6 + i] == listener_line(
        display_name,
        r.listeners[i],
    ) by {
        assert(ls[6 + i] == l[i]);
    }
    assert(ls[b + 1] == st[1]);
    assert(ls[b + 2] == st[2]);
    assert(ls[b + 4] == st[4]);
    assert(ls[b + 5] == st[5]);
    assert(ls[b + 7] == st[7]);
    assert(ls[b + 8] == st[8]);
    if r.actions_attempted.len() > 0 {
        assert forall|i: int| #![trigger r.actions_attempted[i]] 0 <= i < r.actions_attempted.len() implies ls[b
            + 12 + i] == action_line(r.actions_attempted[i]) by {
            assert(ls[b + 12 + i] == ac[3 + i]);
        }
    }
}

} // verus!
