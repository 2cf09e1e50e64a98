//! Renewal: refresh the router mappings for the current LAN address, inspect
//! again, and report drift of the LAN address and gateway against the values
//! the caller knew before.
use vstd::prelude::*;
use crate::inspect::{inspection_command, inspection_len, inspection_request, report_from_outputs, report_of};
use crate::model::{Classification, InspectionReport, NetworkView, ReportView};
use crate::profile::{Profile, ProfileView};
use crate::session::{
    PlannedAction, PlannedView, any_failed, has_failed_action, mapping_actions, mapping_runs,
    planned_step, planned_views, run_plan, second_report, session_records, skip_action, skipped,
    with_actions,
};
use crate::system::{CommandOutput, OutputView, Step, StepView, output_views};
use crate::text::{
    decimal, uppercase, chars_eq, chars_of, debug_option, debug_text, extend_chars, join, join_exec, push_chars, push_str,
    string_from,
};

verus! {

/// The LAN address and gateway known from before, where the caller has them.
#[derive(Debug, Clone)]
pub struct RenewContext {
    pub previous_lan_ip: Option<String>,
    pub previous_gateway: Option<String>,
}

pub struct RenewContextView {
    pub previous_lan_ip: Option<Seq<char>>,
    pub previous_gateway: Option<Seq<char>>,
}

impl View for RenewContext {
    type V = RenewContextView;

    open spec fn view(&self) -> RenewContextView {
        RenewContextView {
            previous_lan_ip: self.previous_lan_ip.deep_view(),
            previous_gateway: self.previous_gateway.deep_view(),
        }
    }
}

/// A value drifted when it was known before, is known now, and differs.
pub open spec fn drifted(previous: Option<Seq<char>>, current: Option<Seq<char>>) -> bool {
    match (previous, current) {
        (Some(p), Some(c)) => p != c,
        _ => false,
    }
}

pub open spec fn or_unknown(value: Option<Seq<char>>) -> Seq<char> {
    match value {
        Some(v) => v,
        None => "unknown"@,
    }
}

pub open spec fn drift_notes(ctx: RenewContextView, net: NetworkView, lan: bool, gateway: bool) -> Seq<Seq<char>> {
    (if lan {
        seq!["LAN IP changed from "@ + or_unknown(ctx.previous_lan_ip) + " to "@ + or_unknown(net.lan_ip)]
    } else {
        Seq::empty()
    }) + (if gateway {
        seq![
            "gateway changed from "@ + or_unknown(ctx.previous_gateway) + " to "@ + or_unknown(
                net.default_gateway,
            ),
        ]
    } else {
        Seq::empty()
    })
}

/// The report with its drift flags set, and the drift told in the network notes.
pub open spec fn with_drift(r: ReportView, ctx: RenewContextView) -> ReportView {
    let lan = drifted(ctx.previous_lan_ip, r.network.lan_ip);
    let gateway = drifted(ctx.previous_gateway, r.network.default_gateway);
    let details = if lan || gateway {
        r.network.details + " Drift detected: "@ + join(drift_notes(ctx, r.network, lan, gateway), "; "@)
            + "."@
    } else {
        r.network.details
    };
    ReportView {
        network: NetworkView { lan_ip_drifted: lan, gateway_drifted: gateway, details, ..r.network },
        ..r
    }
}

/// The final classification and next step after renewal.
pub open spec fn adjusted_after_renew(r: ReportView, ctx: RenewContextView) -> ReportView {
    if any_failed(r.actions_attempted, "upnpc renew"@, true) {
        ReportView {
            classification: Classification::ManualRouterActionRequired,
            error_code: Classification::ManualRouterActionRequired.code(),
            remediation_message: "Renewal attempted to refresh router mappings, but at least one mapping still needs manual review."@,
            ..r
        }
    } else if r.network.lan_ip_drifted || r.network.gateway_drifted {
        ReportView {
            remediation_message: if r.classification == Classification::Healthy {
                "Renewal completed, but network drift was detected. Re-check router mappings and listener reachability."@
            } else {
                r.remediation_message + " Previous values supplied: lan_ip="@ + debug_text(ctx.previous_lan_ip)
                    + ", gateway="@ + debug_text(ctx.previous_gateway) + "."@
            },
            ..r
        }
    } else {
        r
    }
}

/// The record that opens every renewal.
pub open spec fn renew_preflight() -> PlannedView {
    skipped("renew preflight"@, true, "Captured the current network and listener state before renewal."@)
}

/// The renewal plan: mappings to the preflight LAN address when the backend
/// answered and there is a LAN address.
pub open spec fn renew_plan_of(profile: ProfileView, preflight: ReportView) -> Seq<PlannedView> {
    seq![renew_preflight()] + if !preflight.router_automation.available {
        seq![
            skipped(
                "upnpc renew"@,
                false,
                "Skipped renewal because the UPnP backend was not available in preflight."@,
            ),
        ]
    } else {
        match preflight.network.lan_ip {
            Some(ip) => mapping_runs(profile, ip, "upnpc renew "@),
            None => seq![skipped("upnpc renew"@, false, "Skipped renewal because no LAN IP was detected."@)],
        }
    }
}

/// What the renewal needs after the outputs so far.
pub open spec fn renew_step_of(
    profile: ProfileView,
    ctx: RenewContextView,
    platform: Seq<char>,
    outs: Seq<OutputView>,
) -> StepView {
    if outs.len() < inspection_len() {
        StepView::Run(inspection_request(outs.len() as int))
    } else {
        let plan = renew_plan_of(profile, report_of(profile, platform, outs));
        match planned_step(profile, platform, outs, plan) {
            Some(r) => StepView::Run(r),
            None => StepView::Done(
                adjusted_after_renew(
                    with_actions(
                        with_drift(second_report(profile, platform, outs, plan), ctx),
                        session_records(outs, plan),
                    ),
                    ctx,
                ),
            ),
        }
    }
}

/// Whether a value drifted.
pub fn has_drifted(previous: &Option<String>, current: &Option<String>) -> (res: bool)
    ensures
        res == drifted(previous.deep_view(), current.deep_view()),
{
    match (previous, current) {
        (Some(p), Some(c)) => !chars_eq(&chars_of(p.as_str()), &chars_of(c.as_str())),
        _ => false,
    }
}

fn push_or_unknown(s: &mut Vec<char>, value: &Option<String>)
    ensures
        final(s)@ == old(s)@ + or_unknown(value.deep_view()),
{
    match value {
        Some(v) => extend_chars(s, &chars_of(v.as_str())),
        None => extend_chars(s, &chars_of("unknown")),
    }
}

/// Sets the drift flags and tells the drift in the network notes.
pub fn apply_drift_flags(report: &mut InspectionReport, context: &RenewContext)
    ensures
        final(report)@ == with_drift(old(report)@, context@),
{
    let lan = has_drifted(&context.previous_lan_ip, &report.network.lan_ip);
    let gateway = has_drifted(&context.previous_gateway, &report.network.default_gateway);
    report.network.lan_ip_drifted = lan;
    report.network.gateway_drifted = gateway;
    if lan || gateway {
        let ghost net = old(report)@.network;
        let mut notes: Vec<Vec<char>> = Vec::new();
        if lan {
            let mut note = chars_of("LAN IP changed from ");
            push_or_unknown(&mut note, &context.previous_lan_ip);
            extend_chars(&mut note, &chars_of(" to "));
            push_or_unknown(&mut note, &report.network.lan_ip);
            notes.push(note);
        }
        if gateway {
            let mut note = chars_of("gateway changed from ");
            push_or_unknown(&mut note, &context.previous_gateway);
            extend_chars(&mut note, &chars_of(" to "));
            push_or_unknown(&mut note, &report.network.default_gateway);
            notes.push(note);
        }
        assert(crate::text::texts(notes@) =~= drift_notes(context@, net, lan, gateway));
        let joined = join_exec(&notes, &chars_of("; "));
        let mut details = report.network.details.clone();
        push_str(&mut details, " Drift detected: ");
        push_chars(&mut details, &joined);
        push_str(&mut details, ".");
        report.network.details = details;
    }
}

/// The final classification and next step after renewal.
pub fn adjust_post_renew_status(report: &mut InspectionReport, context: &RenewContext)
    ensures
        final(report)@ == adjusted_after_renew(old(report)@, context@),
{
    if has_failed_action(&report.actions_attempted, "upnpc renew", true) {
        report.classification = Classification::ManualRouterActionRequired;
        report.error_code = string_from(report.classification.error_code());
        report.remediation_message = string_from(
            "Renewal attempted to refresh router mappings, but at least one mapping still needs manual review.",
        );
        return;
    }
    if report.network.lan_ip_drifted || report.network.gateway_drifted {
        if report.classification == Classification::Healthy {
            report.remediation_message = string_from(
                "Renewal completed, but network drift was detected. Re-check router mappings and listener reachability.",
            );
        } else {
            let mut msg = report.remediation_message.clone();
            push_str(&mut msg, " Previous values supplied: lan_ip=");
            push_str(&mut msg, debug_option(&context.previous_lan_ip).as_str());
            push_str(&mut msg, ", gateway=");
            push_str(&mut msg, debug_option(&context.previous_gateway).as_str());
            push_str(&mut msg, ".");
            report.remediation_message = msg;
        }
    }
}

/// The renewal plan.
pub fn renew_plan(profile: &Profile, preflight: &InspectionReport) -> (res: Vec<PlannedAction>)
    ensures
        planned_views(res@) == renew_plan_of(profile@, preflight@),
{
    let mut res: Vec<PlannedAction> = Vec::new();
    res.push(
        skip_action(
            "renew preflight",
            true,
            "Captured the current network and listener state before renewal.",
        ),
    );
    let ghost head = planned_views(res@);
    assert(head =~= seq![renew_preflight()]);
    let mut rest: Vec<PlannedAction> = Vec::new();
    if !preflight.router_automation.available {
        rest.push(
            skip_action(
                "upnpc renew",
                false,
                "Skipped renewal because the UPnP backend was not available in preflight.",
            ),
        );
    } else {
        match &preflight.network.lan_ip {
            Some(ip) => {
                rest = mapping_actions(profile, ip, "upnpc renew ");
            },
            None => {
                rest.push(
                    skip_action("upnpc renew", false, "Skipped renewal because no LAN IP was detected."),
                );
            },
        }
    }
    let ghost tail = planned_views(rest@);
    res.append(&mut rest);
    assert(planned_views(res@) =~= head + tail);
    res
}

/// What the renewal needs next, given the outputs of the commands it asked for
/// so far: a command to run, or the final report. It inspects first, refreshes
/// the router mappings for the current LAN address when it can, inspects again,
/// flags drift against `context`, and says whether a refresh failed.
pub fn renew(profile: &Profile, context: &RenewContext, platform: &str, outputs: &Vec<CommandOutput>) -> (res: Step)
    ensures
        res@ == renew_step_of(profile@, context@, platform@, output_views(outputs@)),
{
    if outputs.len() < 6 {
        return Step::Run(inspection_command(outputs.len()));
    }
    let preflight = report_from_outputs(profile, platform, outputs, 0);
    assert(output_views(outputs@).subrange(0, 6) =~= output_views(outputs@).take(6));
    let plan = renew_plan(profile, &preflight);
    match run_plan(profile, platform, outputs, &plan) {
        Ok(r) => Step::Run(r),
        Err((report, records)) => {
            let mut report = report;
            apply_drift_flags(&mut report, context);
            report.actions_attempted = records;
            adjust_post_renew_status(&mut report, context);
            Step::Done(report)
        },
    }
}

// ---------------------------------------------------------------------------
// Laws
// ---------------------------------------------------------------------------

/// A renewal never reports success over a refresh that failed: when an
/// attempted action failed, the final report asks for manual router work.
pub proof fn renew_reports_no_fake_success(
    profile: ProfileView,
    ctx: RenewContextView,
    platform: Seq<char>,
    outs: Seq<OutputView>,
)
    ensures
        match renew_step_of(profile, ctx, platform, outs) {
            StepView::Done(r) => (exists|i: int|
                0 <= i < r.actions_attempted.len() && (#[trigger] r.actions_attempted[i]).attempted
                    && !r.actions_attempted[i].success) ==> r.classification
                == Classification::ManualRouterActionRequired,
            StepView::Run(_) => true,
        },
{
    if outs.len() >= inspection_len() {
        let preflight = report_of(profile, platform, outs);
        let plan = renew_plan_of(profile, preflight);
        if planned_step(profile, platform, outs, plan) is None {
            let actions = session_records(outs, plan);
            let n = crate::session::runs_of(plan).len() as int;
            crate::session::lemma_records_follow_plan(plan, outs.subrange(inspection_len(), inspection_len() + n));
            assert forall|i: int| 0 <= i < actions.len() && (#[trigger] actions[i]).attempted
                && !actions[i].success implies crate::session::failed_action(actions[i], "upnpc renew"@, true) by {
                reveal_strlit("upnpc renew");
                reveal_strlit("upnpc renew ");
                assert(i >= 1);
                assert(plan[i] == (plan.drop_first())[i - 1]);
                if preflight.router_automation.available {
                    if let Some(ip) = preflight.network.lan_ip {
                        let k = i - 1;
                        let req = profile.required_ports[k];
                        let rest = uppercase(req.protocol) + " "@ + decimal(req.port as nat) + " -> "@ + ip + ":"@
                            + decimal(req.port as nat);
                        assert(actions[i].name =~= "upnpc renew "@ + rest);
                        assert(("upnpc renew "@ + rest).take(11) =~= "upnpc renew"@);
                    }
                }
            }
            if exists|i: int| 0 <= i < actions.len() && (#[trigger] actions[i]).attempted && !actions[i].success {
                let i = choose|i: int| 0 <= i < actions.len() && (#[trigger] actions[i]).attempted && !actions[i].success;
                assert(any_failed(actions, "upnpc renew"@, true));
            }
        }
    }
}

/// After a renewal, the LAN address drifted exactly when it was known before,
/// is known now, and differs; and so did the gateway.
pub proof fn renew_flags_drift_exactly(
    profile: ProfileView,
    ctx: RenewContextView,
    platform: Seq<char>,
    outs: Seq<OutputView>,
)
    ensures
        match renew_step_of(profile, ctx, platform, outs) {
            StepView::Done(r) => {
                &&& r.network.lan_ip_drifted == drifted(ctx.previous_lan_ip, r.network.lan_ip)
                &&& r.network.gateway_drifted == drifted(ctx.previous_gateway, r.network.default_gateway)
            },
            StepView::Run(_) => true,
        },
{
}

/// Every command of a renewal's plan maps a port to the LAN address that the
/// preflight detected, and only when the backend answered.
pub proof fn renew_refreshes_follow_the_preflight(profile: ProfileView, preflight: ReportView)
    ensures
        ({
            let runs = crate::session::runs_of(renew_plan_of(profile, preflight));
            forall|i: int|
                0 <= i < runs.len() ==> {
                    &&& (#[trigger] runs[i]).program == "upnpc"@
                    &&& preflight.router_automation.available
                    &&& preflight.network.lan_ip is Some
                    &&& runs[i].args.len() == 7
                    &&& runs[i].args[3] == preflight.network.lan_ip->0
                }
        }),
{
    let head = seq![renew_preflight()];
    let rest = renew_plan_of(profile, preflight).drop_first();
    assert(renew_plan_of(profile, preflight) =~= head + rest);
    crate::session::lemma_runs_concat(head, rest);
    crate::session::lemma_runs_single_skip(renew_preflight());
    let rest_runs = crate::session::runs_of(rest);
    if preflight.router_automation.available && preflight.network.lan_ip is Some {
        crate::session::lemma_runs_all_run(rest);
    } else {
        crate::session::lemma_runs_single_skip(rest[0]);
        assert(rest =~= seq![rest[0]]);
    }
    let runs = crate::session::runs_of(renew_plan_of(profile, preflight));
    assert(runs =~= rest_runs);
    assert forall|i: int| 0 <= i < runs.len() implies {
        &&& (#[trigger] runs[i]).program == "upnpc"@
        &&& preflight.router_automation.available
        &&& preflight.network.lan_ip is Some
        &&& runs[i].args.len() == 7
        &&& runs[i].args[3] == preflight.network.lan_ip->0
    } by {
        let ip = preflight.network.lan_ip->0;
        crate::session::lemma_runs_all_run(rest);
        assert(rest_runs[i] == rest[i]->request);
        assert(rest[i] == crate::session::mapping_run(profile, ip, profile.required_ports[i], "upnpc renew "@));
    }
}

/// Every final report of a renewal carries the code of its classification.
pub proof fn renew_reports_carry_their_code(
    profile: ProfileView,
    ctx: RenewContextView,
    platform: Seq<char>,
    outs: Seq<OutputView>,
)
    ensures
        match renew_step_of(profile, ctx, platform, outs) {
            StepView::Done(r) => r.error_code == r.classification.code(),
            StepView::Run(_) => true,
        },
{
}

/// A renewal finishes: once it has the outputs of two inspections and of one
/// command per required port, it reports.
pub proof fn renew_finishes(
    profile: ProfileView,
    ctx: RenewContextView,
    platform: Seq<char>,
    outs: Seq<OutputView>,
)
    requires
        outs.len() >= 2 * inspection_len() + profile.required_ports.len(),
    ensures
        renew_step_of(profile, ctx, platform, outs) is Done,
{
    let preflight = report_of(profile, platform, outs);
    let plan = renew_plan_of(profile, preflight);
    let head = seq![renew_preflight()];
    let rest = plan.drop_first();
    assert(plan =~= head + rest);
    crate::session::lemma_runs_concat(head, rest);
    crate::session::lemma_runs_single_skip(renew_preflight());
    crate::session::lemma_runs_at_most(rest);
    if !(preflight.router_automation.available && preflight.network.lan_ip is Some) {
        assert(rest.len() == 1);
        assert(rest[0] is Skip);
        crate::session::lemma_runs_single_skip(rest[0]);
        assert(rest =~= seq![rest[0]]);
    }
}

/// A renewal never ends healthy unless its second inspection found every
/// required port mapped to the LAN address it detected.
pub proof fn renew_healthy_only_with_mappings_to_the_lan(
    profile: ProfileView,
    ctx: RenewContextView,
    platform: Seq<char>,
    outs: Seq<OutputView>,
)
    ensures
        match renew_step_of(profile, ctx, platform, outs) {
            StepView::Done(r) => r.classification == Classification::Healthy ==> outs.len()
                >= inspection_len() && crate::inspect::mapped_to_detected_lan(
                profile,
                crate::session::second_outputs(outs, renew_plan_of(profile, report_of(profile, platform, outs))),
            ),
            StepView::Run(_) => true,
        },
{
    if outs.len() >= inspection_len() {
        let plan = renew_plan_of(profile, report_of(profile, platform, outs));
        crate::inspect::healthy_only_with_mappings_to_the_lan(
            profile,
            platform,
            crate::session::second_outputs(outs, plan),
        );
    }
}

/// When the router backend answered during the preflight and a LAN address
/// was detected, the renewal runs, for every required port and whether or not
/// the preflight already saw the mapping, `upnpc -e <id> -a <lan> <port>
/// <port> <PROTOCOL>`, right after the preflight inspection and in the
/// profile's order.
pub proof fn renew_refreshes_every_required_port(
    profile: ProfileView,
    ctx: RenewContextView,
    platform: Seq<char>,
    outs: Seq<OutputView>,
    extra: Seq<OutputView>,
    k: int,
)
    requires
        outs.len() == inspection_len(),
        0 <= k < profile.required_ports.len(),
        report_of(profile, platform, outs).network.lan_ip is Some,
        report_of(profile, platform, outs).router_automation.available,
        extra.len() == k,
    ensures
        renew_step_of(profile, ctx, platform, outs + extra) == StepView::Run(
            crate::system::RequestView {
                program: "upnpc"@,
                args: seq![
                    "-e"@,
                    profile.id,
                    "-a"@,
                    report_of(profile, platform, outs).network.lan_ip->0,
                    decimal(profile.required_ports[k].port as nat),
                    decimal(profile.required_ports[k].port as nat),
                    uppercase(profile.required_ports[k].protocol),
                ],
            },
        ),
{
    let all = outs + extra;
    assert(all[0] == outs[0] && all[1] == outs[1] && all[2] == outs[2]);
    assert(all[3] == outs[3] && all[4] == outs[4] && all[5] == outs[5]);
    assert(report_of(profile, platform, all) == report_of(profile, platform, outs));
    let pre = report_of(profile, platform, outs);
    let head = seq![renew_preflight()];
    let rest = mapping_runs(profile, pre.network.lan_ip->0, "upnpc renew "@);
    assert(renew_plan_of(profile, pre) =~= head + rest);
    crate::session::lemma_runs_concat(head, rest);
    crate::session::lemma_runs_single_skip(renew_preflight());
    crate::session::lemma_runs_all_run(rest);
    let runs = crate::session::runs_of(renew_plan_of(profile, pre));
    assert(runs =~= crate::session::runs_of(rest));
    assert(runs[k] == rest[k]->request);
}

} // verus!
