//! The safe fix path: UFW allow rules and one router mapping method for the
//! profile's ports, targeting the detected LAN address, with an inspection
//! before and after.
use vstd::prelude::*;
use crate::inspect::{
    inspection_command, inspection_len, inspection_request, report_from_outputs, report_of, request,
    ufw_target,
};
use crate::model::{ActionRecord, ActionView, Classification, InspectionReport, ReportView, action_views};
use crate::profile::{Profile, ProfileView};
use crate::session::{
    PlannedAction, PlannedView, any_failed, has_failed_action, mapping_actions, mapping_runs,
    planned_step, planned_views, run_plan, second_report, session_records, skip_action, skipped,
    with_actions,
};
use crate::system::{CommandOutput, OutputView, Step, StepView, output_views};
use crate::text::{decimal, decimal_string, push_str, string_from, uppercase};

verus! {

/// A missing or conflicting listener is fixed by hand before anything changes.
pub open spec fn stops_before_mutation(c: Classification) -> bool {
    c == Classification::MissingListener || c == Classification::PortConflict
}

pub fn should_stop_before_mutation(report: &InspectionReport) -> (res: bool)
    ensures
        res == stops_before_mutation(report.classification),
{
    match report.classification {
        Classification::MissingListener | Classification::PortConflict => true,
        _ => false,
    }
}

/// The record of a fix that stopped at the preflight inspection.
pub open spec fn preflight_skip() -> ActionView {
    ActionView {
        name: "preflight"@,
        attempted: false,
        success: false,
        details: "Skipped firewall and router changes because the local service is not ready yet."@,
    }
}

/// The UFW part of the plan: nothing to run when the rules are there, else
/// one `ufw allow` per required port.
pub open spec fn firewall_plan_of(profile: ProfileView, preflight: ReportView) -> Seq<PlannedView> {
    if preflight.firewall.required_ports_allowed {
        seq![skipped("ufw"@, true, "Required UFW rules already exist for the Space Acres profile."@)]
    } else {
        Seq::new(
            profile.required_ports.len(),
            |k: int|
                {
                    let rule = ufw_target(
                        profile.required_ports[k].port,
                        profile.required_ports[k].protocol,
                    );
                    PlannedView::Run {
                        name: "ufw allow "@ + rule,
                        request: request("ufw"@, seq!["allow"@, rule]),
                    }
                },
        )
    }
}

/// The router part of the plan: mappings to the preflight LAN address, when
/// there is one, the backend answered and the mappings are not there yet.
pub open spec fn router_plan_of(profile: ProfileView, preflight: ReportView) -> Seq<PlannedView> {
    match preflight.network.lan_ip {
        None => seq![skipped("upnpc"@, false, "Skipped router automation because no LAN IP was detected."@)],
        Some(ip) => if !preflight.router_automation.available {
            seq![
                skipped(
                    "upnpc"@,
                    false,
                    "Skipped router automation because the UPnP backend was not available during preflight."@,
                ),
            ]
        } else if preflight.router_automation.success {
            seq![skipped("upnpc"@, true, "Required router mappings already exist for both Space Acres ports."@)]
        } else {
            mapping_runs(profile, ip, "upnpc "@)
        },
    }
}

pub open spec fn apply_plan_of(profile: ProfileView, preflight: ReportView) -> Seq<PlannedView> {
    firewall_plan_of(profile, preflight) + router_plan_of(profile, preflight)
}

/// The final classification after the fix: a failed UFW rule is a local
/// firewall block; else a failed mapping attempt needs manual router work.
pub open spec fn adjusted_after_apply(r: ReportView) -> ReportView {
    if any_failed(r.actions_attempted, "ufw allow"@, false) {
        ReportView {
            classification: Classification::LocalFirewallBlock,
            error_code: Classification::LocalFirewallBlock.code(),
            remediation_message: "Automatic UFW rule creation failed. Re-run with elevated privileges or add the rules manually."@,
            ..r
        }
    } else if any_failed(r.actions_attempted, "upnpc "@, true) {
        ReportView {
            classification: Classification::ManualRouterActionRequired,
            error_code: Classification::ManualRouterActionRequired.code(),
            remediation_message: "Router mapping was attempted but did not fully succeed. Check the gateway settings or configure forwarding manually."@,
            ..r
        }
    } else {
        r
    }
}

/// What the fix needs after the outputs so far.
pub open spec fn apply_step_of(profile: ProfileView, platform: Seq<char>, outs: Seq<OutputView>) -> StepView {
    if outs.len() < inspection_len() {
        StepView::Run(inspection_request(outs.len() as int))
    } else {
        let preflight = report_of(profile, platform, outs);
        if stops_before_mutation(preflight.classification) {
            StepView::Done(with_actions(preflight, seq![preflight_skip()]))
        } else {
            let plan = apply_plan_of(profile, preflight);
            match planned_step(profile, platform, outs, plan) {
                Some(r) => StepView::Run(r),
                None => StepView::Done(
                    adjusted_after_apply(
                        with_actions(
                            second_report(profile, platform, outs, plan),
                            session_records(outs, plan),
                        ),
                    ),
                ),
            }
        }
    }
}

/// The UFW part of the plan.
pub fn apply_firewall_rules(profile: &Profile, preflight: &InspectionReport) -> (res: Vec<PlannedAction>)
    ensures
        planned_views(res@) == firewall_plan_of(profile@, preflight@),
{
    let mut res: Vec<PlannedAction> = Vec::new();
    if preflight.firewall.required_ports_allowed {
        res.push(
            skip_action("ufw", true, "Required UFW rules already exist for the Space Acres profile."),
        );
        assert(planned_views(res@) =~= firewall_plan_of(profile@, preflight@));
        return res;
    }
    let n = profile.required_ports.len();
    for k in 0..n
        invariant
            n == profile.required_ports@.len(),
            !preflight.firewall.required_ports_allowed,
            planned_views(res@) == firewall_plan_of(profile@, preflight@).take(k as int),
    {
        let requirement = &profile.required_ports[k];
        let mut rule = decimal_string(requirement.port as u64);
        push_str(&mut rule, "/");
        push_str(&mut rule, requirement.protocol);
        let ghost target = ufw_target(requirement.port, requirement.protocol@);
        assert(rule@ == target);
        let mut name = string_from("ufw allow ");
        push_str(&mut name, rule.as_str());
        let mut args: Vec<String> = Vec::new();
        args.push(string_from("allow"));
        args.push(rule);
        assert(args.deep_view() =~= seq!["allow"@, target]);
        let action = PlannedAction::Run {
            name,
            request: crate::system::CommandRequest { program: string_from("ufw"), args },
        };
        assert(profile@.required_ports[k as int] == requirement@);
        assert(action@ == firewall_plan_of(profile@, preflight@)[k as int]);
        let ghost before = planned_views(res@);
        res.push(action);
        assert(planned_views(res@) =~= before.push(action@));
        assert(planned_views(res@) =~= firewall_plan_of(profile@, preflight@).take(k + 1));
    }
    assert(firewall_plan_of(profile@, preflight@).take(n as int) =~= firewall_plan_of(profile@, preflight@));
    res
}

/// The router part of the plan.
pub fn apply_router_mappings(profile: &Profile, preflight: &InspectionReport) -> (res: Vec<PlannedAction>)
    ensures
        planned_views(res@) == router_plan_of(profile@, preflight@),
{
    let mut res: Vec<PlannedAction> = Vec::new();
    match &preflight.network.lan_ip {
        None => {
            res.push(
                skip_action(
                    "upnpc",
                    false,
                    "Skipped router automation because no LAN IP was detected.",
                ),
            );
        },
        Some(ip) => {
            if !preflight.router_automation.available {
                res.push(
                    skip_action(
                        "upnpc",
                        false,
                        "Skipped router automation because the UPnP backend was not available during preflight.",
                    ),
                );
            } else if preflight.router_automation.success {
                res.push(
                    skip_action(
                        "upnpc",
                        true,
                        "Required router mappings already exist for both Space Acres ports.",
                    ),
                );
            } else {
                return mapping_actions(profile, ip, "upnpc ");
            }
        },
    }
    assert(planned_views(res@) =~= router_plan_of(profile@, preflight@));
    res
}

/// The final classification after the fix.
pub fn adjust_post_apply_status(report: &mut InspectionReport)
    ensures
        final(report)@ == adjusted_after_apply(old(report)@),
{
    if has_failed_action(&report.actions_attempted, "ufw allow", false) {
        report.classification = Classification::LocalFirewallBlock;
        report.error_code = string_from(report.classification.error_code());
        report.remediation_message = string_from(
            "Automatic UFW rule creation failed. Re-run with elevated privileges or add the rules manually.",
        );
        return;
    }
    if has_failed_action(&report.actions_attempted, "upnpc ", true) {
        report.classification = Classification::ManualRouterActionRequired;
        report.error_code = string_from(report.classification.error_code());
        report.remediation_message = string_from(
            "Router mapping was attempted but did not fully succeed. Check the gateway settings or configure forwarding manually.",
        );
    }
}

/// What the fix needs next, given the outputs of the commands it asked for so
/// far: a command to run, or the final report. It inspects first; it changes
/// nothing when a listener is missing or conflicting; else it runs the UFW and
/// router commands that the preflight calls for, inspects again, and says
/// which of its changes failed.
pub fn apply(profile: &Profile, platform: &str, outputs: &Vec<CommandOutput>) -> (res: Step)
    ensures
        res@ == apply_step_of(profile@, platform@, output_views(outputs@)),
{
    if outputs.len() < 6 {
        return Step::Run(inspection_command(outputs.len()));
    }
    let preflight = report_from_outputs(profile, platform, outputs, 0);
    assert(output_views(outputs@).subrange(0, 6) =~= output_views(outputs@).take(6));
    if should_stop_before_mutation(&preflight) {
        let mut report = preflight;
        let mut actions: Vec<ActionRecord> = Vec::new();
        actions.push(
            ActionRecord {
                name: string_from("preflight"),
                attempted: false,
                success: false,
                details: string_from(
                    "Skipped firewall and router changes because the local service is not ready yet.",
                ),
            },
        );
        report.actions_attempted = actions;
        assert(action_views(report.actions_attempted@) =~= seq![preflight_skip()]);
        return Step::Done(report);
    }
    let mut plan = apply_firewall_rules(profile, &preflight);
    let mut router = apply_router_mappings(profile, &preflight);
    let ghost first = planned_views(plan@);
    let ghost second = planned_views(router@);
    plan.append(&mut router);
    assert(planned_views(plan@) =~= first + second);
    match run_plan(profile, platform, outputs, &plan) {
        Ok(r) => Step::Run(r),
        Err((report, records)) => {
            let mut report = report;
            report.actions_attempted = records;
            adjust_post_apply_status(&mut report);
            Step::Done(report)
        },
    }
}

// ---------------------------------------------------------------------------
// Laws
// ---------------------------------------------------------------------------

/// While the preflight shows a missing or conflicting listener, the fix asks
/// for nothing but the read-only inspection and then reports the preflight
/// with one skipped action.
pub proof fn apply_leaves_an_unready_service_alone(
    profile: ProfileView,
    platform: Seq<char>,
    outs: Seq<OutputView>,
)
    requires
        outs.len() >= inspection_len(),
        stops_before_mutation(report_of(profile, platform, outs).classification),
    ensures
        apply_step_of(profile, platform, outs) == StepView::Done(
            with_actions(report_of(profile, platform, outs), seq![preflight_skip()]),
        ),
        !preflight_skip().attempted,
{
}

/// Every `ufw` command of a fix adds an allow rule, and only when the preflight
/// found the rules missing; every `upnpc` command maps a port to the LAN
/// address that the preflight detected, and only when the backend answered and
/// the mappings were not there yet.
pub proof fn apply_changes_follow_the_preflight(profile: ProfileView, preflight: ReportView)
    ensures
        ({
            let runs = crate::session::runs_of(apply_plan_of(profile, preflight));
            forall|i: int|
                0 <= i < runs.len() ==> {
                    &&& (#[trigger] runs[i]).program == "ufw"@ || runs[i].program == "upnpc"@
                    &&& runs[i].program == "ufw"@ ==> {
                        &&& !preflight.firewall.required_ports_allowed
                        &&& runs[i].args.len() == 2
                        &&& runs[i].args[0] == "allow"@
                    }
                    &&& runs[i].program == "upnpc"@ ==> {
                        &&& preflight.router_automation.available
                        &&& !preflight.router_automation.success
                        &&& preflight.network.lan_ip is Some
                        &&& runs[i].args.len() == 7
                        &&& runs[i].args[3] == preflight.network.lan_ip->0
                    }
                }
        }),
{
    reveal_strlit("ufw");
    reveal_strlit("upnpc");
    let fw = firewall_plan_of(profile, preflight);
    let rt = router_plan_of(profile, preflight);
    crate::session::lemma_runs_concat(fw, rt);
    let fw_runs = crate::session::runs_of(fw);
    let rt_runs = crate::session::runs_of(rt);
    if preflight.firewall.required_ports_allowed {
        crate::session::lemma_runs_single_skip(fw[0]);
        assert(fw =~= seq![fw[0]]);
    } else {
        crate::session::lemma_runs_all_run(fw);
    }
    match preflight.network.lan_ip {
        Some(ip) => {
            if !preflight.router_automation.available || preflight.router_automation.success {
                crate::session::lemma_runs_single_skip(rt[0]);
                assert(rt =~= seq![rt[0]]);
            } else {
                crate::session::lemma_runs_all_run(rt);
            }
        },
        None => {
            crate::session::lemma_runs_single_skip(rt[0]);
            assert(rt =~= seq![rt[0]]);
        },
    }
    let runs = fw_runs + rt_runs;
    assert forall|i: int| 0 <= i < runs.len() implies {
        &&& (#[trigger] runs[i]).program == "ufw"@ || runs[i].program == "upnpc"@
        &&& runs[i].program == "ufw"@ ==> {
            &&& !preflight.firewall.required_ports_allowed
            &&& runs[i].args.len() == 2
            &&& runs[i].args[0] == "allow"@
        }
        &&& runs[i].program == "upnpc"@ ==> {
            &&& preflight.router_automation.available
            &&& !preflight.router_automation.success
            &&& preflight.network.lan_ip is Some
            &&& runs[i].args.len() == 7
            &&& runs[i].args[3] == preflight.network.lan_ip->0
        }
    } by {
        if i < fw_runs.len() {
            assert(runs[i] == fw_runs[i]);
            assert(!preflight.firewall.required_ports_allowed);
            crate::session::lemma_runs_all_run(fw);
            assert(fw_runs[i] == fw[i]->request);
            assert(runs[i].args =~= seq!["allow"@, ufw_target(profile.required_ports[i].port, profile.required_ports[i].protocol)]);
        } else {
            let j = i - fw_runs.len();
            assert(runs[i] == rt_runs[j]);
            let ip = preflight.network.lan_ip->0;
            assert(preflight.network.lan_ip is Some);
            assert(preflight.router_automation.available && !preflight.router_automation.success);
            crate::session::lemma_runs_all_run(rt);
            assert(rt_runs[j] == rt[j]->request);
            assert(rt[j] == crate::session::mapping_run(profile, ip, profile.required_ports[j], "upnpc "@));
        }
    }
}

/// A fix never reports success over a change that failed: when an attempted
/// action failed, the final report is a local firewall block or asks for
/// manual router work.
pub proof fn apply_reports_no_fake_success(profile: ProfileView, platform: Seq<char>, outs: Seq<OutputView>)
    ensures
        match apply_step_of(profile, platform, outs) {
            StepView::Done(r) => (exists|i: int|
                0 <= i < r.actions_attempted.len() && (#[trigger] r.actions_attempted[i]).attempted
                    && !r.actions_attempted[i].success) ==> (r.classification
                == Classification::LocalFirewallBlock || r.classification
                == Classification::ManualRouterActionRequired),
            StepView::Run(_) => true,
        },
{
    if outs.len() >= inspection_len() {
        let preflight = report_of(profile, platform, outs);
        if !stops_before_mutation(preflight.classification) {
            let plan = apply_plan_of(profile, preflight);
            if planned_step(profile, platform, outs, plan) is None {
                let base = with_actions(second_report(profile, platform, outs, plan), session_records(outs, plan));
                let actions = base.actions_attempted;
                let fw = firewall_plan_of(profile, preflight);
                let n = crate::session::runs_of(plan).len() as int;
                crate::session::lemma_records_follow_plan(plan, outs.subrange(inspection_len(), inspection_len() + n));
                assert forall|i: int| 0 <= i < actions.len() && (#[trigger] actions[i]).attempted
                    && !actions[i].success implies crate::session::failed_action(actions[i], "ufw allow"@, false)
                    || crate::session::failed_action(actions[i], "upnpc "@, true) by {
                    reveal_strlit("ufw allow");
                    reveal_strlit("ufw allow ");
                    reveal_strlit("upnpc ");
                    if i < fw.len() {
                        assert(plan[i] == fw[i]);
                        if !preflight.firewall.required_ports_allowed {
                            let rule = ufw_target(profile.required_ports[i].port, profile.required_ports[i].protocol);
                            assert(actions[i].name == "ufw allow "@ + rule);
                            assert(("ufw allow "@ + rule).take(9) =~= "ufw allow"@);
                        }
                    } else {
                        assert(plan[i] == router_plan_of(profile, preflight)[i - fw.len()]);
                        if let Some(ip) = preflight.network.lan_ip {
                            if preflight.router_automation.available && !preflight.router_automation.success {
                                let k = i - fw.len();
                                let req = profile.required_ports[k];
                                let rest = uppercase(req.protocol) + " "@ + decimal(req.port as nat) + " -> "@ + ip + ":"@
                                    + decimal(req.port as nat);
                                assert(actions[i].name =~= "upnpc "@ + rest);
                                assert(("upnpc "@ + rest).take(6) =~= "upnpc "@);
                            }
                        }
                    }
                }
                if exists|i: int| 0 <= i < actions.len() && (#[trigger] actions[i]).attempted && !actions[i].success {
                    let i = choose|i: int| 0 <= i < actions.len() && (#[trigger] actions[i]).attempted && !actions[i].success;
                    if crate::session::failed_action(actions[i], "ufw allow"@, false) {
                        assert(any_failed(actions, "ufw allow"@, false));
                    } else {
                        assert(any_failed(actions, "upnpc "@, true));
                    }
                }
            }
        }
    }
}

/// Every final report of a fix carries the code of its classification.
pub proof fn apply_reports_carry_their_code(profile: ProfileView, platform: Seq<char>, outs: Seq<OutputView>)
    ensures
        match apply_step_of(profile, platform, outs) {
            StepView::Done(r) => r.error_code == r.classification.code(),
            StepView::Run(_) => true,
        },
{
}

/// A fix finishes: once it has the outputs of two inspections and of one
/// command per required port for each of UFW and the router, it reports.
pub proof fn apply_finishes(profile: ProfileView, platform: Seq<char>, outs: Seq<OutputView>)
    requires
        outs.len() >= 2 * inspection_len() + 2 * profile.required_ports.len(),
    ensures
        apply_step_of(profile, platform, outs) is Done,
{
    let preflight = report_of(profile, platform, outs);
    let fw = firewall_plan_of(profile, preflight);
    let rt = router_plan_of(profile, preflight);
    crate::session::lemma_runs_concat(fw, rt);
    crate::session::lemma_runs_at_most(fw);
    crate::session::lemma_runs_at_most(rt);
    if preflight.firewall.required_ports_allowed {
        crate::session::lemma_runs_single_skip(fw[0]);
        assert(fw =~= seq![fw[0]]);
    }
    if !(preflight.network.lan_ip is Some && preflight.router_automation.available
        && !preflight.router_automation.success) {
        crate::session::lemma_runs_single_skip(rt[0]);
        assert(rt =~= seq![rt[0]]);
    }
}

/// A fix never ends healthy unless its second inspection found every required
/// port mapped to the LAN address it detected.
pub proof fn apply_healthy_only_with_mappings_to_the_lan(
    profile: ProfileView,
    platform: Seq<char>,
    outs: Seq<OutputView>,
)
    ensures
        match apply_step_of(profile, platform, outs) {
            StepView::Done(r) => r.classification == Classification::Healthy ==> outs.len()
                >= inspection_len() && crate::inspect::mapped_to_detected_lan(
                profile,
                crate::session::second_outputs(outs, apply_plan_of(profile, report_of(profile, platform, outs))),
            ),
            StepView::Run(_) => true,
        },
{
    if outs.len() >= inspection_len() {
        let plan = apply_plan_of(profile, report_of(profile, platform, outs));
        crate::inspect::healthy_only_with_mappings_to_the_lan(
            profile,
            platform,
            crate::session::second_outputs(outs, plan),
        );
    }
}

/// The fix changes nothing exactly when the preflight finds a listener
/// missing or its port taken by another process: with the preflight
/// inspection in, it reports at once in those two cases and asks for a further
/// command in every other one, a suspected upstream restriction included.
pub proof fn apply_stops_only_for_an_unready_service(profile: ProfileView, platform: Seq<char>, outs: Seq<OutputView>)
    requires
        outs.len() == inspection_len(),
    ensures
        apply_step_of(profile, platform, outs) is Done <==> (report_of(profile, platform, outs).classification
            == Classification::MissingListener || report_of(profile, platform, outs).classification
            == Classification::PortConflict),
{
}

/// The outputs of the preflight inspection decide the preflight report,
/// whatever follows them.
proof fn lemma_preflight_stays(profile: ProfileView, platform: Seq<char>, outs: Seq<OutputView>, extra: Seq<OutputView>)
    requires
        outs.len() == inspection_len(),
    ensures
        report_of(profile, platform, outs + extra) == report_of(profile, platform, outs),
{
    let all = outs + extra;
    assert(all[0] == outs[0] && all[1] == outs[1] && all[2] == outs[2]);
    assert(all[3] == outs[3] && all[4] == outs[4] && all[5] == outs[5]);
}

/// When the service is ready, a LAN address was detected and the router
/// backend answered without the mappings, the fix runs, for every required
/// port, `upnpc -e <id> -a <lan> <port> <port> <PROTOCOL>`: right after the
/// preflight inspection and the UFW rules it adds, in the profile's order.
pub proof fn apply_maps_every_required_port(
    profile: ProfileView,
    platform: Seq<char>,
    outs: Seq<OutputView>,
    extra: Seq<OutputView>,
    k: int,
)
    requires
        outs.len() == inspection_len(),
        0 <= k < profile.required_ports.len(),
        report_of(profile, platform, outs).classification != Classification::MissingListener,
        report_of(profile, platform, outs).classification != Classification::PortConflict,
        report_of(profile, platform, outs).network.lan_ip is Some,
        report_of(profile, platform, outs).router_automation.available,
        !report_of(profile, platform, outs).router_automation.success,
        extra.len() == (if report_of(profile, platform, outs).firewall.required_ports_allowed {
            0
        } else {
            profile.required_ports.len() as int
        }) + k,
    ensures
        apply_step_of(profile, platform, outs + extra) == StepView::Run(
            crate::system::RequestView {
                program: "upnpc"@,
                args: seq![
                    "-e"@,
                    profile.id,
                    "-a"@,
                    report_of(profile, platform, outs).network.lan_ip->0,
                    decimal(profile.required_ports[k].port as nat),
                    decimal(profile.required_ports[k].port as nat),
                    uppercase(profile.required_ports[k].protocol),
                ],
            },
        ),
{
    lemma_preflight_stays(profile, platform, outs, extra);
    let pre = report_of(profile, platform, outs);
    let fw = firewall_plan_of(profile, pre);
    let rt = router_plan_of(profile, pre);
    crate::session::lemma_runs_concat(fw, rt);
    if pre.firewall.required_ports_allowed {
        crate::session::lemma_runs_single_skip(fw[0]);
        assert(fw =~= seq![fw[0]]);
    } else {
        crate::session::lemma_runs_all_run(fw);
    }
    crate::session::lemma_runs_all_run(rt);
    let runs = crate::session::runs_of(apply_plan_of(profile, pre));
    let fwc = crate::session::runs_of(fw).len() as int;
    assert(runs[fwc + k] == crate::session::runs_of(rt)[k]);
    assert(crate::session::runs_of(rt)[k] == rt[k]->request);
}

/// When the service is ready and the preflight found the UFW rules missing,
/// the fix first runs `ufw allow <port>/<protocol>` for every required port,
/// right after the preflight inspection and in the profile's order.
pub proof fn apply_allows_every_required_port(
    profile: ProfileView,
    platform: Seq<char>,
    outs: Seq<OutputView>,
    extra: Seq<OutputView>,
    k: int,
)
    requires
        outs.len() == inspection_len(),
        0 <= k < profile.required_ports.len(),
        report_of(profile, platform, outs).classification != Classification::MissingListener,
        report_of(profile, platform, outs).classification != Classification::PortConflict,
        !report_of(profile, platform, outs).firewall.required_ports_allowed,
        extra.len() == k,
    ensures
        apply_step_of(profile, platform, outs + extra) == StepView::Run(
            crate::system::RequestView {
                program: "ufw"@,
                args: seq![
                    "allow"@,
                    decimal(profile.required_ports[k].port as nat) + "/"@ + profile.required_ports[k].protocol,
                ],
            },
        ),
{
    lemma_preflight_stays(profile, platform, outs, extra);
    let pre = report_of(profile, platform, outs);
    let fw = firewall_plan_of(profile, pre);
    let rt = router_plan_of(profile, pre);
    crate::session::lemma_runs_concat(fw, rt);
    crate::session::lemma_runs_all_run(fw);
    let runs = crate::session::runs_of(apply_plan_of(profile, pre));
    assert(runs[k] == crate::session::runs_of(fw)[k]);
    assert(crate::session::runs_of(fw)[k] == fw[k]->request);
}

} // verus!
