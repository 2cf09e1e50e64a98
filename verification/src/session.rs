//! What `apply` and `renew` share: a preflight inspection, a plan of actions
//! decided from it, the commands the plan runs, and a second inspection.
//! The caller runs each command the session asks for and hands back its
//! output; the outputs so far are the whole state of a session.
use vstd::prelude::*;
use crate::inspect::{inspection_command, inspection_len, inspection_request, report_from_outputs, report_of, request};
use crate::model::{ActionRecord, ActionView, InspectionReport, ReportView, action_views};
use crate::profile::{PortRequirement, PortRequirementView, Profile, ProfileView};
use crate::system::{CommandOutput, CommandRequest, OutputView, RequestView, output_views};
use crate::text::{chars_of, starts_with, starts_with_exec, decimal, decimal_string, push_decimal, push_str, string_from, to_uppercase, uppercase};

verus! {

/// One entry of a plan: an action recorded as skipped, or a command to run
/// under a name.
#[derive(Debug)]
pub enum PlannedAction {
    Skip(ActionRecord),
    Run { name: String, request: CommandRequest },
}

pub enum PlannedView {
    Skip(ActionView),
    Run { name: Seq<char>, request: RequestView },
}

impl View for PlannedAction {
    type V = PlannedView;

    open spec fn view(&self) -> PlannedView {
        match self {
            PlannedAction::Skip(a) => PlannedView::Skip(a@),
            PlannedAction::Run { name, request } => PlannedView::Run { name: name@, request: request@ },
        }
    }
}

pub open spec fn planned_views(v: Seq<PlannedAction>) -> Seq<PlannedView> {
    v.map_values(|p: PlannedAction| p@)
}

/// A skipped action.
pub open spec fn skipped(name: Seq<char>, success: bool, details: Seq<char>) -> PlannedView {
    PlannedView::Skip(ActionView { name, attempted: false, success, details })
}

/// The commands a plan runs, in order.
pub open spec fn runs_of(plan: Seq<PlannedView>) -> Seq<RequestView>
    decreases plan.len(),
{
    if plan.len() == 0 {
        Seq::empty()
    } else {
        match plan.last() {
            PlannedView::Run { name, request } => runs_of(plan.drop_last()).push(request),
            PlannedView::Skip(_) => runs_of(plan.drop_last()),
        }
    }
}

/// The record of a command that ran: its output when it succeeded, its error
/// output when it failed.
pub open spec fn ran(name: Seq<char>, out: OutputView) -> ActionView {
    ActionView {
        name,
        attempted: true,
        success: out.success,
        details: if out.success {
            out.stdout
        } else {
            out.stderr
        },
    }
}

/// The records of a plan, given the outputs of its commands in order.
pub open spec fn records_of(plan: Seq<PlannedView>, results: Seq<OutputView>) -> Seq<ActionView>
    decreases plan.len(),
{
    if plan.len() == 0 {
        Seq::empty()
    } else {
        match plan.last() {
            PlannedView::Run { name, request } => records_of(plan.drop_last(), results.drop_last()).push(
                ran(name, results.last()),
            ),
            PlannedView::Skip(a) => records_of(plan.drop_last(), results).push(a),
        }
    }
}

/// A report with its actions replaced.
pub open spec fn with_actions(r: ReportView, actions: Seq<ActionView>) -> ReportView {
    ReportView { actions_attempted: actions, ..r }
}

/// The command that maps `port` on the router to `ip` under the protocol
/// name `protocol`, named with `label` in front.
pub open spec fn mapping_entry_of(
    profile: ProfileView,
    ip: Seq<char>,
    port: u16,
    protocol: Seq<char>,
    label: Seq<char>,
) -> PlannedView {
    let port_text = decimal(port as nat);
    PlannedView::Run {
        name: label + protocol + " "@ + port_text + " -> "@ + ip + ":"@ + port_text,
        request: request("upnpc"@, seq!["-e"@, profile.id, "-a"@, ip, port_text, port_text, protocol]),
    }
}

/// The command that maps one required port on the router to `ip`, with the
/// protocol in upper case.
pub open spec fn mapping_run(
    profile: ProfileView,
    ip: Seq<char>,
    requirement: PortRequirementView,
    label: Seq<char>,
) -> PlannedView {
    mapping_entry_of(profile, ip, requirement.port, uppercase(requirement.protocol), label)
}

/// The router mapping commands for all required ports.
pub open spec fn mapping_runs(profile: ProfileView, ip: Seq<char>, label: Seq<char>) -> Seq<PlannedView> {
    Seq::new(
        profile.required_ports.len(),
        |k: int| mapping_run(profile, ip, profile.required_ports[k], label),
    )
}

/// The next command of a session of `plan`, given all outputs so far (the
/// preflight inspection first): one of the plan's commands, then one of the
/// second inspection's, then none.
pub open spec fn planned_step(
    profile: ProfileView,
    platform: Seq<char>,
    outs: Seq<OutputView>,
    plan: Seq<PlannedView>,
) -> Option<RequestView> {
    let k = runs_of(plan).len() as int;
    let n = inspection_len();
    if outs.len() < n + k {
        Some(runs_of(plan)[outs.len() - n])
    } else if outs.len() < 2 * n + k {
        Some(inspection_request(outs.len() - n - k))
    } else {
        None
    }
}

/// The second inspection of a session of `plan`.
pub open spec fn second_report(
    profile: ProfileView,
    platform: Seq<char>,
    outs: Seq<OutputView>,
    plan: Seq<PlannedView>,
) -> ReportView {
    report_of(profile, platform, second_outputs(outs, plan))
}

/// The outputs of the second inspection of a session of `plan`.
pub open spec fn second_outputs(outs: Seq<OutputView>, plan: Seq<PlannedView>) -> Seq<OutputView> {
    let k = runs_of(plan).len() as int;
    let n = inspection_len();
    outs.subrange(n + k, 2 * n + k)
}

/// The records of a session of `plan`.
pub open spec fn session_records(outs: Seq<OutputView>, plan: Seq<PlannedView>) -> Seq<ActionView> {
    let k = runs_of(plan).len() as int;
    let n = inspection_len();
    records_of(plan, outs.subrange(n, n + k))
}

// ---------------------------------------------------------------------------
// Copies
// ---------------------------------------------------------------------------

pub fn copy_string(s: &String) -> (res: String)
    ensures
        res@ == s@,
{
    s.clone()
}

pub fn copy_request(r: &CommandRequest) -> (res: CommandRequest)
    ensures
        res@ == r@,
{
    let mut args: Vec<String> = Vec::new();
    let n = r.args.len();
    for i in 0..n
        invariant
            n == r.args@.len(),
            args.deep_view() == r.args.deep_view().take(i as int),
    {
        let ghost before = args.deep_view();
        args.push(copy_string(&r.args[i]));
        assert(args.deep_view() =~= before.push(r.args@[i as int]@));
        assert(r.args.deep_view().take(i + 1) =~= r.args.deep_view().take(i as int).push(
            r.args@[i as int]@,
        ));
    }
    assert(r.args.deep_view().take(n as int) =~= r.args.deep_view());
    CommandRequest { program: copy_string(&r.program), args }
}

pub fn copy_action(a: &ActionRecord) -> (res: ActionRecord)
    ensures
        res@ == a@,
{
    ActionRecord {
        name: copy_string(&a.name),
        attempted: a.attempted,
        success: a.success,
        details: copy_string(&a.details),
    }
}

pub fn skip_action(name: &str, success: bool, details: &str) -> (res: PlannedAction)
    ensures
        res@ == skipped(name@, success, details@),
{
    PlannedAction::Skip(
        ActionRecord {
            name: string_from(name),
            attempted: false,
            success,
            details: string_from(details),
        },
    )
}

// ---------------------------------------------------------------------------
// Plans
// ---------------------------------------------------------------------------

/// The command that maps `port` on the router to `ip` under the protocol
/// name `protocol`.
pub fn mapping_entry(profile: &Profile, ip: &String, port: u16, protocol: &str, label: &str) -> (res: PlannedAction)
    ensures
        res@ == mapping_entry_of(profile@, ip@, port, protocol@, label@),
{
    let mut name = string_from(label);
    push_str(&mut name, protocol);
    push_str(&mut name, " ");
    push_decimal(&mut name, port as u64);
    push_str(&mut name, " -> ");
    push_str(&mut name, ip.as_str());
    push_str(&mut name, ":");
    push_decimal(&mut name, port as u64);
    let mut args: Vec<String> = Vec::new();
    args.push(string_from("-e"));
    args.push(string_from(profile.id));
    args.push(string_from("-a"));
    args.push(copy_string(ip));
    args.push(decimal_string(port as u64));
    args.push(decimal_string(port as u64));
    args.push(string_from(protocol));
    let ghost port_text = decimal(port as nat);
    assert(args.deep_view()[4] == port_text);
    assert(args.deep_view() =~= seq!["-e"@, profile@.id, "-a"@, ip@, port_text, port_text, protocol@]);
    PlannedAction::Run { name, request: CommandRequest { program: string_from("upnpc"), args } }
}

/// The router mapping command for one required port.
pub fn mapping_action(
    profile: &Profile,
    ip: &String,
    requirement: &PortRequirement,
    label: &str,
) -> (res: PlannedAction)
    ensures
        res@ == mapping_run(profile@, ip@, requirement@, label@),
{
    let protocol = to_uppercase(requirement.protocol);
    mapping_entry(profile, ip, requirement.port, protocol.as_str(), label)
}

/// The router mapping commands for all required ports.
pub fn mapping_actions(profile: &Profile, ip: &String, label: &str) -> (res: Vec<PlannedAction>)
    ensures
        planned_views(res@) == mapping_runs(profile@, ip@, label@),
{
    let n = profile.required_ports.len();
    let mut res: Vec<PlannedAction> = Vec::new();
    for k in 0..n
        invariant
            n == profile.required_ports@.len(),
            planned_views(res@) == mapping_runs(profile@, ip@, label@).take(k as int),
    {
        let action = mapping_action(profile, ip, &profile.required_ports[k], label);
        let ghost before = planned_views(res@);
        res.push(action);
        assert(planned_views(res@) =~= before.push(action@));
        assert(planned_views(res@) =~= mapping_runs(profile@, ip@, label@).take(k + 1));
    }
    assert(mapping_runs(profile@, ip@, label@).take(n as int) =~= mapping_runs(profile@, ip@, label@));
    res
}

/// The commands a plan runs, copied out in order.
pub fn runs_list(plan: &Vec<PlannedAction>) -> (res: Vec<CommandRequest>)
    ensures
        res@.map_values(|r: CommandRequest| r@) == runs_of(planned_views(plan@)),
{
    let n = plan.len();
    let mut res: Vec<CommandRequest> = Vec::new();
    let ghost pv = planned_views(plan@);
    for i in 0..n
        invariant
            n == plan@.len(),
            pv == planned_views(plan@),
            res@.map_values(|r: CommandRequest| r@) == runs_of(pv.take(i as int)),
    {
        assert(pv.take(i + 1).drop_last() =~= pv.take(i as int));
        match &plan[i] {
            PlannedAction::Run { name, request } => {
                let ghost before = res@.map_values(|r: CommandRequest| r@);
                let copy = copy_request(request);
                res.push(copy);
                assert(res@.map_values(|r: CommandRequest| r@) =~= before.push(copy@));
            },
            PlannedAction::Skip(_) => {},
        }
    }
    assert(pv.take(n as int) =~= pv);
    res
}

/// The records of a plan, given the outputs of its commands from `at` on.
pub fn records_from(plan: &Vec<PlannedAction>, outputs: &Vec<CommandOutput>, at: usize) -> (res: Vec<ActionRecord>)
    requires
        at + runs_of(planned_views(plan@)).len() <= outputs.len(),
    ensures
        action_views(res@) == records_of(
            planned_views(plan@),
            output_views(outputs@).subrange(at as int, at + runs_of(planned_views(plan@)).len()),
        ),
{
    let n = plan.len();
    let ghost pv = planned_views(plan@);
    let ghost ov = output_views(outputs@);
    let mut res: Vec<ActionRecord> = Vec::new();
    let mut j: usize = at;
    for i in 0..n
        invariant
            n == plan@.len(),
            pv == planned_views(plan@),
            ov == output_views(outputs@),
            at + runs_of(pv).len() <= outputs.len(),
            j == at + runs_of(pv.take(i as int)).len(),
            runs_of(pv.take(i as int)).len() <= runs_of(pv).len(),
            action_views(res@) == records_of(pv.take(i as int), ov.subrange(at as int, j as int)),
    {
        assert(pv.take(i + 1).drop_last() =~= pv.take(i as int));
        proof {
            lemma_runs_prefix(pv, i as int + 1);
        }
        let ghost before = action_views(res@);
        match &plan[i] {
            PlannedAction::Run { name, request } => {
                let out = &outputs[j];
                let record = ActionRecord {
                    name: copy_string(name),
                    attempted: true,
                    success: out.success,
                    details: if out.success {
                        copy_string(&out.stdout)
                    } else {
                        copy_string(&out.stderr)
                    },
                };
                res.push(record);
                assert(ov.subrange(at as int, j + 1).drop_last() =~= ov.subrange(at as int, j as int));
                assert(action_views(res@) =~= before.push(record@));
                j = j + 1;
            },
            PlannedAction::Skip(a) => {
                let record = copy_action(a);
                res.push(record);
                assert(action_views(res@) =~= before.push(record@));
            },
        }
    }
    assert(pv.take(n as int) =~= pv);
    res
}

/// A plan's commands never outnumber those of a longer plan that starts with it.
pub proof fn lemma_runs_prefix(plan: Seq<PlannedView>, i: int)
    requires
        0 <= i <= plan.len(),
    ensures
        runs_of(plan.take(i)).len() <= runs_of(plan).len(),
    decreases plan.len() - i,
{
    if i < plan.len() {
        lemma_runs_prefix(plan, i + 1);
        assert(plan.take(i + 1).drop_last() =~= plan.take(i));
    } else {
        assert(plan.take(i) =~= plan);
    }
}

/// What a session of `plan` needs after the preflight inspection: the next
/// command, or the second inspection with the plan's records.
pub fn run_plan(
    profile: &Profile,
    platform: &str,
    outputs: &Vec<CommandOutput>,
    plan: &Vec<PlannedAction>,
) -> (res: Result<CommandRequest, (InspectionReport, Vec<ActionRecord>)>)
    requires
        outputs.len() >= inspection_len(),
    ensures
        match res {
            Ok(r) => planned_step(profile@, platform@, output_views(outputs@), planned_views(plan@))
                == Some(r@),
            Err((report, records)) => {
                &&& planned_step(profile@, platform@, output_views(outputs@), planned_views(plan@))
                    is None
                &&& report@ == second_report(
                    profile@,
                    platform@,
                    output_views(outputs@),
                    planned_views(plan@),
                )
                &&& action_views(records@) == session_records(output_views(outputs@), planned_views(plan@))
            },
        },
{
    let mut runs = runs_list(plan);
    let k = runs.len();
    let len = outputs.len();
    if len - 6 < k {
        let r = runs.remove(len - 6);
        return Ok(r);
    }
    if len - k < 12 {
        return Ok(inspection_command(len - 6 - k));
    }
    let report = report_from_outputs(profile, platform, outputs, 6 + k);
    let records = records_from(plan, outputs, 6);
    Err((report, records))
}

/// An action under a name that starts with `prefix`, that did not succeed,
/// and, where `need_attempted` holds, was attempted.
pub open spec fn failed_action(a: ActionView, prefix: Seq<char>, need_attempted: bool) -> bool {
    &&& starts_with(a.name, prefix)
    &&& (!need_attempted || a.attempted)
    &&& !a.success
}

pub open spec fn any_failed(actions: Seq<ActionView>, prefix: Seq<char>, need_attempted: bool) -> bool {
    exists|i: int| 0 <= i < actions.len() && failed_action(#[trigger] actions[i], prefix, need_attempted)
}

/// Whether some action is a failure in the sense of `failed_action`.
pub fn has_failed_action(actions: &Vec<ActionRecord>, prefix: &str, need_attempted: bool) -> (res: bool)
    ensures
        res == any_failed(action_views(actions@), prefix@, need_attempted),
{
    let p = chars_of(prefix);
    let n = actions.len();
    let ghost av = action_views(actions@);
    for i in 0..n
        invariant
            n == actions@.len(),
            av == action_views(actions@),
            p@ == prefix@,
            forall|j: int| 0 <= j < i ==> !failed_action(#[trigger] av[j], prefix@, need_attempted),
    {
        let a = &actions[i];
        let name = chars_of(a.name.as_str());
        if starts_with_exec(&name, &p) && (!need_attempted || a.attempted) && !a.success {
            assert(failed_action(av[i as int], prefix@, need_attempted));
            return true;
        }
    }
    false
}

/// The commands of two plans run one after the other are the commands of the
/// joined plan.
pub proof fn lemma_runs_concat(a: Seq<PlannedView>, b: Seq<PlannedView>)
    ensures
        runs_of(a + b) == runs_of(a) + runs_of(b),
    decreases b.len(),
{
    if b.len() == 0 {
        assert(a + b =~= a);
        assert(runs_of(a) + runs_of(b) =~= runs_of(a));
    } else {
        lemma_runs_concat(a, b.drop_last());
        assert((a + b).drop_last() =~= a + b.drop_last());
        match b.last() {
            PlannedView::Run { name, request } => {
                assert(runs_of(a) + runs_of(b) =~= (runs_of(a) + runs_of(b.drop_last())).push(request));
            },
            PlannedView::Skip(_) => {},
        }
    }
}

/// Every command of a plan made of commands only is one of them, in order.
pub proof fn lemma_runs_all_run(plan: Seq<PlannedView>)
    requires
        forall|i: int| 0 <= i < plan.len() ==> (#[trigger] plan[i]) is Run,
    ensures
        runs_of(plan).len() == plan.len(),
        forall|i: int| 0 <= i < plan.len() ==> #[trigger] runs_of(plan)[i] == plan[i]->request,
    decreases plan.len(),
{
    if plan.len() > 0 {
        assert forall|i: int| 0 <= i < plan.drop_last().len() implies (#[trigger] plan.drop_last()[i]) is Run by {
            assert(plan.drop_last()[i] == plan[i]);
        }
        lemma_runs_all_run(plan.drop_last());
        assert(plan[plan.len() - 1] is Run);
    }
}

/// Record `i` stands for entry `i` of the plan: a skipped entry as it is, a
/// command as an attempt under the command's name.
pub proof fn lemma_records_follow_plan(plan: Seq<PlannedView>, results: Seq<OutputView>)
    ensures
        records_of(plan, results).len() == plan.len(),
        forall|i: int|
            0 <= i < plan.len() ==> match plan[i] {
                PlannedView::Skip(a) => #[trigger] records_of(plan, results)[i] == a,
                PlannedView::Run { name, request } => records_of(plan, results)[i].name == name
                    && records_of(plan, results)[i].attempted,
            },
    decreases plan.len(),
{
    if plan.len() > 0 {
        match plan.last() {
            PlannedView::Run { name, request } => {
                lemma_records_follow_plan(plan.drop_last(), results.drop_last());
            },
            PlannedView::Skip(a) => {
                lemma_records_follow_plan(plan.drop_last(), results);
            },
        }
        assert forall|i: int| 0 <= i < plan.len() - 1 implies plan.drop_last()[i] == plan[i] by {}
    }
}

/// A plan of one skipped entry runs nothing.
pub proof fn lemma_runs_single_skip(p: PlannedView)
    requires
        p is Skip,
    ensures
        runs_of(seq![p]) == Seq::<RequestView>::empty(),
{
    let one = seq![p];
    assert(one.drop_last() =~= Seq::<PlannedView>::empty());
    assert(one.last() == p);
    assert(runs_of(one.drop_last()) =~= Seq::<RequestView>::empty());
    assert(runs_of(one) == runs_of(one.drop_last()));
}

/// A plan runs no more commands than it has entries.
pub proof fn lemma_runs_at_most(plan: Seq<PlannedView>)
    ensures
        runs_of(plan).len() <= plan.len(),
    decreases plan.len(),
{
    if plan.len() > 0 {
        lemma_runs_at_most(plan.drop_last());
    }
}

} // verus!
