//! The report that every command produces, its fixed classification set, and
//! the views that contracts speak of.
use vstd::prelude::*;
use crate::json::{
    fields_value, flat_object, flat_objects, members_value, parse_json, push_document_member, push_field, render,
    render_document, rendered_json_reads_back, JsonMember, JsonScalar, JsonValue,
};
use crate::text::{chars_of, digit_char, push_char, push_str, string_from};

verus! {

#[derive(Debug, Clone, Copy, PartialEq, Eq, Structural)]
pub enum Classification {
    Healthy,
    MissingListener,
    PortConflict,
    LocalFirewallBlock,
    ManualRouterActionRequired,
    RouterAutomationUnsupported,
    LikelyUpstreamRestriction,
}

impl Classification {
    /// The stable machine-readable code of a classification.
    pub open spec fn code(self) -> Seq<char> {
        match self {
            Classification::Healthy => "healthy"@,
            Classification::MissingListener => "missing_listener"@,
            Classification::PortConflict => "port_conflict"@,
            Classification::LocalFirewallBlock => "local_firewall_block"@,
            Classification::ManualRouterActionRequired => "manual_router_action_required"@,
            Classification::RouterAutomationUnsupported => "router_automation_unsupported"@,
            Classification::LikelyUpstreamRestriction => "likely_upstream_restriction"@,
        }
    }

    pub fn error_code(self) -> (res: &'static str)
        ensures
            res@ == self.code(),
    {
        match self {
            Classification::Healthy => "healthy",
            Classification::MissingListener => "missing_listener",
            Classification::PortConflict => "port_conflict",
            Classification::LocalFirewallBlock => "local_firewall_block",
            Classification::ManualRouterActionRequired => "manual_router_action_required",
            Classification::RouterAutomationUnsupported => "router_automation_unsupported",
            Classification::LikelyUpstreamRestriction => "likely_upstream_restriction",
        }
    }
}

#[derive(Debug)]
pub struct PortCheck {
    pub port: u16,
    pub protocol: &'static str,
    pub listening: bool,
    pub occupied_by_other_process: bool,
    pub details: String,
}

pub struct PortCheckView {
    pub port: u16,
    pub protocol: Seq<char>,
    pub listening: bool,
    pub occupied_by_other_process: bool,
    pub details: Seq<char>,
}

impl View for PortCheck {
    type V = PortCheckView;

    open spec fn view(&self) -> PortCheckView {
        PortCheckView {
            port: self.port,
            protocol: self.protocol@,
            listening: self.listening,
            occupied_by_other_process: self.occupied_by_other_process,
            details: self.details@,
        }
    }
}

#[derive(Debug)]
pub struct FirewallStatus {
    pub supported: bool,
    pub ufw_installed: bool,
    pub ufw_active: bool,
    pub required_ports_allowed: bool,
    pub details: String,
}

pub struct FirewallView {
    pub supported: bool,
    pub ufw_installed: bool,
    pub ufw_active: bool,
    pub required_ports_allowed: bool,
    pub details: Seq<char>,
}

impl View for FirewallStatus {
    type V = FirewallView;

    open spec fn view(&self) -> FirewallView {
        FirewallView {
            supported: self.supported,
            ufw_installed: self.ufw_installed,
            ufw_active: self.ufw_active,
            required_ports_allowed: self.required_ports_allowed,
            details: self.details@,
        }
    }
}

#[derive(Debug)]
pub struct RouterAutomationStatus {
    pub backend: &'static str,
    pub available: bool,
    pub attempted: bool,
    pub success: bool,
    pub external_ip: Option<String>,
    pub details: String,
}

pub struct RouterView {
    pub backend: Seq<char>,
    pub available: bool,
    pub attempted: bool,
    pub success: bool,
    pub external_ip: Option<Seq<char>>,
    pub details: Seq<char>,
}

impl View for RouterAutomationStatus {
    type V = RouterView;

    open spec fn view(&self) -> RouterView {
        RouterView {
            backend: self.backend@,
            available: self.available,
            attempted: self.attempted,
            success: self.success,
            external_ip: self.external_ip.deep_view(),
            details: self.details@,
        }
    }
}

#[derive(Debug)]
pub struct NetworkSnapshot {
    pub platform: String,
    pub lan_ip: Option<String>,
    pub default_gateway: Option<String>,
    pub public_ip: Option<String>,
    pub likely_cgnat_or_double_nat: bool,
    pub lan_ip_drifted: bool,
    pub gateway_drifted: bool,
    pub details: String,
}

pub struct NetworkView {
    pub platform: Seq<char>,
    pub lan_ip: Option<Seq<char>>,
    pub default_gateway: Option<Seq<char>>,
    pub public_ip: Option<Seq<char>>,
    pub likely_cgnat_or_double_nat: bool,
    pub lan_ip_drifted: bool,
    pub gateway_drifted: bool,
    pub details: Seq<char>,
}

impl View for NetworkSnapshot {
    type V = NetworkView;

    open spec fn view(&self) -> NetworkView {
        NetworkView {
            platform: self.platform@,
            lan_ip: self.lan_ip.deep_view(),
            default_gateway: self.default_gateway.deep_view(),
            public_ip: self.public_ip.deep_view(),
            likely_cgnat_or_double_nat: self.likely_cgnat_or_double_nat,
            lan_ip_drifted: self.lan_ip_drifted,
            gateway_drifted: self.gateway_drifted,
            details: self.details@,
        }
    }
}

#[derive(Debug)]
pub struct ActionRecord {
    pub name: String,
    pub attempted: bool,
    pub success: bool,
    pub details: String,
}

pub struct ActionView {
    pub name: Seq<char>,
    pub attempted: bool,
    pub success: bool,
    pub details: Seq<char>,
}

impl View for ActionRecord {
    type V = ActionView;

    open spec fn view(&self) -> ActionView {
        ActionView {
            name: self.name@,
            attempted: self.attempted,
            success: self.success,
            details: self.details@,
        }
    }
}

#[derive(Debug)]
pub struct InspectionReport {
    pub profile: String,
    pub classification: Classification,
    pub remediation_message: String,
    pub error_code: String,
    pub listeners: Vec<PortCheck>,
    pub firewall: FirewallStatus,
    pub network: NetworkSnapshot,
    pub router_automation: RouterAutomationStatus,
    pub actions_attempted: Vec<ActionRecord>,
}

pub struct ReportView {
    pub profile: Seq<char>,
    pub classification: Classification,
    pub remediation_message: Seq<char>,
    pub error_code: Seq<char>,
    pub listeners: Seq<PortCheckView>,
    pub firewall: FirewallView,
    pub network: NetworkView,
    pub router_automation: RouterView,
    pub actions_attempted: Seq<ActionView>,
}

pub open spec fn port_check_views(v: Seq<PortCheck>) -> Seq<PortCheckView> {
    v.map_values(|p: PortCheck| p@)
}

pub open spec fn action_views(v: Seq<ActionRecord>) -> Seq<ActionView> {
    v.map_values(|a: ActionRecord| a@)
}

impl View for InspectionReport {
    type V = ReportView;

    open spec fn view(&self) -> ReportView {
        ReportView {
            profile: self.profile@,
            classification: self.classification,
            remediation_message: self.remediation_message@,
            error_code: self.error_code@,
            listeners: port_check_views(self.listeners@),
            firewall: self.firewall@,
            network: self.network@,
            router_automation: self.router_automation@,
            actions_attempted: action_views(self.actions_attempted@),
        }
    }
}

// ---------------------------------------------------------------------------
// JSON
// ---------------------------------------------------------------------------

/// The lowercase hexadecimal digit of a number below sixteen.
pub open spec fn hex_digit(n: nat) -> char {
    if n < 10 {
        digit_char(n)
    } else if n == 10 {
        'a'
    } else if n == 11 {
        'b'
    } else if n == 12 {
        'c'
    } else if n == 13 {
        'd'
    } else if n == 14 {
        'e'
    } else {
        'f'
    }
}

/// How one character stands inside a JSON string: quote and backslash
/// escaped, line feed, carriage return and tab by their short escapes, every
/// other control character as `\u00XX`, everything else as it is.
pub open spec fn escape_char(c: char) -> Seq<char> {
    if c == '\\' {
        seq!['\\', '\\']
    } else if c == '"' {
        seq!['\\', '"']
    } else if c == '\n' {
        seq!['\\', 'n']
    } else if c == '\r' {
        seq!['\\', 'r']
    } else if c == '\t' {
        seq!['\\', 't']
    } else if (c as u32) < 0x20 {
        seq!['\\', 'u', '0', '0', hex_digit((c as u32 / 16) as nat), hex_digit((c as u32 % 16) as nat)]
    } else {
        seq![c]
    }
}

pub open spec fn escape_json_text(s: Seq<char>) -> Seq<char>
    decreases s.len(),
{
    if s.len() == 0 {
        Seq::empty()
    } else {
        escape_json_text(s.drop_last()) + escape_char(s.last())
    }
}

pub open spec fn option_json(value: Option<Seq<char>>) -> Seq<char> {
    match value {
        Some(v) => "\""@ + escape_json_text(v) + "\""@,
        None => "null"@,
    }
}

pub open spec fn text_or_null(value: Option<Seq<char>>) -> JsonValue {
    match value {
        Some(t) => JsonValue::Text(t),
        None => JsonValue::Null,
    }
}

/// One listener check as a JSON object.
pub open spec fn listener_value(l: PortCheckView) -> JsonValue {
    JsonValue::Object(
        seq![
            ("port"@, JsonValue::Number(l.port as nat)),
            ("protocol"@, JsonValue::Text(l.protocol)),
            ("listening"@, JsonValue::Bool(l.listening)),
            ("occupied_by_other_process"@, JsonValue::Bool(l.occupied_by_other_process)),
            ("details"@, JsonValue::Text(l.details)),
        ],
    )
}

/// One action record as a JSON object.
pub open spec fn action_value(a: ActionView) -> JsonValue {
    JsonValue::Object(
        seq![
            ("name"@, JsonValue::Text(a.name)),
            ("attempted"@, JsonValue::Bool(a.attempted)),
            ("success"@, JsonValue::Bool(a.success)),
            ("details"@, JsonValue::Text(a.details)),
        ],
    )
}

pub open spec fn firewall_value(f: FirewallView) -> JsonValue {
    JsonValue::Object(
        seq![
            ("supported"@, JsonValue::Bool(f.supported)),
            ("ufw_installed"@, JsonValue::Bool(f.ufw_installed)),
            ("ufw_active"@, JsonValue::Bool(f.ufw_active)),
            ("required_ports_allowed"@, JsonValue::Bool(f.required_ports_allowed)),
            ("details"@, JsonValue::Text(f.details)),
        ],
    )
}

pub open spec fn network_value(n: NetworkView) -> JsonValue {
    JsonValue::Object(
        seq![
            ("platform"@, JsonValue::Text(n.platform)),
            ("lan_ip"@, text_or_null(n.lan_ip)),
            ("default_gateway"@, text_or_null(n.default_gateway)),
            ("public_ip"@, text_or_null(n.public_ip)),
            ("likely_cgnat_or_double_nat"@, JsonValue::Bool(n.likely_cgnat_or_double_nat)),
            ("lan_ip_drifted"@, JsonValue::Bool(n.lan_ip_drifted)),
            ("gateway_drifted"@, JsonValue::Bool(n.gateway_drifted)),
            ("details"@, JsonValue::Text(n.details)),
        ],
    )
}

pub open spec fn router_value(r: RouterView) -> JsonValue {
    JsonValue::Object(
        seq![
            ("backend"@, JsonValue::Text(r.backend)),
            ("available"@, JsonValue::Bool(r.available)),
            ("attempted"@, JsonValue::Bool(r.attempted)),
            ("success"@, JsonValue::Bool(r.success)),
            ("external_ip"@, text_or_null(r.external_ip)),
            ("details"@, JsonValue::Text(r.details)),
        ],
    )
}

pub open spec fn listeners_value(ls: Seq<PortCheckView>) -> Seq<JsonValue> {
    ls.map_values(|l: PortCheckView| listener_value(l))
}

pub open spec fn actions_value(actions: Seq<ActionView>) -> Seq<JsonValue> {
    actions.map_values(|a: ActionView| action_value(a))
}

/// The report as a JSON object: its fields in order, texts as strings, absent
/// addresses as null, the classification by its code, and the listener checks
/// and actions as arrays of objects, one per entry.
pub open spec fn report_value(r: ReportView) -> JsonValue {
    JsonValue::Object(
        seq![
            ("profile"@, JsonValue::Text(r.profile)),
            ("classification"@, JsonValue::Text(r.classification.code())),
            ("remediation_message"@, JsonValue::Text(r.remediation_message)),
            ("error_code"@, JsonValue::Text(r.error_code)),
            ("listeners"@, JsonValue::Array(listeners_value(r.listeners))),
            ("firewall"@, firewall_value(r.firewall)),
            ("network"@, network_value(r.network)),
            ("router_automation"@, router_value(r.router_automation)),
            ("actions_attempted"@, JsonValue::Array(actions_value(r.actions_attempted))),
        ],
    )
}

/// The lowercase hexadecimal digit of a number below sixteen.
fn hex_char(n: u32) -> (res: char)
    requires
        n < 16,
    ensures
        res == hex_digit(n as nat),
{
    if n == 0 { '0' }
    else if n == 1 { '1' }
    else if n == 2 { '2' }
    else if n == 3 { '3' }
    else if n == 4 { '4' }
    else if n == 5 { '5' }
    else if n == 6 { '6' }
    else if n == 7 { '7' }
    else if n == 8 { '8' }
    else if n == 9 { '9' }
    else if n == 10 { 'a' }
    else if n == 11 { 'b' }
    else if n == 12 { 'c' }
    else if n == 13 { 'd' }
    else if n == 14 { 'e' }
    else { 'f' }
}

/// Appends one character escaped for a JSON string.
fn push_escaped_char(s: &mut String, c: char)
    ensures
        final(s)@ == old(s)@ + escape_char(c),
{
    let u = c as u32;
    if c == '\\' {
        push_char(s, '\\');
        push_char(s, '\\');
    } else if c == '"' {
        push_char(s, '\\');
        push_char(s, '"');
    } else if c == '\n' {
        push_char(s, '\\');
        push_char(s, 'n');
    } else if c == '\r' {
        push_char(s, '\\');
        push_char(s, 'r');
    } else if c == '\t' {
        push_char(s, '\\');
        push_char(s, 't');
    } else if u < 0x20 {
        push_char(s, '\\');
        push_char(s, 'u');
        push_char(s, '0');
        push_char(s, '0');
        push_char(s, hex_char(u / 16));
        push_char(s, hex_char(u % 16));
    } else {
        push_char(s, c);
    }
    assert(final(s)@ =~= old(s)@ + escape_char(c));
}

/// Appends a text escaped for a JSON string.
pub fn push_escaped(s: &mut String, value: &str)
    ensures
        final(s)@ == old(s)@ + escape_json_text(value@),
{
    let cs = chars_of(value);
    let n = cs.len();
    for i in 0..n
        invariant
            n == cs@.len(),
            cs@ == value@,
            s@ == old(s)@ + escape_json_text(cs@.take(i as int)),
    {
        let c = cs[i];
        let ghost before = s@;
        push_escaped_char(s, c);
        proof {
            assert(cs@.take(i + 1).drop_last() =~= cs@.take(i as int));
            assert(s@ =~= before + escape_char(c));
        }
    }
    assert(cs@.take(n as int) =~= cs@);
}

/// A text escaped for a JSON string.
pub fn escape_json(value: &str) -> (res: String)
    ensures
        res@ == escape_json_text(value@),
{
    let mut s = String::new();
    push_escaped(&mut s, value);
    assert(Seq::<char>::empty() + escape_json_text(value@) =~= escape_json_text(value@));
    s
}

/// An optional text as a JSON string or `null`.
pub fn option_to_json(value: &Option<String>) -> (res: String)
    ensures
        res@ == option_json(value.deep_view()),
{
    match value {
        Some(v) => {
            let mut s = string_from("\"");
            push_escaped(&mut s, v.as_str());
            push_str(&mut s, "\"");
            s
        },
        None => string_from("null"),
    }
}

fn text_scalar(t: &str) -> (res: JsonScalar)
    ensures
        res@ == JsonValue::Text(t@),
{
    JsonScalar::Text(string_from(t))
}

fn optional_scalar(value: &Option<String>) -> (res: JsonScalar)
    ensures
        res@ == text_or_null(value.deep_view()),
{
    match value {
        Some(t) => text_scalar(t.as_str()),
        None => JsonScalar::Null,
    }
}

fn listener_fields(l: &PortCheck) -> (res: Vec<(String, JsonScalar)>)
    ensures
        flat_object(res@) == listener_value(l@),
{
    let mut fs: Vec<(String, JsonScalar)> = Vec::new();
    assert(fields_value(fs@) =~= Seq::empty());
    push_field(&mut fs, "port", JsonScalar::Number(l.port as u64));
    push_field(&mut fs, "protocol", text_scalar(l.protocol));
    push_field(&mut fs, "listening", JsonScalar::Bool(l.listening));
    push_field(&mut fs, "occupied_by_other_process", JsonScalar::Bool(l.occupied_by_other_process));
    push_field(&mut fs, "details", text_scalar(l.details.as_str()));
    assert(fields_value(fs@) =~= listener_value(l@)->Object_0);
    fs
}

fn action_fields(a: &ActionRecord) -> (res: Vec<(String, JsonScalar)>)
    ensures
        flat_object(res@) == action_value(a@),
{
    let mut fs: Vec<(String, JsonScalar)> = Vec::new();
    assert(fields_value(fs@) =~= Seq::empty());
    push_field(&mut fs, "name", text_scalar(a.name.as_str()));
    push_field(&mut fs, "attempted", JsonScalar::Bool(a.attempted));
    push_field(&mut fs, "success", JsonScalar::Bool(a.success));
    push_field(&mut fs, "details", text_scalar(a.details.as_str()));
    assert(fields_value(fs@) =~= action_value(a@)->Object_0);
    fs
}

fn firewall_fields(f: &FirewallStatus) -> (res: Vec<(String, JsonScalar)>)
    ensures
        flat_object(res@) == firewall_value(f@),
{
    let mut fs: Vec<(String, JsonScalar)> = Vec::new();
    assert(fields_value(fs@) =~= Seq::empty());
    push_field(&mut fs, "supported", JsonScalar::Bool(f.supported));
    push_field(&mut fs, "ufw_installed", JsonScalar::Bool(f.ufw_installed));
    push_field(&mut fs, "ufw_active", JsonScalar::Bool(f.ufw_active));
    push_field(&mut fs, "required_ports_allowed", JsonScalar::Bool(f.required_ports_allowed));
    push_field(&mut fs, "details", text_scalar(f.details.as_str()));
    assert(fields_value(fs@) =~= firewall_value(f@)->Object_0);
    fs
}

fn network_fields(n: &NetworkSnapshot) -> (res: Vec<(String, JsonScalar)>)
    ensures
        flat_object(res@) == network_value(n@),
{
    let mut fs: Vec<(String, JsonScalar)> = Vec::new();
    assert(fields_value(fs@) =~= Seq::empty());
    push_field(&mut fs, "platform", text_scalar(n.platform.as_str()));
    push_field(&mut fs, "lan_ip", optional_scalar(&n.lan_ip));
    push_field(&mut fs, "default_gateway", optional_scalar(&n.default_gateway));
    push_field(&mut fs, "public_ip", optional_scalar(&n.public_ip));
    push_field(&mut fs, "likely_cgnat_or_double_nat", JsonScalar::Bool(n.likely_cgnat_or_double_nat));
    push_field(&mut fs, "lan_ip_drifted", JsonScalar::Bool(n.lan_ip_drifted));
    push_field(&mut fs, "gateway_drifted", JsonScalar::Bool(n.gateway_drifted));
    push_field(&mut fs, "details", text_scalar(n.details.as_str()));
    assert(fields_value(fs@) =~= network_value(n@)->Object_0);
    fs
}

fn router_fields(r: &RouterAutomationStatus) -> (res: Vec<(String, JsonScalar)>)
    ensures
        flat_object(res@) == router_value(r@),
{
    let mut fs: Vec<(String, JsonScalar)> = Vec::new();
    assert(fields_value(fs@) =~= Seq::empty());
    push_field(&mut fs, "backend", text_scalar(r.backend));
    push_field(&mut fs, "available", JsonScalar::Bool(r.available));
    push_field(&mut fs, "attempted", JsonScalar::Bool(r.attempted));
    push_field(&mut fs, "success", JsonScalar::Bool(r.success));
    push_field(&mut fs, "external_ip", optional_scalar(&r.external_ip));
    push_field(&mut fs, "details", text_scalar(r.details.as_str()));
    assert(fields_value(fs@) =~= router_value(r@)->Object_0);
    fs
}

fn listener_list(ls: &Vec<PortCheck>) -> (res: Vec<Vec<(String, JsonScalar)>>)
    ensures
        flat_objects(res@) == listeners_value(port_check_views(ls@)),
{
    let ghost want = listeners_value(port_check_views(ls@));
    let mut os: Vec<Vec<(String, JsonScalar)>> = Vec::new();
    let n = ls.len();
    for i in 0..n
        invariant
            n == ls@.len(),
            want == listeners_value(port_check_views(ls@)),
            flat_objects(os@) == want.take(i as int),
    {
        let o = listener_fields(&ls[i]);
        let ghost before = os@;
        os.push(o);
        assert(flat_objects(os@) =~= flat_objects(before).push(flat_object(o@)));
        assert(want.take(i + 1) =~= want.take(i as int).push(want[i as int]));
    }
    assert(want.take(n as int) =~= want);
    os
}

fn action_list(actions: &Vec<ActionRecord>) -> (res: Vec<Vec<(String, JsonScalar)>>)
    ensures
        flat_objects(res@) == actions_value(action_views(actions@)),
{
    let ghost want = actions_value(action_views(actions@));
    let mut os: Vec<Vec<(String, JsonScalar)>> = Vec::new();
    let n = actions.len();
    for i in 0..n
        invariant
            n == actions@.len(),
            want == actions_value(action_views(actions@)),
            flat_objects(os@) == want.take(i as int),
    {
        let o = action_fields(&actions[i]);
        let ghost before = os@;
        os.push(o);
        assert(flat_objects(os@) =~= flat_objects(before).push(flat_object(o@)));
        assert(want.take(i + 1) =~= want.take(i as int).push(want[i as int]));
    }
    assert(want.take(n as int) =~= want);
    os
}

impl InspectionReport {
    /// The report as pretty-printed JSON.
    pub fn to_pretty_json(&self) -> (res: String)
        ensures
            res@ == render(report_value(self@), 0),
    {
        let mut ms: Vec<(String, JsonMember)> = Vec::new();
        assert(members_value(ms@) =~= Seq::empty());
        push_document_member(&mut ms, "profile", JsonMember::Scalar(text_scalar(self.profile.as_str())));
        push_document_member(
            &mut ms,
            "classification",
            JsonMember::Scalar(text_scalar(self.classification.error_code())),
        );
        push_document_member(
            &mut ms,
            "remediation_message",
            JsonMember::Scalar(text_scalar(self.remediation_message.as_str())),
        );
        push_document_member(&mut ms, "error_code", JsonMember::Scalar(text_scalar(self.error_code.as_str())));
        push_document_member(&mut ms, "listeners", JsonMember::List(listener_list(&self.listeners)));
        push_document_member(&mut ms, "firewall", JsonMember::Object(firewall_fields(&self.firewall)));
        push_document_member(&mut ms, "network", JsonMember::Object(network_fields(&self.network)));
        push_document_member(
            &mut ms,
            "router_automation",
            JsonMember::Object(router_fields(&self.router_automation)),
        );
        push_document_member(
            &mut ms,
            "actions_attempted",
            JsonMember::List(action_list(&self.actions_attempted)),
        );
        assert(members_value(ms@) =~= report_value(self@)->Object_0);
        render_document(&ms)
    }
}

/// The JSON text of a report, read as a whole by a JSON reader, is one object
/// whose members are the report's fields in order, each value reading back
/// as the field's own value: texts as the same texts, absent addresses as
/// null, the classification as its code, and one object per listener check
/// and per action.
pub proof fn report_json_reads_back(r: ReportView)
    ensures
        parse_json(render(report_value(r), 0)) == Some(report_value(r)),
{
    rendered_json_reads_back(report_value(r));
}

/// The report's JSON text reads back as one object whose members carry, in
/// order and under their own names, the report's fields: every text as the
/// same text, every flag as the same flag, each absent address as null, the
/// classification as its code, and one object per listener check and per
/// action with that entry's fields.
pub proof fn report_json_members_carry_the_fields(r: ReportView)
    ensures
        match parse_json(render(report_value(r), 0)) {
            Some(JsonValue::Object(ms)) => {
                &&& ms.len() == 9
                &&& ms[0] == ("profile"@, JsonValue::Text(r.profile))
                &&& ms[1] == ("classification"@, JsonValue::Text(r.classification.code()))
                &&& ms[2] == ("remediation_message"@, JsonValue::Text(r.remediation_message))
                &&& ms[3] == ("error_code"@, JsonValue::Text(r.error_code))
                &&& ms[4].0 == "listeners"@
                &&& ms[4].1 matches JsonValue::Array(items) && items.len() == r.listeners.len() && forall|i: int|
                    0 <= i < items.len() ==> #[trigger] items[i] == JsonValue::Object(
                        seq![
                            ("port"@, JsonValue::Number(r.listeners[i].port as nat)),
                            ("protocol"@, JsonValue::Text(r.listeners[i].protocol)),
                            ("listening"@, JsonValue::Bool(r.listeners[i].listening)),
                            (
                                "occupied_by_other_process"@,
                                JsonValue::Bool(r.listeners[i].occupied_by_other_process),
                            ),
                            ("details"@, JsonValue::Text(r.listeners[i].details)),
                        ],
                    )
                &&& ms[5] == (
                    "firewall"@,
                    JsonValue::Object(
                        seq![
                            ("supported"@, JsonValue::Bool(r.firewall.supported)),
                            ("ufw_installed"@, JsonValue::Bool(r.firewall.ufw_installed)),
                            ("ufw_active"@, JsonValue::Bool(r.firewall.ufw_active)),
                            ("required_ports_allowed"@, JsonValue::Bool(r.firewall.required_ports_allowed)),
                            ("details"@, JsonValue::Text(r.firewall.details)),
                        ],
                    ),
                )
                &&& ms[6] == (
                    "network"@,
                    JsonValue::Object(
                        seq![
                            ("platform"@, JsonValue::Text(r.network.platform)),
                            (
                                "lan_ip"@,
                                match r.network.lan_ip {
                                    Some(t) => JsonValue::Text(t),
                                    None => JsonValue::Null,
                                },
                            ),
                            (
                                "default_gateway"@,
                                match r.network.default_gateway {
                                    Some(t) => JsonValue::Text(t),
                                    None => JsonValue::Null,
                                },
                            ),
                            (
                                "public_ip"@,
                                match r.network.public_ip {
                                    Some(t) => JsonValue::Text(t),
                                    None => JsonValue::Null,
                                },
                            ),
                            ("likely_cgnat_or_double_nat"@, JsonValue::Bool(r.network.likely_cgnat_or_double_nat)),
                            ("lan_ip_drifted"@, JsonValue::Bool(r.network.lan_ip_drifted)),
                            ("gateway_drifted"@, JsonValue::Bool(r.network.gateway_drifted)),
                            ("details"@, JsonValue::Text(r.network.details)),
                        ],
                    ),
                )
                &&& ms[7] == (
                    "router_automation"@,
                    JsonValue::Object(
                        seq![
                            ("backend"@, JsonValue::Text(r.router_automation.backend)),
                            ("available"@, JsonValue::Bool(r.router_automation.available)),
                            ("attempted"@, JsonValue::Bool(r.router_automation.attempted)),
                            ("success"@, JsonValue::Bool(r.router_automation.success)),
                            (
                                "external_ip"@,
                                match r.router_automation.external_ip {
                                    Some(t) => JsonValue::Text(t),
                                    None => JsonValue::Null,
                                },
                            ),
                            ("details"@, JsonValue::Text(r.router_automation.details)),
                        ],
                    ),
                )
                &&& ms[8].0 == "actions_attempted"@
                &&& ms[8].1 matches JsonValue::Array(items) && items.len() == r.actions_attempted.len() && forall|i: int|
                    0 <= i < items.len() ==> #[trigger] items[i] == JsonValue::Object(
                        seq![
                            ("name"@, JsonValue::Text(r.actions_attempted[i].name)),
                            ("attempted"@, JsonValue::Bool(r.actions_attempted[i].attempted)),
                            ("success"@, JsonValue::Bool(r.actions_attempted[i].success)),
                            ("details"@, JsonValue::Text(r.actions_attempted[i].details)),
                        ],
                    )
            },
            _ => false,
        },
{
    rendered_json_reads_back(report_value(r));
    let ms = report_value(r)->Object_0;
    let items = listeners_value(r.listeners);
    assert(ms[4].1 == JsonValue::Array(items));
    assert forall|i: int| 0 <= i < items.len() implies #[trigger] items[i] == listener_value(r.listeners[i]) by {}
    let acts = actions_value(r.actions_attempted);
    assert(ms[8].1 == JsonValue::Array(acts));
    assert forall|i: int| 0 <= i < acts.len() implies #[trigger] acts[i] == action_value(r.actions_attempted[i]) by {}
    assert(network_value(r.network)->Object_0 =~= seq![
        ("platform"@, JsonValue::Text(r.network.platform)),
        ("lan_ip"@, match r.network.lan_ip {
            Some(t) => JsonValue::Text(t),
            None => JsonValue::Null,
        }),
        ("default_gateway"@, match r.network.default_gateway {
            Some(t) => JsonValue::Text(t),
            None => JsonValue::Null,
        }),
        ("public_ip"@, match r.network.public_ip {
            Some(t) => JsonValue::Text(t),
            None => JsonValue::Null,
        }),
        ("likely_cgnat_or_double_nat"@, JsonValue::Bool(r.network.likely_cgnat_or_double_nat)),
        ("lan_ip_drifted"@, JsonValue::Bool(r.network.lan_ip_drifted)),
        ("gateway_drifted"@, JsonValue::Bool(r.network.gateway_drifted)),
        ("details"@, JsonValue::Text(r.network.details)),
    ]);
    assert(router_value(r.router_automation)->Object_0 =~= seq![
        ("backend"@, JsonValue::Text(r.router_automation.backend)),
        ("available"@, JsonValue::Bool(r.router_automation.available)),
        ("attempted"@, JsonValue::Bool(r.router_automation.attempted)),
        ("success"@, JsonValue::Bool(r.router_automation.success)),
        ("external_ip"@, match r.router_automation.external_ip {
            Some(t) => JsonValue::Text(t),
            None => JsonValue::Null,
        }),
        ("details"@, JsonValue::Text(r.router_automation.details)),
    ]);
}

/// An escaped text holds no control character, so it can stand inside a JSON
/// string as it is.
pub proof fn escaped_text_has_no_control_character(s: Seq<char>)
    ensures
        forall|i: int|
            0 <= i < escape_json_text(s).len() ==> (#[trigger] escape_json_text(s)[i]) as u32 >= 0x20,
    decreases s.len(),
{
    if s.len() > 0 {
        escaped_text_has_no_control_character(s.drop_last());
        let a = escape_json_text(s.drop_last());
        let b = escape_char(s.last());
        assert forall|i: int| 0 <= i < b.len() implies (#[trigger] b[i]) as u32 >= 0x20 by {
            let c = s.last();
            if (c as u32) < 0x20 && c != '\n' && c != '\r' && c != '\t' {
                let hi = (c as u32 / 16) as nat;
                let lo = (c as u32 % 16) as nat;
                assert(hex_digit(hi) as u32 >= 0x30);
                assert(hex_digit(lo) as u32 >= 0x30);
            }
        }
        assert forall|i: int| 0 <= i < (a + b).len() implies (#[trigger] (a + b)[i]) as u32 >= 0x20 by {
            if i >= a.len() {
                assert((a + b)[i] == b[i - a.len()]);
            } else {
                assert((a + b)[i] == a[i]);
            }
        }
    }
}

/// The value of a hexadecimal digit.
pub open spec fn hex_value(c: char) -> int {
    let u = c as u32;
    if 48 <= u <= 57 {
        u - 48
    } else if 97 <= u <= 102 {
        u - 87
    } else if 65 <= u <= 70 {
        u - 55
    } else {
        0
    }
}

/// How a JSON reader decodes the inside of a string: each escape sequence
/// (`\"`, `\\`, `\/`, `\b`, `\f`, `\n`, `\r`, `\t`, `\uXXXX`) stands for one
/// character, every other character for itself.
pub open spec fn unescape_json_text(t: Seq<char>) -> Seq<char>
    decreases t.len(),
{
    if t.len() == 0 {
        Seq::empty()
    } else if t[0] != '\\' || t.len() < 2 {
        seq![t[0]] + unescape_json_text(t.drop_first())
    } else if t[1] == 'u' && t.len() >= 6 {
        let v = hex_value(t[2]) * 4096 + hex_value(t[3]) * 256 + hex_value(t[4]) * 16 + hex_value(t[5]);
        seq![(v as u32) as char] + unescape_json_text(t.subrange(6, t.len() as int))
    } else {
        let c = if t[1] == 'n' {
            '\n'
        } else if t[1] == 'r' {
            '\r'
        } else if t[1] == 't' {
            '\t'
        } else if t[1] == 'b' {
            '\u{8}'
        } else if t[1] == 'f' {
            '\u{c}'
        } else {
            t[1]
        };
        seq![c] + unescape_json_text(t.subrange(2, t.len() as int))
    }
}

pub(crate) proof fn lemma_escape_front(c: char, rest: Seq<char>)
    ensures
        escape_json_text(seq![c] + rest) == escape_char(c) + escape_json_text(rest),
    decreases rest.len(),
{
    if rest.len() == 0 {
        let one = seq![c];
        assert(one + rest =~= one);
        assert(one.drop_last() =~= Seq::<char>::empty());
        assert(one.last() == c);
        assert(escape_json_text(Seq::<char>::empty()) == Seq::<char>::empty());
        assert(escape_json_text(one) == escape_json_text(one.drop_last()) + escape_char(c));
        assert(escape_char(c) + escape_json_text(rest) =~= escape_char(c));
        assert(Seq::<char>::empty() + escape_char(c) =~= escape_char(c));
    } else {
        lemma_escape_front(c, rest.drop_last());
        assert((seq![c] + rest).drop_last() =~= seq![c] + rest.drop_last());
        assert((seq![c] + rest).last() == rest.last());
        assert(escape_char(c) + escape_json_text(rest) =~= escape_char(c) + escape_json_text(rest.drop_last())
            + escape_char(rest.last()));
    }
}

proof fn lemma_unescape_one(c: char, t: Seq<char>)
    ensures
        unescape_json_text(escape_char(c) + t) == seq![c] + unescape_json_text(t),
{
    let e = escape_char(c);
    let x = e + t;
    if e.len() == 1 {
        assert(x.drop_first() =~= t);
    } else if e.len() == 2 {
        assert(x.subrange(2, x.len() as int) =~= t);
    } else {
        let u = c as u32;
        assert(x.subrange(6, x.len() as int) =~= t);
        assert(x[2] == '0' && x[3] == '0');
        assert(hex_value(hex_digit((u / 16) as nat)) == u / 16);
        assert(hex_value(hex_digit((u % 16) as nat)) == u % 16);
        assert((u / 16) * 16 + u % 16 == u);
        assert(((u as int) as u32) as char == c);
    }
}

/// The escaped text decodes back, as a JSON reader decodes a string, to the
/// text it was made from.
pub proof fn escaped_text_decodes_back(s: Seq<char>)
    ensures
        unescape_json_text(escape_json_text(s)) == s,
    decreases s.len(),
{
    if s.len() > 0 {
        let rest = s.drop_first();
        assert(s =~= seq![s[0]] + rest);
        lemma_escape_front(s[0], rest);
        escaped_text_decodes_back(rest);
        lemma_unescape_one(s[0], escape_json_text(rest));
    }
}

} // verus!
