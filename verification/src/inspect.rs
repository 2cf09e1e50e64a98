//! Discovery and classification: what the listener, firewall, network and
//! router commands print, read into a report with one fixed classification.
use vstd::prelude::*;
use crate::model::{
    Classification, FirewallStatus, FirewallView, InspectionReport, NetworkSnapshot, NetworkView,
    PortCheck, PortCheckView, ReportView, RouterAutomationStatus, RouterView, port_check_views,
    action_views,
};
use crate::profile::{Profile, ProfileView, str_views};
use crate::system::{CommandOutput, CommandRequest, OutputView, RequestView, Step, StepView, output_views};
use crate::text::{
    chars_eq, chars_of, contains, contains_exec, contains_str, decimal,
    fields, fields_of, is_blank, is_blank_exec, join, join_exec, lines, lines_containing,
    lines_containing_exec, lines_of, lowercase, non_blank, non_blank_exec, parses_as_u8,
    parses_as_u8_exec, parse_u8, digits_value, unsigned_digits, push_chars, push_decimal, decimal_string, opt_chars, push_str, starts_with, starts_with_str, string_from,
    string_of, texts, to_lowercase, trim, trim_exec, words, words_of,
};

verus! {

// ---------------------------------------------------------------------------
// Listeners
// ---------------------------------------------------------------------------

/// The text that marks a socket line as one for `port`.
pub open spec fn port_pattern(port: u16) -> Seq<char> {
    ":"@ + decimal(port as nat)
}

/// A lowered line names one of the lowered process hints.
pub open spec fn matches_any(lowered_line: Seq<char>, lowered_hints: Seq<Seq<char>>) -> bool {
    exists|k: int| 0 <= k < lowered_hints.len() && contains(lowered_line, #[trigger] lowered_hints[k])
}

pub open spec fn lowered_all(ts: Seq<Seq<char>>) -> Seq<Seq<char>> {
    ts.map_values(|t: Seq<char>| lowercase(t))
}

/// A socket line whose process is none of the profile's, letter case aside.
pub open spec fn foreign_line(line: Seq<char>, hints: Seq<Seq<char>>) -> bool {
    !matches_any(lowercase(line), lowered_all(hints))
}

pub open spec fn has_foreign_line(ls: Seq<Seq<char>>, hints: Seq<Seq<char>>) -> bool {
    exists|i: int| 0 <= i < ls.len() && foreign_line(#[trigger] ls[i], hints)
}

/// The listener check of one port, read from the output of `ss -ltnp`.
pub open spec fn port_check_of(
    port: u16,
    protocol: Seq<char>,
    hints: Seq<Seq<char>>,
    out: OutputView,
) -> PortCheckView {
    if !out.success {
        PortCheckView {
            port,
            protocol,
            listening: false,
            occupied_by_other_process: false,
            details: "Could not inspect listening sockets with ss: "@ + out.stderr,
        }
    } else {
        let matching = lines_containing(lines(out.stdout), port_pattern(port));
        if matching.len() == 0 {
            PortCheckView {
                port,
                protocol,
                listening: false,
                occupied_by_other_process: false,
                details: "Nothing is listening on TCP port "@ + decimal(port as nat) + "."@,
            }
        } else {
            PortCheckView {
                port,
                protocol,
                listening: true,
                occupied_by_other_process: has_foreign_line(matching, hints),
                details: "Found listener entries: "@ + join(matching, " | "@),
            }
        }
    }
}

/// The listener checks of all required ports, in the profile's order.
pub open spec fn listeners_of(profile: ProfileView, out: OutputView) -> Seq<PortCheckView> {
    Seq::new(
        profile.required_ports.len(),
        |k: int|
            port_check_of(
                profile.required_ports[k].port,
                profile.required_ports[k].protocol,
                profile.process_hints,
                out,
            ),
    )
}

/// Whether an already lowered line names one of the already lowered hints.
pub fn matches_any_hint(lowered_line: &Vec<char>, lowered_hints: &Vec<Vec<char>>) -> (res: bool)
    ensures
        res == matches_any(lowered_line@, texts(lowered_hints@)),
{
    let n = lowered_hints.len();
    for k in 0..n
        invariant
            n == lowered_hints@.len(),
            forall|j: int| 0 <= j < k ==> !contains(lowered_line@, #[trigger] texts(lowered_hints@)[j]),
    {
        if contains_exec(lowered_line, &lowered_hints[k]) {
            assert(contains(lowered_line@, texts(lowered_hints@)[k as int]));
            return true;
        }
    }
    false
}

/// The profile's process hints, lowered.
fn lowered_hints_of(hints: &Vec<&'static str>) -> (res: Vec<Vec<char>>)
    ensures
        texts(res@) == lowered_all(str_views(hints@)),
{
    let n = hints.len();
    let mut res: Vec<Vec<char>> = Vec::new();
    let ghost hv = str_views(hints@);
    for i in 0..n
        invariant
            n == hints@.len(),
            hv == str_views(hints@),
            texts(res@) == lowered_all(hv).take(i as int),
    {
        let h = chars_of(hints[i]);
        let low = to_lowercase(&h);
        assert(hv[i as int] == h@);
        let ghost before = texts(res@);
        res.push(low);
        assert(texts(res@) =~= before.push(lowercase(hv[i as int])));
        assert(texts(res@) =~= lowered_all(hv).take(i + 1));
    }
    assert(lowered_all(hv).take(n as int) =~= lowered_all(hv));
    res
}

/// The listener check of one port.
pub fn parse_port_check(
    port: u16,
    protocol: &'static str,
    process_hints: &Vec<&'static str>,
    socket_output: &CommandOutput,
) -> (res: PortCheck)
    ensures
        res@ == port_check_of(
            port,
            protocol@,
            str_views(process_hints@),
            socket_output@,
        ),
{
    let ghost hints = str_views(process_hints@);
    if !socket_output.success {
        let mut details = string_from("Could not inspect listening sockets with ss: ");
        push_str(&mut details, socket_output.stderr.as_str());
        return PortCheck {
            port,
            protocol,
            listening: false,
            occupied_by_other_process: false,
            details,
        };
    }
    let mut pattern_text = string_from(":");
    push_decimal(&mut pattern_text, port as u64);
    let pattern = chars_of(pattern_text.as_str());
    let stdout = chars_of(socket_output.stdout.as_str());
    let all_lines = lines_of(&stdout);
    let matching = lines_containing_exec(&all_lines, &pattern);
    let ghost m = texts(matching@);
    if matching.len() == 0 {
        let mut details = string_from("Nothing is listening on TCP port ");
        push_decimal(&mut details, port as u64);
        push_str(&mut details, ".");
        return PortCheck {
            port,
            protocol,
            listening: false,
            occupied_by_other_process: false,
            details,
        };
    }
    let lowered_hints = lowered_hints_of(process_hints);
    let mut occupied = false;
    let n = matching.len();
    for i in 0..n
        invariant
            n == matching@.len(),
            m == texts(matching@),
            texts(lowered_hints@) == lowered_all(hints),
            occupied == exists|j: int| 0 <= j < i && foreign_line(#[trigger] m[j], hints),
    {
        let lowered = to_lowercase(&matching[i]);
        if !matches_any_hint(&lowered, &lowered_hints) {
            assert(foreign_line(m[i as int], hints));
            occupied = true;
        }
    }
    let mut details = string_from("Found listener entries: ");
    let joined = join_exec(&matching, &chars_of(" | "));
    push_chars(&mut details, &joined);
    PortCheck { port, protocol, listening: true, occupied_by_other_process: occupied, details }
}

/// The listener checks of all required ports.
pub fn inspect_listeners(profile: &Profile, socket_output: &CommandOutput) -> (res: Vec<PortCheck>)
    ensures
        port_check_views(res@) == listeners_of(profile@, socket_output@),
{
    let n = profile.required_ports.len();
    let mut res: Vec<PortCheck> = Vec::new();
    for k in 0..n
        invariant
            n == profile.required_ports@.len(),
            port_check_views(res@) == listeners_of(profile@, socket_output@).take(k as int),
    {
        let requirement = &profile.required_ports[k];
        let check = parse_port_check(
            requirement.port,
            requirement.protocol,
            &profile.process_hints,
            socket_output,
        );
        let ghost before = port_check_views(res@);
        res.push(check);
        assert(port_check_views(res@) =~= before.push(check@));
        assert(port_check_views(res@) =~= listeners_of(profile@, socket_output@).take(k + 1));
    }
    assert(listeners_of(profile@, socket_output@).take(n as int) =~= listeners_of(
        profile@,
        socket_output@,
    ));
    res
}


// ---------------------------------------------------------------------------
// Firewall
// ---------------------------------------------------------------------------

/// The rule text that UFW prints for a port, such as `30333/tcp`.
pub open spec fn ufw_target(port: u16, protocol: Seq<char>) -> Seq<char> {
    decimal(port as nat) + "/"@ + protocol
}

/// A lowered status line that allows the rule `target`.
pub open spec fn allows(lowered_line: Seq<char>, target: Seq<char>) -> bool {
    contains(lowered_line, target) && contains(lowered_line, "allow"@)
}

/// Some line, lowered, allows the rule of `port` and `protocol`.
pub open spec fn has_allow_rule(ls: Seq<Seq<char>>, port: u16, protocol: Seq<char>) -> bool {
    exists|i: int| 0 <= i < ls.len() && allows(lowercase(#[trigger] ls[i]), ufw_target(port, protocol))
}

/// Firewall support is the Linux build.
pub open spec fn platform_supported(platform: Seq<char>) -> bool {
    platform == "linux"@
}

/// The firewall status, read from the output of `ufw status`.
pub open spec fn firewall_of(profile: ProfileView, platform: Seq<char>, out: OutputView) -> FirewallView {
    if !out.success {
        FirewallView {
            supported: platform_supported(platform),
            ufw_installed: false,
            ufw_active: false,
            required_ports_allowed: false,
            details: "Could not read UFW status: "@ + out.stderr,
        }
    } else {
        let rule_lines = non_blank(lines(out.stdout));
        FirewallView {
            supported: platform_supported(platform),
            ufw_installed: true,
            ufw_active: contains(lowercase(out.stdout), "status: active"@),
            required_ports_allowed: forall|k: int|
                0 <= k < profile.required_ports.len() ==> has_allow_rule(
                    rule_lines,
                    #[trigger] profile.required_ports[k].port,
                    profile.required_ports[k].protocol,
                ),
            details: "Checked current UFW rules against the Space Acres ports."@,
        }
    }
}

/// Whether an already lowered status line allows the rule `target`.
pub fn line_allows(lowered_line: &Vec<char>, target: &Vec<char>) -> (res: bool)
    ensures
        res == allows(lowered_line@, target@),
{
    contains_exec(lowered_line, target) && contains_str(lowered_line, "allow")
}

/// Whether some status line allows the rule of `port` and `protocol`.
pub fn has_ufw_allow_rule(lines: &Vec<Vec<char>>, port: u16, protocol: &str) -> (res: bool)
    ensures
        res == has_allow_rule(texts(lines@), port, protocol@),
{
    let mut target_text = decimal_string(port as u64);
    push_str(&mut target_text, "/");
    push_str(&mut target_text, protocol);
    let target = chars_of(target_text.as_str());
    assert(target@ =~= ufw_target(port, protocol@));
    let n = lines.len();
    for i in 0..n
        invariant
            n == lines@.len(),
            target@ == ufw_target(port, protocol@),
            forall|j: int|
                0 <= j < i ==> !allows(lowercase(#[trigger] texts(lines@)[j]), ufw_target(port, protocol@)),
    {
        let lowered = to_lowercase(&lines[i]);
        if line_allows(&lowered, &target) {
            assert(allows(lowercase(texts(lines@)[i as int]), ufw_target(port, protocol@)));
            return true;
        }
    }
    false
}

/// The firewall status.
pub fn parse_firewall_status(profile: &Profile, platform: &str, status_output: &CommandOutput) -> (res: FirewallStatus)
    ensures
        res@ == firewall_of(profile@, platform@, status_output@),
{
    let supported = chars_eq(&chars_of(platform), &chars_of("linux"));
    if !status_output.success {
        let mut details = string_from("Could not read UFW status: ");
        push_str(&mut details, status_output.stderr.as_str());
        return FirewallStatus {
            supported,
            ufw_installed: false,
            ufw_active: false,
            required_ports_allowed: false,
            details,
        };
    }
    let stdout = chars_of(status_output.stdout.as_str());
    let lowered = to_lowercase(&stdout);
    let ufw_active = contains_str(&lowered, "status: active");
    let all_lines = lines_of(&stdout);
    let rule_lines = non_blank_exec(&all_lines);
    let ghost rl = texts(rule_lines@);
    let n = profile.required_ports.len();
    let mut allowed = true;
    for k in 0..n
        invariant
            n == profile.required_ports@.len(),
            rl == texts(rule_lines@),
            allowed == forall|j: int|
                0 <= j < k ==> has_allow_rule(
                    rl,
                    #[trigger] profile@.required_ports[j].port,
                    profile@.required_ports[j].protocol,
                ),
    {
        let requirement = &profile.required_ports[k];
        let ok = has_ufw_allow_rule(&rule_lines, requirement.port, requirement.protocol);
        assert(profile@.required_ports[k as int] == requirement@);
        assert(ok == has_allow_rule(
            rl,
            profile@.required_ports[k as int].port,
            profile@.required_ports[k as int].protocol,
        ));
        if !ok {
            allowed = false;
        }
    }
    FirewallStatus {
        supported,
        ufw_installed: true,
        ufw_active,
        required_ports_allowed: allowed,
        details: string_from("Checked current UFW rules against the Space Acres ports."),
    }
}

// ---------------------------------------------------------------------------
// Network
// ---------------------------------------------------------------------------

/// Four dot-separated fields, each of which `u8::from_str` accepts.
pub open spec fn is_ipv4_text(s: Seq<char>) -> bool {
    let parts = fields(s, '.');
    parts.len() == 4 && forall|i: int| 0 <= i < 4 ==> parses_as_u8(#[trigger] parts[i])
}

/// The value of the `k`-th dot-separated field of an address.
pub open spec fn octet(ip: Seq<char>, k: int) -> int {
    digits_value(unsigned_digits(fields(ip, '.')[k]))
}

/// The `k`-th field is written the plain way: no `+` sign and no leading zero.
pub open spec fn plain_octet(ip: Seq<char>, k: int) -> bool {
    let f = fields(ip, '.')[k];
    f.len() > 0 && f[0] != '+' && (f.len() == 1 || f[0] != '0')
}

/// An IPv4 address, its leading fields written the plain way, in a private
/// range (10.0.0.0/8, 172.16.0.0/12, 192.168.0.0/16) or in the carrier-grade
/// NAT range 100.64.0.0/10.
pub open spec fn is_private_ipv4_text(ip: Seq<char>) -> bool {
    &&& is_ipv4_text(ip)
    &&& plain_octet(ip, 0)
    &&& {
        ||| octet(ip, 0) == 10
        ||| plain_octet(ip, 1) && octet(ip, 0) == 172 && 16 <= octet(ip, 1) <= 31
        ||| plain_octet(ip, 1) && octet(ip, 0) == 192 && octet(ip, 1) == 168
        ||| plain_octet(ip, 1) && octet(ip, 0) == 100 && 64 <= octet(ip, 1) <= 127
    }
}

/// Whether a field is written the plain way.
fn is_plain_field(f: &Vec<char>) -> (res: bool)
    ensures
        res == (f@.len() > 0 && f@[0] != '+' && (f@.len() == 1 || f@[0] != '0')),
{
    f.len() > 0 && f[0] != '+' && (f.len() == 1 || f[0] != '0')
}

/// The first word that is an IPv4 address.
pub open spec fn first_ipv4(ws: Seq<Seq<char>>) -> Option<Seq<char>>
    decreases ws.len(),
{
    if ws.len() == 0 {
        None
    } else if is_ipv4_text(ws[0]) {
        Some(ws[0])
    } else {
        first_ipv4(ws.drop_first())
    }
}

/// The first line that is not blank, trimmed.
pub open spec fn first_filled_line(ls: Seq<Seq<char>>) -> Option<Seq<char>>
    decreases ls.len(),
{
    if ls.len() == 0 {
        None
    } else if !is_blank(ls[0]) {
        Some(trim(ls[0]))
    } else {
        first_filled_line(ls.drop_first())
    }
}

/// The first line that starts with `default `.
pub open spec fn first_default_route(ls: Seq<Seq<char>>) -> Option<Seq<char>>
    decreases ls.len(),
{
    if ls.len() == 0 {
        None
    } else if starts_with(ls[0], "default "@) {
        Some(ls[0])
    } else {
        first_default_route(ls.drop_first())
    }
}

/// The word after the first `via`.
pub open spec fn via_target(parts: Seq<Seq<char>>) -> Option<Seq<char>>
    decreases parts.len(),
{
    if parts.len() < 2 {
        None
    } else if parts[0] == "via"@ {
        Some(parts[1])
    } else {
        via_target(parts.drop_first())
    }
}

/// The LAN address: the first IPv4 word that `hostname -I` printed.
pub open spec fn lan_ip_of(out: OutputView) -> Option<Seq<char>> {
    if !out.success {
        None
    } else {
        first_ipv4(words(out.stdout))
    }
}

/// The public address hint: the first filled line of the reply, if it is IPv4.
pub open spec fn public_ip_of(out: OutputView) -> Option<Seq<char>> {
    if !out.success {
        None
    } else {
        match first_filled_line(lines(out.stdout)) {
            Some(line) => if is_ipv4_text(line) {
                Some(line)
            } else {
                None
            },
            None => None,
        }
    }
}

/// The default gateway: the address after `via` on the first default route.
pub open spec fn default_gateway_of(routes: Seq<char>) -> Option<Seq<char>> {
    match first_default_route(lines(routes)) {
        Some(line) => via_target(words(line)),
        None => None,
    }
}

/// CGNAT or double NAT is likely when the public address seen from the host
/// is private, when the address the router reports as external is private,
/// or when both are known and differ.
pub open spec fn upstream_restricted(public_ip: Option<Seq<char>>, external_ip: Option<Seq<char>>) -> bool {
    ||| (public_ip matches Some(p) && is_private_ipv4_text(p))
    ||| (external_ip matches Some(e) && is_private_ipv4_text(e))
    ||| (public_ip matches Some(p) && external_ip matches Some(e) && p != e)
}

pub open spec fn network_view_of(
    platform: Seq<char>,
    lan_ip: Option<Seq<char>>,
    default_gateway: Option<Seq<char>>,
    public_ip: Option<Seq<char>>,
    likely_cgnat_or_double_nat: bool,
) -> NetworkView {
    NetworkView {
        platform,
        lan_ip,
        default_gateway,
        public_ip,
        likely_cgnat_or_double_nat,
        lan_ip_drifted: false,
        gateway_drifted: false,
        details: "Collected LAN, gateway, and public IP info from the local machine."@,
    }
}

/// The network snapshot, read from `hostname -I`, `ip route` and the public
/// address lookup, with the external address the router reported.
pub open spec fn network_of(
    platform: Seq<char>,
    lan: OutputView,
    routes: OutputView,
    public: OutputView,
    external_ip: Option<Seq<char>>,
) -> NetworkView {
    let public_ip = public_ip_of(public);
    network_view_of(
        platform,
        lan_ip_of(lan),
        default_gateway_of(routes.stdout),
        public_ip,
        upstream_restricted(public_ip, external_ip),
    )
}

/// Whether a text is an IPv4 address in the sense of `is_ipv4_text`.
pub fn is_ipv4(value: &Vec<char>) -> (res: bool)
    ensures
        res == is_ipv4_text(value@),
{
    let parts = fields_of(value, '.');
    if parts.len() != 4 {
        return false;
    }
    for i in 0..4
        invariant
            parts@.len() == 4,
            texts(parts@) == fields(value@, '.'),
            forall|j: int| 0 <= j < i ==> parses_as_u8(#[trigger] texts(parts@)[j]),
    {
        if !parses_as_u8_exec(&parts[i]) {
            assert(!parses_as_u8(texts(parts@)[i as int]));
            return false;
        }
    }
    true
}

/// Whether an address lies in a private range or in the carrier-grade NAT
/// range.
pub fn is_private_ipv4(ip: &Vec<char>) -> (res: bool)
    ensures
        res == is_private_ipv4_text(ip@),
{
    if !is_ipv4(ip) {
        return false;
    }
    let parts = fields_of(ip, '.');
    assert(texts(parts@)[0] == parts@[0]@);
    assert(texts(parts@)[1] == parts@[1]@);
    assert(parses_as_u8(fields(ip@, '.')[0]));
    assert(parses_as_u8(fields(ip@, '.')[1]));
    let a = match parse_u8(&parts[0]) {
        Some(v) => v,
        None => {
            return false;
        },
    };
    let b = match parse_u8(&parts[1]) {
        Some(v) => v,
        None => {
            return false;
        },
    };
    let first_plain = is_plain_field(&parts[0]);
    let second_plain = is_plain_field(&parts[1]);
    first_plain && (a == 10 || (second_plain && ((a == 172 && 16 <= b && b <= 31) || (a == 192 && b
        == 168) || (a == 100 && 64 <= b && b <= 127))))
}

/// The first line that is not blank, trimmed.
pub fn first_non_empty_line(value: &Vec<char>) -> (res: Option<Vec<char>>)
    ensures
        opt_chars(res) == first_filled_line(lines(value@)),
{
    let ls = lines_of(value);
    let n = ls.len();
    let ghost t = texts(ls@);
    assert(t.skip(0) =~= t);
    for i in 0..n
        invariant
            n == ls@.len(),
            t == texts(ls@),
            t == lines(value@),
            first_filled_line(t) == first_filled_line(t.skip(i as int)),
    {
        assert(t.skip(i as int).drop_first() =~= t.skip(i + 1));
        if !is_blank_exec(&ls[i]) {
            assert(t.skip(i as int)[0] == ls@[i as int]@);
            return Some(trim_exec(&ls[i]));
        }
    }
    None
}

/// The LAN address reported by `hostname -I`.
pub fn parse_lan_ip(output: &CommandOutput) -> (res: Option<String>)
    ensures
        res.deep_view() == lan_ip_of(output@),
{
    if !output.success {
        return None;
    }
    let stdout = chars_of(output.stdout.as_str());
    let ws = words_of(&stdout);
    let n = ws.len();
    let ghost t = texts(ws@);
    assert(t.skip(0) =~= t);
    for i in 0..n
        invariant
            n == ws@.len(),
            t == texts(ws@),
            t == words(output.stdout@),
            output.success,
            first_ipv4(t) == first_ipv4(t.skip(i as int)),
    {
        assert(t.skip(i as int).drop_first() =~= t.skip(i + 1));
        if is_ipv4(&ws[i]) {
            assert(t.skip(i as int)[0] == ws@[i as int]@);
            return Some(string_of(&ws[i]));
        }
    }
    None
}

/// The public address hint.
pub fn parse_public_ip(output: &CommandOutput) -> (res: Option<String>)
    ensures
        res.deep_view() == public_ip_of(output@),
{
    if !output.success {
        return None;
    }
    let stdout = chars_of(output.stdout.as_str());
    match first_non_empty_line(&stdout) {
        Some(line) => {
            if is_ipv4(&line) {
                Some(string_of(&line))
            } else {
                None
            }
        },
        None => None,
    }
}

/// The default gateway in the output of `ip route`.
pub fn parse_default_gateway(routes: &str) -> (res: Option<String>)
    ensures
        res.deep_view() == default_gateway_of(routes@),
{
    let text = chars_of(routes);
    let ls = lines_of(&text);
    let n = ls.len();
    let ghost t = texts(ls@);
    assert(t.skip(0) =~= t);
    let mut found: Option<usize> = None;
    for i in 0..n
        invariant_except_break
            n == ls@.len(),
            t == texts(ls@),
            found is None,
            first_default_route(t) == first_default_route(t.skip(i as int)),
        ensures
            n == ls@.len(),
            t == texts(ls@),
            match found {
                Some(k) => k < n && first_default_route(t) == Some(t[k as int]),
                None => first_default_route(t) is None,
            },
    {
        assert(t.skip(i as int).drop_first() =~= t.skip(i + 1));
        if starts_with_str(&ls[i], "default ") {
            found = Some(i);
            break;
        }
    }
    let k = match found {
        Some(k) => k,
        None => {
            return None;
        },
    };
    let parts = words_of(&ls[k]);
    let m = parts.len();
    let ghost p = texts(parts@);
    assert(p.skip(0) =~= p);
    let via_word = chars_of("via");
    let mut j: usize = 0;
    while j < m && j + 1 < m
        invariant
            m == parts@.len(),
            p == texts(parts@),
            p == words(t[k as int]),
            t == lines(routes@),
            first_default_route(t) == Some(t[k as int]),
            via_word@ == "via"@,
            j <= m,
            via_target(p) == via_target(p.skip(j as int)),
        decreases m - j,
    {
        assert(p.skip(j as int).drop_first() =~= p.skip(j + 1));
        if chars_eq(&parts[j], &via_word) {
            assert(p.skip(j as int)[0] == parts@[j as int]@);
            assert(p.skip(j as int)[1] == parts@[j + 1]@);
            return Some(string_of(&parts[j + 1]));
        }
        j = j + 1;
    }
    None
}

/// Whether the addresses point at CGNAT or double NAT.
pub fn detect_upstream_restriction(public_ip: &Option<String>, external_ip: &Option<String>) -> (res: bool)
    ensures
        res == upstream_restricted(public_ip.deep_view(), external_ip.deep_view()),
{
    if let Some(p) = public_ip {
        if is_private_ipv4(&chars_of(p.as_str())) {
            return true;
        }
    }
    if let Some(e) = external_ip {
        let ext = chars_of(e.as_str());
        if is_private_ipv4(&ext) {
            return true;
        }
        if let Some(p) = public_ip {
            return !chars_eq(&chars_of(p.as_str()), &ext);
        }
    }
    false
}

pub fn build_network_snapshot(
    platform: String,
    lan_ip: Option<String>,
    default_gateway: Option<String>,
    public_ip: Option<String>,
    likely_cgnat_or_double_nat: bool,
) -> (res: NetworkSnapshot)
    ensures
        res@ == network_view_of(
            platform@,
            lan_ip.deep_view(),
            default_gateway.deep_view(),
            public_ip.deep_view(),
            likely_cgnat_or_double_nat,
        ),
{
    NetworkSnapshot {
        platform,
        lan_ip,
        default_gateway,
        public_ip,
        likely_cgnat_or_double_nat,
        lan_ip_drifted: false,
        gateway_drifted: false,
        details: string_from("Collected LAN, gateway, and public IP info from the local machine."),
    }
}

/// The network snapshot.
pub fn inspect_network(
    platform: &str,
    lan_output: &CommandOutput,
    route_output: &CommandOutput,
    public_ip_output: &CommandOutput,
    external_ip: &Option<String>,
) -> (res: NetworkSnapshot)
    ensures
        res@ == network_of(
            platform@,
            lan_output@,
            route_output@,
            public_ip_output@,
            external_ip.deep_view(),
        ),
{
    let lan_ip = parse_lan_ip(lan_output);
    let default_gateway = parse_default_gateway(route_output.stdout.as_str());
    let public_ip = parse_public_ip(public_ip_output);
    let likely = detect_upstream_restriction(&public_ip, external_ip);
    build_network_snapshot(string_from(platform), lan_ip, default_gateway, public_ip, likely)
}

// ---------------------------------------------------------------------------
// Router
// ---------------------------------------------------------------------------

/// How `upnpc -l` writes a mapping of `port` to `lan`, such as
/// `30333->192.168.1.50:30333`.
pub open spec fn mapping_text(port: u16, lan: Seq<char>) -> Seq<char> {
    decimal(port as nat) + "->"@ + lan + ":"@ + decimal(port as nat)
}

pub open spec fn has_word(ws: Seq<Seq<char>>, w: Seq<char>) -> bool {
    exists|i: int| 0 <= i < ws.len() && ws[i] == w
}

/// A lowered `upnpc -l` line that maps `port` to `lan` for the lowered
/// protocol name.
pub open spec fn maps_port_to(
    lowered_line: Seq<char>,
    port: u16,
    lowered_protocol: Seq<char>,
    lan: Seq<char>,
) -> bool {
    contains(lowered_line, lowered_protocol) && has_word(words(lowered_line), mapping_text(port, lan))
}

/// Some line maps `port` for `protocol` to `lan`, letter case aside.
pub open spec fn has_mapping_to(ls: Seq<Seq<char>>, port: u16, protocol: Seq<char>, lan: Seq<char>) -> bool {
    exists|i: int|
        0 <= i < ls.len() && maps_port_to(lowercase(#[trigger] ls[i]), port, lowercase(protocol), lan)
}

/// Every required port of the profile is mapped to `lan`.
pub open spec fn mappings_point_to(profile: ProfileView, ls: Seq<Seq<char>>, lan: Seq<char>) -> bool {
    forall|k: int|
        0 <= k < profile.required_ports.len() ==> has_mapping_to(
            ls,
            #[trigger] profile.required_ports[k].port,
            profile.required_ports[k].protocol,
            lan,
        )
}

/// A line that starts with the word `ExternalIPAddress`.
pub open spec fn reports_external(line: Seq<char>) -> bool {
    words(line).len() >= 1 && words(line)[0] == "ExternalIPAddress"@
}

/// The address of an `ExternalIPAddress = a.b.c.d` line, when it is IPv4.
pub open spec fn external_value(line: Seq<char>) -> Option<Seq<char>> {
    let ws = words(line);
    if ws.len() >= 3 && ws[1] == "="@ && is_ipv4_text(ws[2]) {
        Some(ws[2])
    } else {
        None
    }
}

/// The external address on the first `ExternalIPAddress` line.
pub open spec fn external_ip_in(ls: Seq<Seq<char>>) -> Option<Seq<char>>
    decreases ls.len(),
{
    if ls.len() == 0 {
        None
    } else if reports_external(ls[0]) {
        external_value(ls[0])
    } else {
        external_ip_in(ls.drop_first())
    }
}

pub open spec fn mappings_found_details() -> Seq<char> {
    "Detected a reachable UPnP IGD backend and found both required Space Acres mappings."@
}

pub open spec fn mappings_missing_details() -> Seq<char> {
    "Detected a reachable UPnP IGD backend, but both Space Acres mappings are not there yet."@
}

/// The router backend status, read from the output of `upnpc -l`: the
/// mappings count only when they point to the detected LAN address.
pub open spec fn router_of(profile: ProfileView, lan_ip: Option<Seq<char>>, out: OutputView) -> RouterView {
    if out.success {
        let ls = non_blank(lines(out.stdout));
        let has = match lan_ip {
            Some(lan) => mappings_point_to(profile, ls, lan),
            None => false,
        };
        RouterView {
            backend: "upnp_igd"@,
            available: true,
            attempted: false,
            success: has,
            external_ip: external_ip_in(ls),
            details: if has {
                mappings_found_details()
            } else {
                mappings_missing_details()
            },
        }
    } else {
        RouterView {
            backend: "upnp_igd"@,
            available: false,
            attempted: false,
            success: false,
            external_ip: None,
            details: "UPnP IGD backend is not available: "@ + out.stderr,
        }
    }
}

/// Whether an already lowered `upnpc -l` line maps `port` to `lan` for the
/// already lowered protocol name.
pub fn line_maps_port_to(
    lowered_line: &Vec<char>,
    port: u16,
    lowered_protocol: &Vec<char>,
    lan: &Vec<char>,
) -> (res: bool)
    ensures
        res == maps_port_to(lowered_line@, port, lowered_protocol@, lan@),
{
    if !contains_exec(lowered_line, lowered_protocol) {
        return false;
    }
    let mut text = decimal_string(port as u64);
    push_str(&mut text, "->");
    push_chars(&mut text, lan);
    push_str(&mut text, ":");
    push_decimal(&mut text, port as u64);
    let target = chars_of(text.as_str());
    let ws = words_of(lowered_line);
    let n = ws.len();
    for i in 0..n
        invariant
            n == ws@.len(),
            target@ == mapping_text(port, lan@),
            texts(ws@) == words(lowered_line@),
            contains(lowered_line@, lowered_protocol@),
            forall|j: int| 0 <= j < i ==> texts(ws@)[j] != target@,
    {
        if chars_eq(&ws[i], &target) {
            assert(words(lowered_line@)[i as int] == mapping_text(port, lan@));
            assert(has_word(words(lowered_line@), mapping_text(port, lan@)));
            return true;
        }
    }
    false
}

/// Whether some line maps `port` for `protocol` to `lan`.
pub fn has_upnp_mapping(lines: &Vec<Vec<char>>, port: u16, protocol: &str, lan: &Vec<char>) -> (res: bool)
    ensures
        res == has_mapping_to(texts(lines@), port, protocol@, lan@),
{
    let lowered_protocol = to_lowercase(&chars_of(protocol));
    let n = lines.len();
    for i in 0..n
        invariant
            n == lines@.len(),
            lowered_protocol@ == lowercase(protocol@),
            forall|j: int|
                0 <= j < i ==> !maps_port_to(
                    lowercase(#[trigger] texts(lines@)[j]),
                    port,
                    lowercase(protocol@),
                    lan@,
                ),
    {
        let lowered = to_lowercase(&lines[i]);
        if line_maps_port_to(&lowered, port, &lowered_protocol, lan) {
            assert(maps_port_to(lowercase(texts(lines@)[i as int]), port, lowercase(protocol@), lan@));
            return true;
        }
    }
    false
}

/// Whether every required port of the profile is mapped to `lan`.
pub fn mappings_point_to_lan(profile: &Profile, lines: &Vec<Vec<char>>, lan: &Vec<char>) -> (res: bool)
    ensures
        res == mappings_point_to(profile@, texts(lines@), lan@),
        res <==> every_port_mapped(profile@, texts(lines@), lan@),
{
    proof {
        every_port_mapped_is_what_counts(profile@, texts(lines@), lan@);
    }
    let n = profile.required_ports.len();
    for k in 0..n
        invariant
            n == profile.required_ports@.len(),
            forall|j: int|
                0 <= j < k ==> has_mapping_to(
                    texts(lines@),
                    #[trigger] profile@.required_ports[j].port,
                    profile@.required_ports[j].protocol,
                    lan@,
                ),
    {
        let requirement = &profile.required_ports[k];
        assert(profile@.required_ports[k as int] == requirement@);
        if !has_upnp_mapping(lines, requirement.port, requirement.protocol, lan) {
            assert(!has_mapping_to(
                texts(lines@),
                profile@.required_ports[k as int].port,
                profile@.required_ports[k as int].protocol,
                lan@,
            ));
            return false;
        }
    }
    true
}

/// The external address on the first `ExternalIPAddress` line.
pub fn parse_external_ip(lines: &Vec<Vec<char>>) -> (res: Option<String>)
    ensures
        res.deep_view() == external_ip_in(texts(lines@)),
{
    let n = lines.len();
    let ghost t = texts(lines@);
    assert(t.skip(0) =~= t);
    let key = chars_of("ExternalIPAddress");
    let equals = chars_of("=");
    for i in 0..n
        invariant
            n == lines@.len(),
            t == texts(lines@),
            key@ == "ExternalIPAddress"@,
            equals@ == "="@,
            external_ip_in(t) == external_ip_in(t.skip(i as int)),
    {
        assert(t.skip(i as int).drop_first() =~= t.skip(i + 1));
        assert(t.skip(i as int)[0] == lines@[i as int]@);
        let ws = words_of(&lines[i]);
        if ws.len() >= 1 && chars_eq(&ws[0], &key) {
            if ws.len() >= 3 && chars_eq(&ws[1], &equals) && is_ipv4(&ws[2]) {
                return Some(string_of(&ws[2]));
            }
            return None;
        }
    }
    None
}

/// The router backend status, with mappings counted only when they point to
/// `lan_ip`.
pub fn parse_router_status(
    profile: &Profile,
    lan_ip: &Option<String>,
    miniupnpc_output: &CommandOutput,
) -> (res: RouterAutomationStatus)
    ensures
        res@ == router_of(profile@, lan_ip.deep_view(), miniupnpc_output@),
{
    if miniupnpc_output.success {
        let stdout = chars_of(miniupnpc_output.stdout.as_str());
        let all_lines = lines_of(&stdout);
        let ls = non_blank_exec(&all_lines);
        let has = match lan_ip {
            Some(lan) => mappings_point_to_lan(profile, &ls, &chars_of(lan.as_str())),
            None => false,
        };
        let details = if has {
            string_from(
                "Detected a reachable UPnP IGD backend and found both required Space Acres mappings.",
            )
        } else {
            string_from(
                "Detected a reachable UPnP IGD backend, but both Space Acres mappings are not there yet.",
            )
        };
        return RouterAutomationStatus {
            backend: "upnp_igd",
            available: true,
            attempted: false,
            success: has,
            external_ip: parse_external_ip(&ls),
            details,
        };
    }
    let mut details = string_from("UPnP IGD backend is not available: ");
    push_str(&mut details, miniupnpc_output.stderr.as_str());
    RouterAutomationStatus {
        backend: "upnp_igd",
        available: false,
        attempted: false,
        success: false,
        external_ip: None,
        details,
    }
}

// ---------------------------------------------------------------------------
// Classification
// ---------------------------------------------------------------------------

/// The classification: the first of these that holds, in this order.
pub open spec fn classification_of(
    listeners: Seq<PortCheckView>,
    firewall: FirewallView,
    network: NetworkView,
    router: RouterView,
) -> Classification {
    if exists|i: int| 0 <= i < listeners.len() && (#[trigger] listeners[i]).occupied_by_other_process {
        Classification::PortConflict
    } else if exists|i: int| 0 <= i < listeners.len() && !(#[trigger] listeners[i]).listening {
        Classification::MissingListener
    } else if !firewall.ufw_installed || (firewall.ufw_active && !firewall.required_ports_allowed) {
        Classification::LocalFirewallBlock
    } else if network.likely_cgnat_or_double_nat {
        Classification::LikelyUpstreamRestriction
    } else if !router.available {
        Classification::RouterAutomationUnsupported
    } else if router.success {
        Classification::Healthy
    } else {
        Classification::ManualRouterActionRequired
    }
}

pub fn classify(
    listeners: &Vec<PortCheck>,
    firewall: &FirewallStatus,
    network: &NetworkSnapshot,
    router_automation: &RouterAutomationStatus,
) -> (res: Classification)
    ensures
        res == classification_of(
            port_check_views(listeners@),
            firewall@,
            network@,
            router_automation@,
        ),
{
    let ghost v = port_check_views(listeners@);
    let n = listeners.len();
    for i in 0..n
        invariant
            n == listeners@.len(),
            v == port_check_views(listeners@),
            forall|j: int| 0 <= j < i ==> !(#[trigger] v[j]).occupied_by_other_process,
    {
        if listeners[i].occupied_by_other_process {
            assert(v[i as int].occupied_by_other_process);
            return Classification::PortConflict;
        }
    }
    for i in 0..n
        invariant
            n == listeners@.len(),
            v == port_check_views(listeners@),
            forall|j: int| 0 <= j < n ==> !(#[trigger] v[j]).occupied_by_other_process,
            forall|j: int| 0 <= j < i ==> (#[trigger] v[j]).listening,
    {
        if !listeners[i].listening {
            assert(!v[i as int].listening);
            return Classification::MissingListener;
        }
    }
    if !firewall.ufw_installed || (firewall.ufw_active && !firewall.required_ports_allowed) {
        return Classification::LocalFirewallBlock;
    }
    if network.likely_cgnat_or_double_nat {
        return Classification::LikelyUpstreamRestriction;
    }
    if !router_automation.available {
        return Classification::RouterAutomationUnsupported;
    }
    if router_automation.success {
        return Classification::Healthy;
    }
    Classification::ManualRouterActionRequired
}

/// The next step that the report recommends for a classification.
pub open spec fn remediation_of(
    classification: Classification,
    firewall: FirewallView,
    network: NetworkView,
    router: RouterView,
) -> Seq<char> {
    match classification {
        Classification::Healthy => "Required listeners are up and the local checks look good."@,
        Classification::MissingListener =>
            "Start Space Acres and make sure it is listening on 30333/tcp and 30433/tcp."@,
        Classification::PortConflict =>
            "Free the conflicting port or move the service before touching firewall or router rules."@,
        Classification::LocalFirewallBlock => if firewall.ufw_installed {
            "UFW is either inactive in an unexpected way or missing the allow rules Space Acres needs."@
        } else {
            "Install UFW or open 30333/tcp and 30433/tcp manually before retrying."@
        },
        Classification::ManualRouterActionRequired =>
            "Local checks look good, but the router mapping still needs manual attention."@,
        Classification::RouterAutomationUnsupported =>
            "Router automation is unavailable. Check UPnP on the gateway or configure port forwarding by hand. "@
                + router.details,
        Classification::LikelyUpstreamRestriction =>
            "The network shape suggests something upstream, like CGNAT or double NAT. Public IP hint: "@
                + match network.public_ip {
                Some(ip) => ip,
                None => "unavailable"@,
            },
    }
}

pub fn remediation_message(
    classification: Classification,
    firewall: &FirewallStatus,
    network: &NetworkSnapshot,
    router_automation: &RouterAutomationStatus,
) -> (res: String)
    ensures
        res@ == remediation_of(classification, firewall@, network@, router_automation@),
{
    match classification {
        Classification::Healthy => string_from(
            "Required listeners are up and the local checks look good.",
        ),
        Classification::MissingListener => string_from(
            "Start Space Acres and make sure it is listening on 30333/tcp and 30433/tcp.",
        ),
        Classification::PortConflict => string_from(
            "Free the conflicting port or move the service before touching firewall or router rules.",
        ),
        Classification::LocalFirewallBlock => {
            if firewall.ufw_installed {
                string_from(
                    "UFW is either inactive in an unexpected way or missing the allow rules Space Acres needs.",
                )
            } else {
                string_from("Install UFW or open 30333/tcp and 30433/tcp manually before retrying.")
            }
        },
        Classification::ManualRouterActionRequired => string_from(
            "Local checks look good, but the router mapping still needs manual attention.",
        ),
        Classification::RouterAutomationUnsupported => {
            let mut msg = string_from(
                "Router automation is unavailable. Check UPnP on the gateway or configure port forwarding by hand. ",
            );
            push_str(&mut msg, router_automation.details.as_str());
            msg
        },
        Classification::LikelyUpstreamRestriction => {
            let mut msg = string_from(
                "The network shape suggests something upstream, like CGNAT or double NAT. Public IP hint: ",
            );
            match &network.public_ip {
                Some(ip) => push_str(&mut msg, ip.as_str()),
                None => push_str(&mut msg, "unavailable"),
            }
            msg
        },
    }
}

// ---------------------------------------------------------------------------
// Inspection
// ---------------------------------------------------------------------------

/// The report read from the six inspection outputs, in the order of
/// `inspection_request`.
pub open spec fn report_of(profile: ProfileView, platform: Seq<char>, outs: Seq<OutputView>) -> ReportView {
    let listeners = listeners_of(profile, outs[0]);
    let firewall = firewall_of(profile, platform, outs[1]);
    let router = router_of(profile, lan_ip_of(outs[2]), outs[5]);
    let network = network_of(platform, outs[2], outs[3], outs[4], router.external_ip);
    let classification = classification_of(listeners, firewall, network, router);
    ReportView {
        profile: profile.id,
        classification,
        remediation_message: remediation_of(classification, firewall, network, router),
        error_code: classification.code(),
        listeners,
        firewall,
        network,
        router_automation: router,
        actions_attempted: Seq::empty(),
    }
}

pub open spec fn request(program: Seq<char>, args: Seq<Seq<char>>) -> RequestView {
    RequestView { program, args }
}

/// The six read-only commands of an inspection, in the order they run.
pub open spec fn inspection_request(k: int) -> RequestView {
    if k == 0 {
        request("ss"@, seq!["-ltnp"@])
    } else if k == 1 {
        request("ufw"@, seq!["status"@])
    } else if k == 2 {
        request("hostname"@, seq!["-I"@])
    } else if k == 3 {
        request("ip"@, seq!["route"@])
    } else if k == 4 {
        request("curl"@, seq!["-fsSL"@, "https://api.ipify.org"@])
    } else {
        request("upnpc"@, seq!["-l"@])
    }
}

/// The number of commands an inspection runs.
pub open spec fn inspection_len() -> int {
    6
}

/// What an inspection needs after the outputs so far.
pub open spec fn inspect_step_of(profile: ProfileView, platform: Seq<char>, outs: Seq<OutputView>) -> StepView {
    if outs.len() < inspection_len() {
        StepView::Run(inspection_request(outs.len() as int))
    } else {
        StepView::Done(report_of(profile, platform, outs))
    }
}

/// A command with its arguments.
pub fn command(program: &str, args: &Vec<&'static str>) -> (res: CommandRequest)
    ensures
        res@ == request(program@, str_views(args@)),
{
    let mut owned: Vec<String> = Vec::new();
    let n = args.len();
    for i in 0..n
        invariant
            n == args@.len(),
            owned.deep_view() == str_views(args@).take(i as int),
    {
        let ghost before = owned.deep_view();
        owned.push(string_from(args[i]));
        assert(owned.deep_view() =~= before.push(args@[i as int]@));
        assert(str_views(args@).take(i + 1) =~= str_views(args@).take(i as int).push(args@[i as int]@));
    }
    assert(str_views(args@).take(n as int) =~= str_views(args@));
    CommandRequest { program: string_from(program), args: owned }
}

/// The `k`-th command of an inspection.
pub fn inspection_command(k: usize) -> (res: CommandRequest)
    requires
        k < inspection_len(),
    ensures
        res@ == inspection_request(k as int),
{
    let mut args: Vec<&'static str> = Vec::new();
    if k == 0 {
        args.push("-ltnp");
        assert(str_views(args@) =~= seq!["-ltnp"@]);
        command("ss", &args)
    } else if k == 1 {
        args.push("status");
        assert(str_views(args@) =~= seq!["status"@]);
        command("ufw", &args)
    } else if k == 2 {
        args.push("-I");
        assert(str_views(args@) =~= seq!["-I"@]);
        command("hostname", &args)
    } else if k == 3 {
        args.push("route");
        assert(str_views(args@) =~= seq!["route"@]);
        command("ip", &args)
    } else if k == 4 {
        args.push("-fsSL");
        args.push("https://api.ipify.org");
        assert(str_views(args@) =~= seq!["-fsSL"@, "https://api.ipify.org"@]);
        command("curl", &args)
    } else {
        args.push("-l");
        assert(str_views(args@) =~= seq!["-l"@]);
        command("upnpc", &args)
    }
}

/// The report read from the six outputs that start at `at`.
pub fn report_from_outputs(
    profile: &Profile,
    platform: &str,
    outputs: &Vec<CommandOutput>,
    at: usize,
) -> (res: InspectionReport)
    requires
        at + inspection_len() <= outputs.len(),
    ensures
        res@ == report_of(
            profile@,
            platform@,
            output_views(outputs@).subrange(at as int, at + inspection_len()),
        ),
{
    let listeners = inspect_listeners(profile, &outputs[at]);
    let firewall = parse_firewall_status(profile, platform, &outputs[at + 1]);
    let lan_ip = parse_lan_ip(&outputs[at + 2]);
    let router_automation = parse_router_status(profile, &lan_ip, &outputs[at + 5]);
    let network = inspect_network(
        platform,
        &outputs[at + 2],
        &outputs[at + 3],
        &outputs[at + 4],
        &router_automation.external_ip,
    );
    let classification = classify(&listeners, &firewall, &network, &router_automation);
    let remediation_message = remediation_message(
        classification,
        &firewall,
        &network,
        &router_automation,
    );
    let actions_attempted: Vec<crate::model::ActionRecord> = Vec::new();
    let res = InspectionReport {
        profile: string_from(profile.id),
        classification,
        remediation_message,
        error_code: string_from(classification.error_code()),
        listeners,
        firewall,
        network,
        router_automation,
        actions_attempted,
    };
    assert(action_views(res.actions_attempted@) =~= Seq::<crate::model::ActionView>::empty());
    res
}

/// What an inspection needs next, given the outputs of the commands it asked
/// for so far: the next read-only command, or the report.
pub fn inspect(profile: &Profile, platform: &str, outputs: &Vec<CommandOutput>) -> (res: Step)
    ensures
        res@ == inspect_step_of(profile@, platform@, output_views(outputs@)),
{
    if outputs.len() < 6 {
        Step::Run(inspection_command(outputs.len()))
    } else {
        let report = report_from_outputs(profile, platform, outputs, 0);
        assert(output_views(outputs@).subrange(0, 6) =~= output_views(outputs@).take(6));
        Step::Done(report)
    }
}

// ---------------------------------------------------------------------------
// Laws
// ---------------------------------------------------------------------------

/// An inspection asks only for the six read-only commands, each once and in
/// order, and its report carries the code of its classification and records
/// no action.
pub proof fn inspect_only_reads(profile: ProfileView, platform: Seq<char>, outs: Seq<OutputView>)
    ensures
        match inspect_step_of(profile, platform, outs) {
            StepView::Run(r) => outs.len() < inspection_len() && r == inspection_request(outs.len() as int),
            StepView::Done(r) => {
                &&& r.error_code == r.classification.code()
                &&& r.actions_attempted.len() == 0
            },
        },
{
}

/// A CGNAT or double-NAT hint is raised exactly when the public address seen
/// from the host is private, the router's external address is private, or
/// both are known and differ.
pub proof fn upstream_hint_follows_the_addresses(
    platform: Seq<char>,
    lan: OutputView,
    routes: OutputView,
    public: OutputView,
    external_ip: Option<Seq<char>>,
)
    ensures
        ({
            let n = network_of(platform, lan, routes, public, external_ip);
            n.likely_cgnat_or_double_nat <==> {
                ||| (n.public_ip matches Some(p) && is_private_ipv4_text(p))
                ||| (external_ip matches Some(e) && is_private_ipv4_text(e))
                ||| (n.public_ip matches Some(p) && external_ip matches Some(e) && p != e)
            }
        }),
{
}

/// A listener owned by another process outranks every other finding, and a
/// missing listener outranks every finding but that.
pub proof fn listener_findings_come_first(
    listeners: Seq<PortCheckView>,
    firewall: FirewallView,
    network: NetworkView,
    router: RouterView,
    i: int,
)
    requires
        0 <= i < listeners.len(),
    ensures
        listeners[i].occupied_by_other_process ==> classification_of(listeners, firewall, network, router)
            == Classification::PortConflict,
        !listeners[i].listening ==> (classification_of(listeners, firewall, network, router)
            == Classification::PortConflict || classification_of(listeners, firewall, network, router)
            == Classification::MissingListener),
{
}

/// A healthy classification means every listener is up and unshared, the
/// firewall lets the ports in, nothing upstream is suspected and the router
/// has both mappings.
pub proof fn healthy_means_every_check_passed(
    listeners: Seq<PortCheckView>,
    firewall: FirewallView,
    network: NetworkView,
    router: RouterView,
)
    ensures
        classification_of(listeners, firewall, network, router) == Classification::Healthy <==> {
            &&& forall|i: int| 0 <= i < listeners.len() ==> (#[trigger] listeners[i]).listening
                && !listeners[i].occupied_by_other_process
            &&& firewall.ufw_installed
            &&& !firewall.ufw_active || firewall.required_ports_allowed
            &&& !network.likely_cgnat_or_double_nat
            &&& router.available
            &&& router.success
        },
{
}

/// The router maps every required port to the LAN address that the same
/// inspection detected.
pub open spec fn mapped_to_detected_lan(profile: ProfileView, outs: Seq<OutputView>) -> bool {
    &&& outs[5].success
    &&& lan_ip_of(outs[2]) matches Some(lan)
    &&& mappings_point_to(profile, non_blank(lines(outs[5].stdout)), lan)
}

/// An inspection never calls a setup healthy unless the router reports a
/// mapping of every required port to the machine's detected LAN address, so
/// stale or unrelated mappings do not count.
pub proof fn healthy_only_with_mappings_to_the_lan(
    profile: ProfileView,
    platform: Seq<char>,
    outs: Seq<OutputView>,
)
    ensures
        report_of(profile, platform, outs).classification == Classification::Healthy ==> {
            &&& mapped_to_detected_lan(profile, outs)
            &&& report_of(profile, platform, outs).network.lan_ip == lan_ip_of(outs[2])
        },
{
}

/// Some line maps the required port, for its protocol, to `lan`.
pub open spec fn port_mapped(ls: Seq<Seq<char>>, r: crate::profile::PortRequirementView, lan: Seq<char>) -> bool {
    exists|i: int| 0 <= i < ls.len() && maps_port_to(lowercase(#[trigger] ls[i]), r.port, lowercase(r.protocol), lan)
}

/// Every required port is mapped to `lan`: one mapped port does not stand
/// for the others.
pub open spec fn every_port_mapped(profile: ProfileView, ls: Seq<Seq<char>>, lan: Seq<char>) -> bool {
    forall|k: int| 0 <= k < profile.required_ports.len() ==> port_mapped(ls, #[trigger] profile.required_ports[k], lan)
}

/// The router check counts the mappings as present exactly when every
/// required port is mapped to the LAN address.
pub proof fn every_port_mapped_is_what_counts(profile: ProfileView, ls: Seq<Seq<char>>, lan: Seq<char>)
    ensures
        mappings_point_to(profile, ls, lan) <==> every_port_mapped(profile, ls, lan),
{
    assert forall|k: int| 0 <= k < profile.required_ports.len() implies (port_mapped(
        ls,
        #[trigger] profile.required_ports[k],
        lan,
    ) <==> has_mapping_to(ls, profile.required_ports[k].port, profile.required_ports[k].protocol, lan)) by {}
}

/// The router reports success exactly when `upnpc -l` answered, a LAN address
/// was detected, and for every required port some non-blank line of the
/// listing maps that port to that address; a listing that maps only some of
/// the ports is no success.
pub proof fn router_success_needs_every_port(profile: ProfileView, lan_ip: Option<Seq<char>>, out: OutputView)
    ensures
        router_of(profile, lan_ip, out).success <==> {
            &&& out.success
            &&& lan_ip is Some
            &&& every_port_mapped(profile, non_blank(lines(out.stdout)), lan_ip->0)
        },
{
    if out.success && lan_ip is Some {
        every_port_mapped_is_what_counts(profile, non_blank(lines(out.stdout)), lan_ip->0);
    }
}

/// An inspection calls a setup healthy only when the router listing maps each
/// required port to the LAN address that the same inspection detected.
pub proof fn healthy_needs_every_port_mapped(profile: ProfileView, platform: Seq<char>, outs: Seq<OutputView>)
    ensures
        report_of(profile, platform, outs).classification == Classification::Healthy ==> {
            &&& outs[5].success
            &&& lan_ip_of(outs[2]) is Some
            &&& every_port_mapped(profile, non_blank(lines(outs[5].stdout)), lan_ip_of(outs[2])->0)
        },
{
    router_success_needs_every_port(profile, lan_ip_of(outs[2]), outs[5]);
    let r = report_of(profile, platform, outs);
    healthy_means_every_check_passed(r.listeners, r.firewall, r.network, r.router_automation);
}

} // verus!
