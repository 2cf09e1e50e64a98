//! The command line: `inspect`, `apply` and `report`, each with an optional
//! `--profile`, and `--json` for `report`.
use vstd::prelude::*;
use crate::text::{chars_eq, chars_of, push_str, string_from};

verus! {

#[derive(Debug, Clone)]
pub struct RoleArgs {
    pub profile: String,
}

#[derive(Debug, Clone)]
pub struct ApplyArgs {
    pub role: RoleArgs,
}

#[derive(Debug, Clone)]
pub struct ReportArgs {
    pub role: RoleArgs,
    pub json: bool,
}

/// The arguments of `renew`: the profile, and the LAN address and gateway
/// known from before, where given.
#[derive(Debug, Clone)]
pub struct RenewArgs {
    pub role: RoleArgs,
    pub previous_lan_ip: Option<String>,
    pub previous_gateway: Option<String>,
}

#[derive(Debug)]
pub enum Command {
    Inspect(RoleArgs),
    Apply(ApplyArgs),
    Renew(RenewArgs),
    Report(ReportArgs),
}

#[derive(Debug)]
pub struct Cli {
    pub command: Command,
}

/// A parsed command: its name's variant, the profile, for `renew` the
/// previous LAN address and gateway, and for `report` whether JSON was asked
/// for.
pub enum CommandView {
    Inspect(Seq<char>),
    Apply(Seq<char>),
    Renew(Seq<char>, Option<Seq<char>>, Option<Seq<char>>),
    Report(Seq<char>, bool),
}

impl View for Command {
    type V = CommandView;

    open spec fn view(&self) -> CommandView {
        match self {
            Command::Inspect(a) => CommandView::Inspect(a.profile@),
            Command::Apply(a) => CommandView::Apply(a.role.profile@),
            Command::Renew(a) => CommandView::Renew(
                a.role.profile@,
                a.previous_lan_ip.deep_view(),
                a.previous_gateway.deep_view(),
            ),
            Command::Report(a) => CommandView::Report(a.role.profile@, a.json),
        }
    }
}

impl View for Cli {
    type V = CommandView;

    open spec fn view(&self) -> CommandView {
        self.command@
    }
}

pub open spec fn usage_body() -> Seq<char> {
    "Usage:\n  reachability-assistant inspect [--profile space-acres]\n  reachability-assistant apply [--profile space-acres]\n  reachability-assistant renew [--profile space-acres] [--previous-lan-ip IP] [--previous-gateway IP]\n  reachability-assistant report [--profile space-acres] [--json]\n\nMVP scope:\n  - Linux only\n  - Space Acres profile only\n  - UFW firewall support\n  - One router automation backend\n"@
}

/// The usage text, after an error message when there is one.
pub open spec fn usage_text(error: Seq<char>) -> Seq<char> {
    if error.len() == 0 {
        usage_body()
    } else {
        error + "\n\n"@ + usage_body()
    }
}

/// The value after the first occurrence of `flag`; an error when `flag` is last.
pub open spec fn optional_value_of(args: Seq<Seq<char>>, flag: Seq<char>) -> Result<Option<Seq<char>>, Seq<char>>
    decreases args.len(),
{
    if args.len() == 0 {
        Ok(None)
    } else if args[0] == flag {
        if args.len() >= 2 {
            Ok(Some(args[1]))
        } else {
            Err(usage_text("Expected a value after "@ + flag))
        }
    } else {
        optional_value_of(args.drop_first(), flag)
    }
}

/// The profile named after `--profile`, `space-acres` when there is none.
pub open spec fn profile_arg_of(args: Seq<Seq<char>>) -> Result<Seq<char>, Seq<char>> {
    match optional_value_of(args, "--profile"@) {
        Ok(Some(p)) => Ok(p),
        Ok(None) => Ok("space-acres"@),
        Err(e) => Err(e),
    }
}

pub open spec fn has_arg(args: Seq<Seq<char>>, a: Seq<char>) -> bool {
    exists|i: int| 0 <= i < args.len() && args[i] == a
}

/// The parsed command line (the arguments after the program name); help and
/// version requests come back as an error holding the text to print.
pub open spec fn cli_of(args: Seq<Seq<char>>) -> Result<CommandView, Seq<char>> {
    if args.len() == 0 {
        Err(usage_text("Missing command. Expected one of: inspect, apply, renew, report"@))
    } else {
        let command = args[0];
        let rest = args.drop_first();
        if command == "inspect"@ {
            match profile_arg_of(rest) {
                Ok(p) => Ok(CommandView::Inspect(p)),
                Err(e) => Err(e),
            }
        } else if command == "apply"@ {
            match profile_arg_of(rest) {
                Ok(p) => Ok(CommandView::Apply(p)),
                Err(e) => Err(e),
            }
        } else if command == "renew"@ {
            match profile_arg_of(rest) {
                Ok(p) => match optional_value_of(rest, "--previous-lan-ip"@) {
                    Ok(lan) => match optional_value_of(rest, "--previous-gateway"@) {
                        Ok(gateway) => Ok(CommandView::Renew(p, lan, gateway)),
                        Err(e) => Err(e),
                    },
                    Err(e) => Err(e),
                },
                Err(e) => Err(e),
            }
        } else if command == "report"@ {
            match profile_arg_of(rest) {
                Ok(p) => Ok(CommandView::Report(p, has_arg(rest, "--json"@))),
                Err(e) => Err(e),
            }
        } else if command == "--help"@ || command == "-h"@ {
            Err(usage_text(Seq::empty()))
        } else if command == "--version"@ || command == "-V"@ {
            Err("reachability-assistant-mvp 0.1.0"@)
        } else {
            Err(usage_text("Unknown command. Expected one of: inspect, apply, renew, report"@))
        }
    }
}

pub fn usage(error: &str) -> (res: String)
    ensures
        res@ == usage_text(error@),
{
    let body = "Usage:\n  reachability-assistant inspect [--profile space-acres]\n  reachability-assistant apply [--profile space-acres]\n  reachability-assistant renew [--profile space-acres] [--previous-lan-ip IP] [--previous-gateway IP]\n  reachability-assistant report [--profile space-acres] [--json]\n\nMVP scope:\n  - Linux only\n  - Space Acres profile only\n  - UFW firewall support\n  - One router automation backend\n";
    let e = chars_of(error);
    if e.len() == 0 {
        string_from(body)
    } else {
        let mut s = string_from(error);
        push_str(&mut s, "\n\n");
        push_str(&mut s, body);
        s
    }
}

fn is_arg(arg: &String, literal: &str) -> (res: bool)
    ensures
        res == (arg@ == literal@),
{
    chars_eq(&chars_of(arg.as_str()), &chars_of(literal))
}

/// The value after the first occurrence of `flag` among `args[from..]`.
pub fn parse_optional_value(args: &Vec<String>, from: usize, flag: &str) -> (res: Result<Option<String>, String>)
    requires
        from <= args.len(),
    ensures
        match (res, optional_value_of(args.deep_view().skip(from as int), flag@)) {
            (Ok(Some(v)), Ok(Some(w))) => v@ == w,
            (Ok(None), Ok(None)) => true,
            (Err(e), Err(w)) => e@ == w,
            _ => false,
        },
{
    let n = args.len();
    let ghost all = args.deep_view();
    let mut i = from;
    while i < n
        invariant
            n == args@.len(),
            all == args.deep_view(),
            from <= i <= n,
            optional_value_of(all.skip(from as int), flag@) == optional_value_of(all.skip(i as int), flag@),
        decreases n - i,
    {
        assert(all.skip(i as int).drop_first() =~= all.skip(i + 1));
        if is_arg(&args[i], flag) {
            if i + 1 < n {
                assert(all.skip(i as int)[1] == all[i + 1]);
                return Ok(Some(args[i + 1].clone()));
            }
            let mut message = string_from("Expected a value after ");
            push_str(&mut message, flag);
            return Err(usage(message.as_str()));
        }
        i = i + 1;
    }
    Ok(None)
}

/// The profile named after `--profile` among `args[from..]`, `space-acres`
/// when there is none.
pub fn parse_profile(args: &Vec<String>, from: usize) -> (res: Result<String, String>)
    requires
        from <= args.len(),
    ensures
        match (res, profile_arg_of(args.deep_view().skip(from as int))) {
            (Ok(v), Ok(w)) => v@ == w,
            (Err(e), Err(w)) => e@ == w,
            _ => false,
        },
{
    match parse_optional_value(args, from, "--profile") {
        Ok(Some(v)) => Ok(v),
        Ok(None) => Ok(string_from("space-acres")),
        Err(e) => Err(e),
    }
}

fn has_json_flag(args: &Vec<String>) -> (res: bool)
    requires
        args.len() >= 1,
    ensures
        res == has_arg(args.deep_view().drop_first(), "--json"@),
{
    let n = args.len();
    let ghost rest = args.deep_view().drop_first();
    for i in 1..n
        invariant
            n == args@.len(),
            rest == args.deep_view().drop_first(),
            forall|j: int| 0 <= j < i - 1 ==> rest[j] != "--json"@,
    {
        if is_arg(&args[i], "--json") {
            assert(rest[i - 1] == "--json"@);
            return true;
        }
    }
    false
}

impl Cli {
    /// The command line, given the arguments after the program name. Help and
    /// version requests come back as an error holding the text to print.
    pub fn parse(args: &Vec<String>) -> (res: Result<Cli, String>)
        ensures
            match (res, cli_of(args.deep_view())) {
                (Ok(c), Ok(v)) => c@ == v,
                (Err(e), Err(w)) => e@ == w,
                _ => false,
            },
    {
        if args.len() == 0 {
            return Err(usage("Missing command. Expected one of: inspect, apply, renew, report"));
        }
        assert(args.deep_view().skip(1) =~= args.deep_view().drop_first());
        let command = &args[0];
        if is_arg(command, "inspect") {
            match parse_profile(args, 1) {
                Ok(profile) => Ok(Cli { command: Command::Inspect(RoleArgs { profile }) }),
                Err(e) => Err(e),
            }
        } else if is_arg(command, "apply") {
            match parse_profile(args, 1) {
                Ok(profile) => Ok(Cli { command: Command::Apply(ApplyArgs { role: RoleArgs { profile } }) }),
                Err(e) => Err(e),
            }
        } else if is_arg(command, "renew") {
            let profile = match parse_profile(args, 1) {
                Ok(p) => p,
                Err(e) => {
                    return Err(e);
                },
            };
            let previous_lan_ip = match parse_optional_value(args, 1, "--previous-lan-ip") {
                Ok(v) => v,
                Err(e) => {
                    return Err(e);
                },
            };
            let previous_gateway = match parse_optional_value(args, 1, "--previous-gateway") {
                Ok(v) => v,
                Err(e) => {
                    return Err(e);
                },
            };
            Ok(
                Cli {
                    command: Command::Renew(
                        RenewArgs { role: RoleArgs { profile }, previous_lan_ip, previous_gateway },
                    ),
                },
            )
        } else if is_arg(command, "report") {
            match parse_profile(args, 1) {
                Ok(profile) => {
                    let json = has_json_flag(args);
                    Ok(Cli { command: Command::Report(ReportArgs { role: RoleArgs { profile }, json }) })
                },
                Err(e) => Err(e),
            }
        } else if is_arg(command, "--help") || is_arg(command, "-h") {
            let r = usage("");
            proof {
                reveal_strlit("");
            }
            Err(r)
        } else if is_arg(command, "--version") || is_arg(command, "-V") {
            Err(string_from("reachability-assistant-mvp 0.1.0"))
        } else {
            Err(usage("Unknown command. Expected one of: inspect, apply, renew, report"))
        }
    }
}

} // verus!
