//! The supported node profiles and the public ports each one needs.
use vstd::prelude::*;
use crate::text::{chars_eq, chars_of, push_str, string_of};

verus! {

#[derive(Debug, Clone)]
pub struct PortRequirement {
    pub port: u16,
    pub protocol: &'static str,
}

pub struct PortRequirementView {
    pub port: u16,
    pub protocol: Seq<char>,
}

impl View for PortRequirement {
    type V = PortRequirementView;

    open spec fn view(&self) -> PortRequirementView {
        PortRequirementView { port: self.port, protocol: self.protocol@ }
    }
}

#[derive(Debug, Clone)]
pub struct Profile {
    pub id: &'static str,
    pub display_name: &'static str,
    pub process_hints: Vec<&'static str>,
    pub required_ports: Vec<PortRequirement>,
}

pub struct ProfileView {
    pub id: Seq<char>,
    pub display_name: Seq<char>,
    pub process_hints: Seq<Seq<char>>,
    pub required_ports: Seq<PortRequirementView>,
}

impl View for Profile {
    type V = ProfileView;

    open spec fn view(&self) -> ProfileView {
        ProfileView {
            id: self.id@,
            display_name: self.display_name@,
            process_hints: str_views(self.process_hints@),
            required_ports: self.required_ports@.map_values(|r: PortRequirement| r@),
        }
    }
}

/// The texts of a sequence of string literals.
pub open spec fn str_views(v: Seq<&'static str>) -> Seq<Seq<char>> {
    v.map_values(|h: &'static str| h@)
}

/// The Space Acres profile: its process names and the two TCP ports that must
/// be reachable from outside.
pub open spec fn space_acres() -> ProfileView {
    ProfileView {
        id: "space-acres"@,
        display_name: "Space Acres"@,
        process_hints: seq!["subspace"@, "space-acres"@, "farmer"@, "node"@],
        required_ports: seq![
            PortRequirementView { port: 30333, protocol: "tcp"@ },
            PortRequirementView { port: 30433, protocol: "tcp"@ },
        ],
    }
}

/// The message for a profile that is not supported.
pub open spec fn unsupported_profile_message(id: Seq<char>) -> Seq<char> {
    "Unsupported profile '"@ + id + "'. MVP currently supports only 'space-acres'."@
}

pub fn load_profile(id: &str) -> (res: Result<Profile, String>)
    ensures
        id@ == "space-acres"@ ==> (res matches Ok(p) && p@ == space_acres()),
        id@ != "space-acres"@ ==> (res matches Err(e) && e@ == unsupported_profile_message(id@)),
{
    let given = chars_of(id);
    let supported = chars_of("space-acres");
    if chars_eq(&given, &supported) {
        let mut process_hints: Vec<&'static str> = Vec::new();
        process_hints.push("subspace");
        process_hints.push("space-acres");
        process_hints.push("farmer");
        process_hints.push("node");
        let mut required_ports: Vec<PortRequirement> = Vec::new();
        required_ports.push(PortRequirement { port: 30333, protocol: "tcp" });
        required_ports.push(PortRequirement { port: 30433, protocol: "tcp" });
        let p = Profile {
            id: "space-acres",
            display_name: "Space Acres",
            process_hints,
            required_ports,
        };
        assert(p@.process_hints =~= space_acres().process_hints);
        assert(p@.required_ports =~= space_acres().required_ports);
        Ok(p)
    } else {
        let mut msg = string_of(&chars_of("Unsupported profile '"));
        push_str(&mut msg, id);
        push_str(&mut msg, "'. MVP currently supports only 'space-acres'.");
        Err(msg)
    }
}

} // verus!
