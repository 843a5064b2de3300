//! Who the agent is: its version and its identifier.
use crate::text::same;
use vstd::prelude::*;

verus! {

/// What was built, and from what.
pub struct VersionInfo {
    pub name: &'static str,
    pub branch: &'static str,
    pub commit_id: &'static str,
    pub rev_count: &'static str,
    pub compiler: &'static str,
    pub compile_time: &'static str,
    pub revision: &'static str,
}

impl VersionInfo {
    /// Whether the name is that of one of the two editions.
    pub open spec fn is_known(&self) -> bool {
        self.name@ == "zerotrace-agent-ce"@ || self.name@ == "zerotrace-agent-ee"@
    }

    /// Whether the name is that of one of the two editions.
    pub fn known(&self) -> (r: bool)
        ensures
            r == self.is_known(),
    {
        same(self.name, "zerotrace-agent-ce") || same(self.name, "zerotrace-agent-ee")
    }

    /// Whether this is the community edition, in which the packet capture assembler is always
    /// disabled.
    pub fn is_ce_version(&self) -> (r: bool)
        ensures
            r == (self.name@ == "zerotrace-agent-ce"@),
    {
        same(self.name, "zerotrace-agent-ce")
    }

    /// Edition, branch and commit on one line.
    pub fn brief_tag(&self) -> (r: String)
        requires
            self.is_known(),
        ensures
            r@ == (if self.name@ == "zerotrace-agent-ce"@ {
                "CE"@
            } else {
                "EE"@
            }) + "|"@ + self.branch@ + "|"@ + self.commit_id@,
    {
        let mut r = if self.is_ce_version() {
            "CE".to_owned()
        } else {
            "EE".to_owned()
        };
        r.append("|");
        r.append(self.branch);
        r.append("|");
        r.append(self.commit_id);
        r
    }

    pub open spec fn shown(&self) -> Seq<char> {
        self.rev_count@ + "-"@ + self.commit_id@ + "\nName: "@ + (if self.name@
            == "zerotrace-agent-ce"@ {
            "zerotrace-agent community edition"@
        } else {
            "zerotrace-agent enterprise edition"@
        }) + "\nBranch: "@ + self.branch@ + "\nCommitId: "@ + self.commit_id@ + "\nRevCount: "@
            + self.rev_count@ + "\nCompiler: "@ + self.compiler@ + "\nCompileTime: "@
            + self.compile_time@
    }

    /// Writes all there is to know about the build.
    pub fn display(&self) -> (r: String)
        requires
            self.is_known(),
        ensures
            r@ == self.shown(),
    {
        let mut r = self.rev_count.to_owned();
        r.append("-");
        r.append(self.commit_id);
        r.append("\nName: ");
        if self.is_ce_version() {
            r.append("zerotrace-agent community edition");
        } else {
            r.append("zerotrace-agent enterprise edition");
        }
        r.append("\nBranch: ");
        r.append(self.branch);
        r.append("\nCommitId: ");
        r.append(self.commit_id);
        r.append("\nRevCount: ");
        r.append(self.rev_count);
        r.append("\nCompiler: ");
        r.append(self.compiler);
        r.append("\nCompileTime: ");
        r.append(self.compile_time);
        r
    }
}

/// An address and the hardware address of its interface, as text.
#[derive(Clone, Debug)]
pub struct IpMacPair {
    pub ip: String,
    pub mac: String,
}

/// What tells agents apart.
#[derive(Clone, Debug)]
pub struct AgentId {
    pub ipmac: IpMacPair,
    pub team_id: String,
    pub group_id: String,
}

/// The identifier as it is sent to the controller.
#[derive(Clone, Debug)]
pub struct AgentIdMessage {
    pub ip: Option<String>,
    pub mac: Option<String>,
    pub team_id: Option<String>,
    pub group_id: Option<String>,
}

impl AgentId {
    pub open spec fn shown(&self) -> Seq<char> {
        let head = self.ipmac.ip@ + "/"@ + self.ipmac.mac@;
        let team = if self.team_id@.len() > 0 {
            head + "/team="@ + self.team_id@
        } else {
            head
        };
        if self.group_id@.len() > 0 {
            team + "/group="@ + self.group_id@
        } else {
            team
        }
    }

    /// Writes the identifier; empty parts are left out.
    pub fn display(&self) -> (r: String)
        ensures
            r@ == self.shown(),
    {
        let mut r = self.ipmac.ip.as_str().to_owned();
        r.append("/");
        r.append(self.ipmac.mac.as_str());
        if !self.team_id.as_str().is_empty() {
            r.append("/team=");
            r.append(self.team_id.as_str());
        }
        if !self.group_id.as_str().is_empty() {
            r.append("/group=");
            r.append(self.group_id.as_str());
        }
        r
    }

    /// The identifier as it is sent to the controller.
    pub fn message(&self) -> (r: AgentIdMessage)
        ensures
            r.ip == Some(self.ipmac.ip),
            r.mac == Some(self.ipmac.mac),
            r.team_id == Some(self.team_id),
            r.group_id == Some(self.group_id),
    {
        AgentIdMessage {
            ip: Some(self.ipmac.ip.clone()),
            mac: Some(self.ipmac.mac.clone()),
            team_id: Some(self.team_id.clone()),
            group_id: Some(self.group_id.clone()),
        }
    }
}

} // verus!
