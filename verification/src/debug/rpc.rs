//! What can be asked about the exchange with the controller.
use crate::text::{decimal, quoted, signed_decimal};
use vstd::prelude::*;

verus! {

use crate::text::{decimal_of, quoted_of, signed_decimal_of, texts};

/// What the controller says of the agent's configuration.
#[derive(PartialEq, Eq, Debug)]
pub struct ConfigResp {
    pub status: i32,
    pub version_platform_data: u64,
    pub version_acls: u64,
    pub version_groups: u64,
    pub revision: String,
    pub config: String,
    pub self_update_url: String,
}

/// Messages about the exchange with the controller.
#[derive(PartialEq, Eq, Debug)]
pub enum RpcMessage {
    Config(Option<String>),
    PlatformData(Option<String>),
    CaptureNetworkTypes(Option<String>),
    Cidr(Option<String>),
    Groups(Option<String>),
    Acls(Option<String>),
    Segments(Option<String>),
    Version(Option<String>),
    Error(String),
    /// Nothing follows.
    Fin,
}

/// What kept a question from being answered.
#[derive(Debug)]
pub enum DebugError {
    /// The controller could not be asked.
    Rpc(String),
    NotFound(String),
    FromUtf8(std::string::FromUtf8Error),
    InvalidMessage(String),
}

/// A reply of the controller, each listed item as text.
pub struct SyncResponse {
    pub status: i32,
    pub user_config: Option<String>,
    pub revision: Option<String>,
    pub self_update_url: Option<String>,
    pub version_platform_data: u64,
    pub version_acls: u64,
    pub version_groups: u64,
    pub capture_network_types: Vec<String>,
    pub local_segments: Vec<String>,
}

/// The configuration on one line, its texts as they are given.
pub open spec fn config_line(
    status: i32,
    versions: (u64, u64, u64),
    revision: Seq<char>,
    config: Seq<char>,
    self_update_url: Seq<char>,
) -> Seq<char> {
    "ConfigResp { status: "@ + signed_decimal_of(status as int) + ", version_platform_data: "@
        + decimal_of(versions.0 as nat) + ", version_acls: "@ + decimal_of(versions.1 as nat)
        + ", version_groups: "@ + decimal_of(versions.2 as nat) + ", revision: "@ + revision
        + ", config: "@ + config + ", self_update_url: "@ + self_update_url + " }"@
}

impl ConfigResp {
    /// The configuration on one line, its texts quoted.
    pub open spec fn shown(&self) -> Seq<char> {
        config_line(
            self.status,
            (self.version_platform_data, self.version_acls, self.version_groups),
            quoted_of(self.revision@),
            quoted_of(self.config@),
            quoted_of(self.self_update_url@),
        )
    }

    /// Writes the configuration on one line, its texts as they are given.
    pub fn display_with(&self, revision: &str, config: &str, self_update_url: &str) -> (r: String)
        ensures
            r@ == config_line(
                self.status,
                (self.version_platform_data, self.version_acls, self.version_groups),
                revision@,
                config@,
                self_update_url@,
            ),
    {
        let mut r = "ConfigResp { status: ".to_owned();
        r.append(signed_decimal(self.status).as_str());
        r.append(", version_platform_data: ");
        r.append(decimal(self.version_platform_data).as_str());
        r.append(", version_acls: ");
        r.append(decimal(self.version_acls).as_str());
        r.append(", version_groups: ");
        r.append(decimal(self.version_groups).as_str());
        r.append(", revision: ");
        r.append(revision);
        r.append(", config: ");
        r.append(config);
        r.append(", self_update_url: ");
        r.append(self_update_url);
        r.append(" }");
        r
    }

    /// Writes the configuration on one line.
    pub fn display(&self) -> (r: String)
        ensures
            r@ == self.shown(),
    {
        let revision = quoted(self.revision.as_str());
        let config = quoted(self.config.as_str());
        let url = quoted(self.self_update_url.as_str());
        self.display_with(revision.as_str(), config.as_str(), url.as_str())
    }
}

/// What a text is where it is given, and nothing where it is not.
pub open spec fn text_or_empty(s: Option<String>) -> Seq<char> {
    match s {
        Some(s) => s@,
        None => seq![],
    }
}

/// The configuration that a reply gives.
pub fn config_of(resp: SyncResponse) -> (r: ConfigResp)
    ensures
        r.status == resp.status,
        r.version_platform_data == resp.version_platform_data,
        r.version_acls == resp.version_acls,
        r.version_groups == resp.version_groups,
        r.config@ == text_or_empty(resp.user_config),
        r.revision@ == text_or_empty(resp.revision),
        r.self_update_url@ == text_or_empty(resp.self_update_url),
{
    ConfigResp {
        status: resp.status,
        version_platform_data: resp.version_platform_data,
        version_acls: resp.version_acls,
        version_groups: resp.version_groups,
        revision: resp.revision.unwrap_or_default(),
        config: resp.user_config.unwrap_or_default(),
        self_update_url: resp.self_update_url.unwrap_or_default(),
    }
}

/// What kind of list is sent.
#[derive(Debug, Clone, Copy, PartialEq, Eq, Structural)]
pub enum RpcList {
    PlatformData,
    CaptureNetworkTypes,
    Cidr,
    Groups,
    Acls,
    Segments,
}

impl RpcList {
    /// Whether a message holds an item of such a list.
    pub open spec fn holds(self, message: RpcMessage, text: Seq<char>) -> bool {
        match (self, message) {
            (RpcList::PlatformData, RpcMessage::PlatformData(Some(s))) => s@ == text,
            (RpcList::CaptureNetworkTypes, RpcMessage::CaptureNetworkTypes(Some(s))) => s@
                == text,
            (RpcList::Cidr, RpcMessage::Cidr(Some(s))) => s@ == text,
            (RpcList::Groups, RpcMessage::Groups(Some(s))) => s@ == text,
            (RpcList::Acls, RpcMessage::Acls(Some(s))) => s@ == text,
            (RpcList::Segments, RpcMessage::Segments(Some(s))) => s@ == text,
            _ => false,
        }
    }

    fn message(self, text: String) -> (r: RpcMessage)
        ensures
            self.holds(r, text@),
    {
        match self {
            RpcList::PlatformData => RpcMessage::PlatformData(Some(text)),
            RpcList::CaptureNetworkTypes => RpcMessage::CaptureNetworkTypes(Some(text)),
            RpcList::Cidr => RpcMessage::Cidr(Some(text)),
            RpcList::Groups => RpcMessage::Groups(Some(text)),
            RpcList::Acls => RpcMessage::Acls(Some(text)),
            RpcList::Segments => RpcMessage::Segments(Some(text)),
        }
    }
}

/// Whether messages are the items of a list, one each, and the end.
pub open spec fn are_items(list: RpcList, items: Seq<Seq<char>>, messages: Seq<RpcMessage>) -> bool {
    &&& messages.len() == items.len() + 1
    &&& forall|i: int|
        0 <= i < items.len() ==> list.holds(#[trigger] messages[i], items[i])
    &&& messages.last() is Fin
}

fn push_items(out: &mut Vec<RpcMessage>, list: RpcList, items: &Vec<String>)
    ensures
        final(out)@.len() == old(out)@.len() + items@.len(),
        forall|i: int| 0 <= i < old(out)@.len() ==> #[trigger] final(out)@[i] == old(out)@[i],
        forall|i: int|
            0 <= i < items@.len() ==> list.holds(
                #[trigger] final(out)@[old(out)@.len() + i],
                items@[i]@,
            ),
{
    let ghost base = out@.len();
    let mut i: usize = 0;
    while i < items.len()
        invariant
            i <= items.len(),
            base == old(out)@.len(),
            out@.len() == base + i,
            forall|j: int| 0 <= j < base ==> #[trigger] out@[j] == old(out)@[j],
            forall|j: int| 0 <= j < i ==> list.holds(#[trigger] out@[base + j], items@[j]@),
        decreases items.len() - i,
    {
        out.push(list.message(items[i].clone()));
        i = i + 1;
    }
}

/// The items of a list, one message each, and the end.
fn answer_list(list: RpcList, items: &Vec<String>) -> (r: Vec<RpcMessage>)
    ensures
        are_items(list, texts(items@), r@),
{
    let mut r: Vec<RpcMessage> = Vec::new();
    push_items(&mut r, list, items);
    r.push(RpcMessage::Fin);
    assert forall|i: int| 0 <= i < texts(items@).len() implies list.holds(
        #[trigger] r@[i],
        texts(items@)[i],
    ) by {
        assert(r@[0 + i] == r@[i]);
    }
    r
}

/// Answers questions about the exchange with the controller. `resp` is what the controller
/// replied, or why it did not; lists hold each item as text.
pub struct RpcDebugger;

impl RpcDebugger {
    /// The configuration, and the end.
    pub fn basic_config(&self, resp: Result<SyncResponse, String>) -> (r: Result<
        Vec<RpcMessage>,
        DebugError,
    >)
        ensures
            match resp {
                Err(e) => r == Err::<Vec<RpcMessage>, DebugError>(DebugError::Rpc(e)),
                Ok(resp) => match resp.user_config {
                    None => r matches Err(DebugError::NotFound(text)) && text@
                        == "sync response's config is empty"@,
                    Some(_) => r matches Ok(v) && v@.len() == 2 && v@[1] is Fin && (
                    v@[0] matches RpcMessage::Config(Some(text)) && text@ == config_line(
                        resp.status,
                        (resp.version_platform_data, resp.version_acls, resp.version_groups),
                        quoted_of(text_or_empty(resp.revision)),
                        quoted_of(text_or_empty(resp.user_config)),
                        quoted_of(text_or_empty(resp.self_update_url)),
                    )),
                },
            },
    {
        let resp = match resp {
            Ok(resp) => resp,
            Err(e) => return Err(DebugError::Rpc(e)),
        };
        if resp.user_config.is_none() {
            return Err(DebugError::NotFound("sync response's config is empty".to_owned()));
        }
        let text = config_of(resp).display();
        let mut r: Vec<RpcMessage> = Vec::new();
        r.push(RpcMessage::Config(Some(text)));
        r.push(RpcMessage::Fin);
        Ok(r)
    }

    /// The capture network types, if there are any.
    pub fn tap_types(&self, resp: Result<SyncResponse, String>) -> (r: Result<
        Vec<RpcMessage>,
        DebugError,
    >)
        ensures
            match resp {
                Err(e) => r == Err::<Vec<RpcMessage>, DebugError>(DebugError::Rpc(e)),
                Ok(resp) => if resp.capture_network_types@.len() == 0 {
                    r matches Err(DebugError::NotFound(text)) && text@
                        == "sync response's capture_network_types is empty"@
                } else {
                    r matches Ok(v) && are_items(
                        RpcList::CaptureNetworkTypes,
                        texts(resp.capture_network_types@),
                        v@,
                    )
                },
            },
    {
        let resp = match resp {
            Ok(resp) => resp,
            Err(e) => return Err(DebugError::Rpc(e)),
        };
        if resp.capture_network_types.len() == 0 {
            return Err(
                DebugError::NotFound(
                    "sync response's capture_network_types is empty".to_owned(),
                ),
            );
        }
        Ok(answer_list(RpcList::CaptureNetworkTypes, &resp.capture_network_types))
    }

    /// The address ranges, once the platform data has a version. `cidrs` holds those known after
    /// the reply was taken up.
    pub fn cidrs(&self, resp: Result<SyncResponse, String>, cidrs: &Vec<String>) -> (r: Result<
        Vec<RpcMessage>,
        DebugError,
    >)
        ensures
            match resp {
                Err(e) => r == Err::<Vec<RpcMessage>, DebugError>(DebugError::Rpc(e)),
                Ok(resp) => if resp.version_platform_data == 0 {
                    r matches Err(DebugError::NotFound(text)) && text@
                        == "cidrs data in preparation"@
                } else {
                    r matches Ok(v) && are_items(RpcList::Cidr, texts(cidrs@), v@)
                },
            },
    {
        let resp = match resp {
            Ok(resp) => resp,
            Err(e) => return Err(DebugError::Rpc(e)),
        };
        if resp.version_platform_data == 0 {
            return Err(DebugError::NotFound("cidrs data in preparation".to_owned()));
        }
        Ok(answer_list(RpcList::Cidr, cidrs))
    }

    /// The interfaces and then their peers, once the platform data has a version.
    pub fn platform_data(
        &self,
        resp: Result<SyncResponse, String>,
        interfaces: &Vec<String>,
        peers: &Vec<String>,
    ) -> (r: Result<Vec<RpcMessage>, DebugError>)
        ensures
            match resp {
                Err(e) => r == Err::<Vec<RpcMessage>, DebugError>(DebugError::Rpc(e)),
                Ok(resp) => if resp.version_platform_data == 0 {
                    r matches Err(DebugError::NotFound(text)) && text@
                        == "platform data in preparation"@
                } else {
                    r matches Ok(v) && are_items(
                        RpcList::PlatformData,
                        texts(interfaces@) + texts(peers@),
                        v@,
                    )
                },
            },
    {
        let resp = match resp {
            Ok(resp) => resp,
            Err(e) => return Err(DebugError::Rpc(e)),
        };
        if resp.version_platform_data == 0 {
            return Err(DebugError::NotFound("platform data in preparation".to_owned()));
        }
        let mut out: Vec<RpcMessage> = Vec::new();
        push_items(&mut out, RpcList::PlatformData, interfaces);
        let ghost first = out@;
        push_items(&mut out, RpcList::PlatformData, peers);
        let ghost both = out@;
        out.push(RpcMessage::Fin);
        proof {
            let items = texts(interfaces@) + texts(peers@);
            assert forall|i: int| 0 <= i < items.len() implies RpcList::PlatformData.holds(
                #[trigger] out@[i],
                items[i],
            ) by {
                assert(out@[i] == both[i]);
                if i < interfaces@.len() {
                    assert(both[i] == first[0 + i]);
                } else {
                    let k = i - interfaces@.len();
                    assert(both[interfaces@.len() + k] == both[i]);
                }
            }
        }
        Ok(out)
    }

    /// The groups of addresses, once they have a version.
    pub fn ip_groups(&self, resp: Result<SyncResponse, String>, groups: &Vec<String>) -> (r: Result<
        Vec<RpcMessage>,
        DebugError,
    >)
        ensures
            match resp {
                Err(e) => r == Err::<Vec<RpcMessage>, DebugError>(DebugError::Rpc(e)),
                Ok(resp) => if resp.version_groups == 0 {
                    r matches Err(DebugError::NotFound(text)) && text@
                        == "ip groups data in preparation"@
                } else {
                    r matches Ok(v) && are_items(RpcList::Groups, texts(groups@), v@)
                },
            },
    {
        let resp = match resp {
            Ok(resp) => resp,
            Err(e) => return Err(DebugError::Rpc(e)),
        };
        if resp.version_groups == 0 {
            return Err(DebugError::NotFound("ip groups data in preparation".to_owned()));
        }
        Ok(answer_list(RpcList::Groups, groups))
    }

    /// The access lists, once they have a version.
    pub fn flow_acls(&self, resp: Result<SyncResponse, String>, acls: &Vec<String>) -> (r: Result<
        Vec<RpcMessage>,
        DebugError,
    >)
        ensures
            match resp {
                Err(e) => r == Err::<Vec<RpcMessage>, DebugError>(DebugError::Rpc(e)),
                Ok(resp) => if resp.version_acls == 0 {
                    r matches Err(DebugError::NotFound(text)) && text@
                        == "flow acls data in preparation"@
                } else {
                    r matches Ok(v) && are_items(RpcList::Acls, texts(acls@), v@)
                },
            },
    {
        let resp = match resp {
            Ok(resp) => resp,
            Err(e) => return Err(DebugError::Rpc(e)),
        };
        if resp.version_acls == 0 {
            return Err(DebugError::NotFound("flow acls data in preparation".to_owned()));
        }
        Ok(answer_list(RpcList::Acls, acls))
    }

    /// The local segments, if there are any.
    pub fn local_segments(&self, resp: Result<SyncResponse, String>) -> (r: Result<
        Vec<RpcMessage>,
        DebugError,
    >)
        ensures
            match resp {
                Err(e) => r == Err::<Vec<RpcMessage>, DebugError>(DebugError::Rpc(e)),
                Ok(resp) => if resp.local_segments@.len() == 0 {
                    r matches Err(DebugError::NotFound(text)) && text@
                        == "local segments data is empty, maybe zerotrace-agent is not properly configured"@
                } else {
                    r matches Ok(v) && are_items(
                        RpcList::Segments,
                        texts(resp.local_segments@),
                        v@,
                    )
                },
            },
    {
        let resp = match resp {
            Ok(resp) => resp,
            Err(e) => return Err(DebugError::Rpc(e)),
        };
        if resp.local_segments.len() == 0 {
            return Err(
                DebugError::NotFound(
                    "local segments data is empty, maybe zerotrace-agent is not properly configured".to_owned(),
                ),
            );
        }
        Ok(answer_list(RpcList::Segments, &resp.local_segments))
    }

    /// The versions that the agent has, and the end.
    pub fn current_version(
        &self,
        version_platform_data: u64,
        version_groups: u64,
        version_acls: u64,
    ) -> (r: Vec<RpcMessage>)
        ensures
            r@.len() == 2,
            r@[0] matches RpcMessage::Version(Some(text)) && text@ == "platformData version: "@
                + decimal_of(version_platform_data as nat) + "\n groups version: "@ + decimal_of(
                version_groups as nat,
            ) + "\nflowAcls version: "@ + decimal_of(version_acls as nat),
            r@[1] is Fin,
    {
        let mut text = "platformData version: ".to_owned();
        text.append(decimal(version_platform_data).as_str());
        text.append("\n groups version: ");
        text.append(decimal(version_groups).as_str());
        text.append("\nflowAcls version: ");
        text.append(decimal(version_acls).as_str());
        let mut r: Vec<RpcMessage> = Vec::new();
        r.push(RpcMessage::Version(Some(text)));
        r.push(RpcMessage::Fin);
        r
    }

    /// What is sent for an answer: the messages, or a single one with the error's text.
    pub fn reply(&self, answer: Result<Vec<RpcMessage>, String>) -> (r: Vec<RpcMessage>)
        ensures
            match answer {
                Ok(messages) => r == messages,
                Err(e) => r@ == seq![RpcMessage::Error(e)],
            },
    {
        match answer {
            Ok(messages) => messages,
            Err(e) => {
                let mut r: Vec<RpcMessage> = Vec::new();
                r.push(RpcMessage::Error(e));
                r
            },
        }
    }
}

} // verus!
