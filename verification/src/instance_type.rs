//! Kinds of instance and the ports each kind exposes.

use crate::text::{lowercase, lowercase_of, same_text};
use vstd::prelude::*;

verus! {

/// What an instance is: a game server or a network proxy.
#[derive(Debug, Clone, Copy, PartialEq, Eq, Structural)]
pub enum InstanceType {
    Server,
    Proxy,
}

/// Port on which proxies publish their metrics.
pub const METRICS_PORT: u16 = 9090;

/// A port that a container exposes.
#[derive(Debug, Clone)]
pub struct ContainerPort {
    pub name: String,
    pub container_port: i32,
    pub protocol: String,
}

impl ContainerPort {
    /// The port as plain values: name, number, protocol.
    pub open spec fn view(&self) -> (Seq<char>, int, Seq<char>) {
        (self.name@, self.container_port as int, self.protocol@)
    }
}

impl InstanceType {
    /// The port on which an instance of this kind accepts players.
    pub open spec fn entry_port(self) -> int {
        match self {
            InstanceType::Server => 25565,
            InstanceType::Proxy => 25577,
        }
    }

    /// The lower-case name of the kind.
    pub open spec fn name(self) -> Seq<char> {
        match self {
            InstanceType::Server => "server"@,
            InstanceType::Proxy => "proxy"@,
        }
    }

    /// The named ports of this kind, entry port first: a server exposes its
    /// entry port only, a proxy its entry port and the metrics port.
    pub open spec fn ports(self) -> Seq<(Seq<char>, int)> {
        match self {
            InstanceType::Server => seq![("server"@, 25565int)],
            InstanceType::Proxy => seq![("proxy"@, 25577int), ("metrics"@, 9090int)],
        }
    }

    /// The port on which an instance of this kind accepts players.
    pub fn get_entry_port(&self) -> (port: i32)
        ensures
            port == self.entry_port(),
    {
        match self {
            InstanceType::Server => 25565,
            InstanceType::Proxy => 25577,
        }
    }

    /// The named ports of this kind, in the order of [`InstanceType::ports`].
    pub fn get_associated_ports(&self) -> (ports: Vec<(&'static str, u16)>)
        ensures
            ports@.len() == self.ports().len(),
            forall|i: int|
                0 <= i < ports@.len() ==> (#[trigger] ports@[i]).0@ == self.ports()[i].0
                    && ports@[i].1 == self.ports()[i].1,
    {
        match self {
            InstanceType::Server => vec![("server", 25565u16)],
            InstanceType::Proxy => vec![("proxy", 25577u16), ("metrics", METRICS_PORT)],
        }
    }

    /// The container ports of this kind: those of [`InstanceType::ports`],
    /// each over TCP.
    pub fn get_container_ports(&self) -> (ports: Vec<ContainerPort>)
        ensures
            ports@.len() == self.ports().len(),
            forall|i: int|
                0 <= i < ports@.len() ==> (#[trigger] ports@[i])@ == (
                    self.ports()[i].0,
                    self.ports()[i].1,
                    "TCP"@,
                ),
    {
        let named = self.get_associated_ports();
        let mut ports: Vec<ContainerPort> = Vec::new();
        let mut i: usize = 0;
        while i < named.len()
            invariant
                i <= named@.len(),
                named@.len() == self.ports().len(),
                forall|k: int|
                    0 <= k < named@.len() ==> (#[trigger] named@[k]).0@ == self.ports()[k].0
                        && named@[k].1 == self.ports()[k].1,
                ports@.len() == i,
                forall|k: int|
                    0 <= k < i ==> (#[trigger] ports@[k])@ == (
                        self.ports()[k].0,
                        self.ports()[k].1,
                        "TCP"@,
                    ),
            decreases named@.len() - i,
        {
            let (name, number) = named[i];
            ports.push(
                ContainerPort {
                    name: String::from_str(name),
                    container_port: number as i32,
                    protocol: String::from_str("TCP"),
                },
            );
            i += 1;
        }
        ports
    }

    /// The kind that a lower-case name stands for.
    pub open spec fn named(name: Seq<char>) -> Option<InstanceType> {
        if name == "server"@ {
            Some(InstanceType::Server)
        } else if name == "proxy"@ {
            Some(InstanceType::Proxy)
        } else {
            None
        }
    }

    /// The message that refuses `input` as the name of a kind.
    pub open spec fn refusal(input: Seq<char>) -> Seq<char> {
        "Invalid instance type, "@ + input
    }

    /// Reads a kind from its lower-case name; `None` for every other text.
    pub fn from_lowercase(name: &str) -> (kind: Option<InstanceType>)
        ensures
            kind == Self::named(name@),
    {
        if same_text(name, "server") {
            Some(InstanceType::Server)
        } else if same_text(name, "proxy") {
            Some(InstanceType::Proxy)
        } else {
            None
        }
    }

    /// Reads a kind from its name, in whatever case it is written. Every
    /// other text is refused with a message that quotes it.
    pub fn from_str(input: &str) -> (kind: Result<InstanceType, String>)
        ensures
            match kind {
                Ok(k) => Self::named(lowercase_of(input@)) == Some(k),
                Err(message) => Self::named(lowercase_of(input@)) is None && message@
                    == Self::refusal(input@),
            },
    {
        let lowered = lowercase(input);
        match Self::from_lowercase(lowered.as_str()) {
            Some(kind) => Ok(kind),
            None => {
                let mut message = String::from_str("Invalid instance type, ");
                message.append(input);
                Err(message)
            },
        }
    }

    /// The lower-case name of the kind.
    pub fn to_string(&self) -> (text: String)
        ensures
            text@ == self.name(),
    {
        match self {
            InstanceType::Server => String::from_str("server"),
            InstanceType::Proxy => String::from_str("proxy"),
        }
    }
}

/// Reading the name of a kind gives the kind back.
pub proof fn lemma_kind_name_round_trip(kind: InstanceType)
    ensures
        InstanceType::named(kind.name()) == Some(kind),
{
    reveal_strlit("server");
    reveal_strlit("proxy");
    assert("server"@.len() != "proxy"@.len());
}

} // verus!
