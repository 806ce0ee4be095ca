//! Instances: what is asked for, and what was observed of it.

use crate::error::EpsilonError;
use crate::instance_type::InstanceType;
use crate::state::EpsilonState;
use vstd::prelude::*;

verus! {

/// How long a probe may take, in milliseconds.
pub const PROBE_TIMEOUT_MILLIS: u64 = 150;

/// What is asked of an instance: the template it is made from.
#[derive(Debug)]
pub struct EpsilonInstanceSpec {
    pub template: String,
}

/// What was observed of an instance.
#[derive(Debug)]
pub struct EpsilonInstanceStatus {
    pub ip: Option<String>,
    pub template: String,
    pub t: InstanceType,
    pub hub: bool,
    pub content: String,
    pub state: EpsilonState,
    pub slots: i32,
    pub online: i32,
    pub close: bool,
}

/// A status as plain values.
pub struct StatusView {
    pub ip: Option<Seq<char>>,
    pub template: Seq<char>,
    pub t: InstanceType,
    pub hub: bool,
    pub content: Seq<char>,
    pub state: EpsilonState,
    pub slots: int,
    pub online: int,
    pub close: bool,
}

/// The characters of an optional string.
pub open spec fn option_text(text: Option<String>) -> Option<Seq<char>> {
    match text {
        Some(t) => Some(t@),
        None => None,
    }
}

impl View for EpsilonInstanceStatus {
    type V = StatusView;

    open spec fn view(&self) -> StatusView {
        StatusView {
            ip: option_text(self.ip),
            template: self.template@,
            t: self.t,
            hub: self.hub,
            content: self.content@,
            state: self.state,
            slots: self.slots as int,
            online: self.online as int,
            close: self.close,
        }
    }
}

impl StatusView {
    /// Whether the status is consistent: an instance that was closed is
    /// stopping.
    pub open spec fn closed_means_stopping(self) -> bool {
        self.close ==> self.state == EpsilonState::Stopping
    }
}

impl Clone for EpsilonInstanceStatus {
    fn clone(&self) -> (copy: Self)
        ensures
            copy@ == self@,
    {
        let ip = match &self.ip {
            Some(ip) => Some(ip.clone()),
            None => None,
        };
        EpsilonInstanceStatus {
            ip,
            template: self.template.clone(),
            t: self.t,
            hub: self.hub,
            content: self.content.clone(),
            state: self.state,
            slots: self.slots,
            online: self.online,
            close: self.close,
        }
    }
}

/// One instance of the fleet.
#[derive(Debug)]
pub struct EpsilonInstance {
    pub name: String,
    pub spec: EpsilonInstanceSpec,
    pub status: Option<EpsilonInstanceStatus>,
}

/// An instance as plain values.
pub struct InstanceView {
    pub name: Seq<char>,
    pub template: Seq<char>,
    pub status: Option<StatusView>,
}

impl View for EpsilonInstance {
    type V = InstanceView;

    open spec fn view(&self) -> InstanceView {
        InstanceView {
            name: self.name@,
            template: self.spec.template@,
            status: match self.status {
                Some(status) => Some(status@),
                None => None,
            },
        }
    }
}

impl InstanceView {
    /// The state of the instance: `Starting` until a status was observed.
    pub open spec fn state(self) -> EpsilonState {
        match self.status {
            Some(status) => status.state,
            None => EpsilonState::Starting,
        }
    }

    /// Whether the instance has a status and passes each filter that is
    /// given: its kind, the template it was asked from, its state.
    pub open spec fn matches(
        self,
        kind: Option<InstanceType>,
        template: Option<Seq<char>>,
        state: Option<EpsilonState>,
    ) -> bool {
        &&& self.status is Some
        &&& kind is Some ==> self.status->0.t == kind->0
        &&& template is Some ==> self.template == template->0
        &&& state is Some ==> self.status->0.state == state->0
    }

    /// The address and port to probe: the instance's address and the entry
    /// port of its kind. An error where no status or no address is known.
    pub open spec fn probe_target(self) -> Result<(Seq<char>, int), EpsilonError> {
        match self.status {
            None => Err(EpsilonError::RetrieveStatusError),
            Some(status) => match status.ip {
                None => Err(EpsilonError::RetrieveIpAddressError),
                Some(ip) => Ok((ip, status.t.entry_port())),
            },
        }
    }
}

/// What the public interface tells of an instance.
#[derive(Debug)]
pub struct InstanceJson {
    pub name: String,
    pub template: String,
    pub content: String,
    pub hub: bool,
    pub t: InstanceType,
    pub state: EpsilonState,
    pub slots: i32,
    pub online_count: i32,
    pub ip: Option<String>,
}

impl EpsilonInstance {
    /// The instance's name.
    pub fn get_name(&self) -> (name: String)
        ensures
            name@ == self@.name,
    {
        self.name.clone()
    }

    /// The instance's state: `Starting` until a status was observed.
    pub fn get_state(&self) -> (state: EpsilonState)
        ensures
            state == self@.state(),
    {
        match &self.status {
            None => EpsilonState::Starting,
            Some(status) => status.state,
        }
    }

    /// Decides whether the instance has a status and passes each filter that
    /// is given.
    pub fn matches(
        &self,
        kind: Option<InstanceType>,
        template: Option<&str>,
        state: Option<EpsilonState>,
    ) -> (selected: bool)
        ensures
            selected == self@.matches(
                kind,
                match template {
                    Some(t) => Some(t@),
                    None => None,
                },
                state,
            ),
    {
        match &self.status {
            None => false,
            Some(status) => {
                let by_template = match template {
                    Some(name) => crate::text::same_text(self.spec.template.as_str(), name),
                    None => true,
                };
                let by_kind = match kind {
                    Some(k) => status.t == k,
                    None => true,
                };
                let by_state = match state {
                    Some(s) => status.state == s,
                    None => true,
                };
                by_template && by_kind && by_state
            },
        }
    }

    /// Where to probe the instance; see [`InstanceView::probe_target`].
    pub fn probe_target(&self) -> (target: Result<(String, u16), EpsilonError>)
        ensures
            match target {
                Ok((address, port)) => self@.probe_target() == Ok::<
                    (Seq<char>, int),
                    EpsilonError,
                >((address@, port as int)),
                Err(e) => self@.probe_target() == Err::<(Seq<char>, int), EpsilonError>(e),
            },
    {
        match &self.status {
            None => Err(EpsilonError::RetrieveStatusError),
            Some(status) => match &status.ip {
                None => Err(EpsilonError::RetrieveIpAddressError),
                Some(ip) => Ok((ip.clone(), status.t.get_entry_port() as u16)),
            },
        }
    }

    /// The players that the instance can still take, given how many are
    /// online: its slots less that count. An error where no status is known.
    pub fn get_available_slots(&self, online: i32) -> (available: Result<i64, EpsilonError>)
        ensures
            match available {
                Ok(n) => self@.status is Some && n == self@.status->0.slots - online,
                Err(e) => self@.status is None && e == EpsilonError::RetrieveStatusError,
            },
    {
        match &self.status {
            None => Err(EpsilonError::RetrieveStatusError),
            Some(status) => Ok(status.slots as i64 - online as i64),
        }
    }

    /// What the public interface tells of the instance. `online` is the
    /// result of probing it, `None` where the probe failed: the count is
    /// then told as zero. An error where no status is known.
    pub fn to_json(&self, online: Option<i32>) -> (json: Result<InstanceJson, EpsilonError>)
        ensures
            match json {
                Ok(j) => {
                    &&& self@.status matches Some(status)
                    &&& j.name@ == self@.name
                    &&& j.template@ == self@.template
                    &&& j.content@ == status.content
                    &&& j.hub == status.hub
                    &&& j.t == status.t
                    &&& j.state == status.state
                    &&& j.slots == status.slots
                    &&& j.online_count == match online {
                        Some(n) => n,
                        None => 0,
                    }
                    &&& option_text(j.ip) == status.ip
                },
                Err(e) => self@.status is None && e == EpsilonError::RetrieveStatusError,
            },
    {
        match &self.status {
            None => Err(EpsilonError::RetrieveStatusError),
            Some(status) => {
                let copy = status.clone();
                Ok(
                    InstanceJson {
                        name: self.get_name(),
                        template: self.spec.template.clone(),
                        content: copy.content,
                        hub: copy.hub,
                        t: copy.t,
                        state: self.get_state(),
                        slots: copy.slots,
                        online_count: match online {
                            Some(n) => n,
                            None => 0,
                        },
                        ip: copy.ip,
                    },
                )
            },
        }
    }
}

} // verus!
