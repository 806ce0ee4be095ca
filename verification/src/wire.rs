//! The status of an instance as it travels.
//!
//! On the wire a status is a record of texts, numbers and flags: the kind
//! and the state are written by their names. Reading a record checks those
//! names.

use crate::error::EpsilonError;
use crate::instance::{option_text, EpsilonInstanceStatus, StatusView};
use crate::instance_type::InstanceType;
use crate::state::EpsilonState;
use crate::text::same_text;
use vstd::prelude::*;

verus! {

/// A status as it is written: every field by its wire value.
#[derive(Debug)]
pub struct StatusRecord {
    pub ip: Option<String>,
    pub template: String,
    pub t: String,
    pub hub: bool,
    pub content: String,
    pub state: String,
    pub slots: i32,
    pub online: i32,
    pub close: bool,
}

/// A record as plain values.
pub struct RecordView {
    pub ip: Option<Seq<char>>,
    pub template: Seq<char>,
    pub t: Seq<char>,
    pub hub: bool,
    pub content: Seq<char>,
    pub state: Seq<char>,
    pub slots: int,
    pub online: int,
    pub close: bool,
}

impl View for StatusRecord {
    type V = RecordView;

    open spec fn view(&self) -> RecordView {
        RecordView {
            ip: option_text(self.ip),
            template: self.template@,
            t: self.t@,
            hub: self.hub,
            content: self.content@,
            state: self.state@,
            slots: self.slots as int,
            online: self.online as int,
            close: self.close,
        }
    }
}

/// The name by which a kind is written.
pub open spec fn kind_name(kind: InstanceType) -> Seq<char> {
    match kind {
        InstanceType::Server => "Server"@,
        InstanceType::Proxy => "Proxy"@,
    }
}

/// The kind that a written name stands for.
pub open spec fn kind_named(name: Seq<char>) -> Option<InstanceType> {
    if name == "Server"@ {
        Some(InstanceType::Server)
    } else if name == "Proxy"@ {
        Some(InstanceType::Proxy)
    } else {
        None
    }
}

/// The state that a written name stands for.
pub open spec fn state_named(name: Seq<char>) -> Option<EpsilonState> {
    if name == "Starting"@ {
        Some(EpsilonState::Starting)
    } else if name == "Running"@ {
        Some(EpsilonState::Running)
    } else if name == "InGame"@ {
        Some(EpsilonState::InGame)
    } else if name == "Stopping"@ {
        Some(EpsilonState::Stopping)
    } else {
        None
    }
}

/// The record that writes `status`.
pub open spec fn encoded(status: StatusView) -> RecordView {
    RecordView {
        ip: status.ip,
        template: status.template,
        t: kind_name(status.t),
        hub: status.hub,
        content: status.content,
        state: status.state.name(),
        slots: status.slots,
        online: status.online,
        close: status.close,
    }
}

/// The status that `record` writes; `None` where it names no kind or no
/// state.
pub open spec fn decoded(record: RecordView) -> Option<StatusView> {
    match (kind_named(record.t), state_named(record.state)) {
        (Some(t), Some(state)) => Some(
            StatusView {
                ip: record.ip,
                template: record.template,
                t,
                hub: record.hub,
                content: record.content,
                state,
                slots: record.slots,
                online: record.online,
                close: record.close,
            },
        ),
        _ => None,
    }
}

/// Reading what was written gives the status back.
pub proof fn lemma_status_round_trip(status: StatusView)
    ensures
        decoded(encoded(status)) == Some(status),
{
    reveal_strlit("Server");
    reveal_strlit("Proxy");
    reveal_strlit("Starting");
    reveal_strlit("Running");
    reveal_strlit("InGame");
    reveal_strlit("Stopping");
    assert("Server"@.len() != "Proxy"@.len());
    assert("Starting"@.len() != "Running"@.len());
    assert("Starting"@.len() != "InGame"@.len());
    assert("Running"@.len() != "InGame"@.len());
    assert("Running"@.len() != "Stopping"@.len());
    assert("InGame"@.len() != "Stopping"@.len());
    assert("Starting"@[2] != "Stopping"@[2]);
}

fn clone_option(text: &Option<String>) -> (copy: Option<String>)
    ensures
        option_text(copy) == option_text(*text),
{
    match text {
        Some(t) => Some(t.clone()),
        None => None,
    }
}

/// Reads a kind from the name by which it is written.
pub fn kind_from_name(name: &str) -> (kind: Option<InstanceType>)
    ensures
        kind == kind_named(name@),
{
    if same_text(name, "Server") {
        Some(InstanceType::Server)
    } else if same_text(name, "Proxy") {
        Some(InstanceType::Proxy)
    } else {
        None
    }
}

/// Reads a state from the name by which it is written.
pub fn state_from_name(name: &str) -> (state: Option<EpsilonState>)
    ensures
        state == state_named(name@),
{
    if same_text(name, "Starting") {
        Some(EpsilonState::Starting)
    } else if same_text(name, "Running") {
        Some(EpsilonState::Running)
    } else if same_text(name, "InGame") {
        Some(EpsilonState::InGame)
    } else if same_text(name, "Stopping") {
        Some(EpsilonState::Stopping)
    } else {
        None
    }
}

/// Writes a status.
pub fn encode_status(status: &EpsilonInstanceStatus) -> (record: StatusRecord)
    ensures
        record@ == encoded(status@),
{
    let t = match status.t {
        InstanceType::Server => String::from_str("Server"),
        InstanceType::Proxy => String::from_str("Proxy"),
    };
    StatusRecord {
        ip: clone_option(&status.ip),
        template: status.template.clone(),
        t,
        hub: status.hub,
        content: status.content.clone(),
        state: status.state.to_string(),
        slots: status.slots,
        online: status.online,
        close: status.close,
    }
}

/// Reads a status. Fails where the record names no kind or no state.
pub fn decode_status(record: &StatusRecord) -> (status: Result<EpsilonInstanceStatus, EpsilonError>)
    ensures
        match status {
            Ok(s) => decoded(record@) == Some(s@),
            Err(e) => decoded(record@) is None && e == EpsilonError::ParseJsonError,
        },
{
    let t = match kind_from_name(record.t.as_str()) {
        Some(t) => t,
        None => {
            return Err(EpsilonError::ParseJsonError);
        },
    };
    let state = match state_from_name(record.state.as_str()) {
        Some(state) => state,
        None => {
            return Err(EpsilonError::ParseJsonError);
        },
    };
    Ok(
        EpsilonInstanceStatus {
            ip: clone_option(&record.ip),
            template: record.template.clone(),
            t,
            hub: record.hub,
            content: record.content.clone(),
            state,
            slots: record.slots,
            online: record.online,
            close: record.close,
        },
    )
}

} // verus!
