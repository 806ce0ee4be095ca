//! Failures of the control plane.

use vstd::prelude::*;

verus! {

/// What can go wrong while the control plane works.
///
/// A variant that wraps a failure of a collaborator carries its description.
#[derive(Debug, Clone)]
pub enum EpsilonError {
    ApiServerError(String),
    ParseJsonError,
    SendEventError(String),
    CreateInstanceError(String),
    RemoveInstanceError(String),
    RetrieveInstanceError,
    RetrieveStatusError,
    RetrieveIpAddressError,
    QueueNotFoundError(String),
    RequestError(String),
    PingMinecraftError(String),
    TimeoutError(String),
}

impl EpsilonError {
    /// The text that stands before the detail in the error's message.
    pub open spec fn prefix(self) -> Seq<char> {
        match self {
            EpsilonError::ApiServerError(_) => "API server error "@,
            EpsilonError::ParseJsonError => "Failed to parse json"@,
            EpsilonError::SendEventError(_) => "Send event error "@,
            EpsilonError::CreateInstanceError(_) => "Create instance error, template is "@,
            EpsilonError::RemoveInstanceError(_) => "Remove instance error "@,
            EpsilonError::RetrieveInstanceError => "Retrieve instance error"@,
            EpsilonError::RetrieveStatusError => "Retrieve status error"@,
            EpsilonError::RetrieveIpAddressError => "Retrieve ip address error"@,
            EpsilonError::QueueNotFoundError(_) => "Queue not found error "@,
            EpsilonError::RequestError(_) => "Request error "@,
            EpsilonError::PingMinecraftError(_) => "Ping response error "@,
            EpsilonError::TimeoutError(_) => "Timeout error "@,
        }
    }

    /// The detail that the error carries; empty where it carries none.
    pub open spec fn detail(self) -> Seq<char> {
        match self {
            EpsilonError::ApiServerError(d)
            | EpsilonError::SendEventError(d)
            | EpsilonError::CreateInstanceError(d)
            | EpsilonError::RemoveInstanceError(d)
            | EpsilonError::QueueNotFoundError(d)
            | EpsilonError::RequestError(d)
            | EpsilonError::PingMinecraftError(d)
            | EpsilonError::TimeoutError(d) => d@,
            _ => Seq::empty(),
        }
    }

    /// The error's message: its prefix followed by its detail.
    pub open spec fn message(self) -> Seq<char> {
        self.prefix() + self.detail()
    }

    /// The HTTP status under which the error is reported: 404 for a queue
    /// that does not exist, 500 for everything else.
    pub open spec fn http_status(self) -> int {
        if self is QueueNotFoundError {
            404
        } else {
            500
        }
    }

    /// Whether the error tells that nothing could be read from an instance:
    /// it has no status or no address, or the probe failed or timed out.
    pub open spec fn is_probe_failure(self) -> bool {
        self is RetrieveStatusError || self is RetrieveIpAddressError || self is PingMinecraftError
            || self is TimeoutError
    }

    /// The error's message.
    pub fn to_string(&self) -> (text: String)
        ensures
            text@ == self.message(),
    {
        let (prefix, detail): (&str, &str) = match self {
            EpsilonError::ApiServerError(d) => ("API server error ", d.as_str()),
            EpsilonError::ParseJsonError => ("Failed to parse json", ""),
            EpsilonError::SendEventError(d) => ("Send event error ", d.as_str()),
            EpsilonError::CreateInstanceError(d) => (
                "Create instance error, template is ",
                d.as_str(),
            ),
            EpsilonError::RemoveInstanceError(d) => ("Remove instance error ", d.as_str()),
            EpsilonError::RetrieveInstanceError => ("Retrieve instance error", ""),
            EpsilonError::RetrieveStatusError => ("Retrieve status error", ""),
            EpsilonError::RetrieveIpAddressError => ("Retrieve ip address error", ""),
            EpsilonError::QueueNotFoundError(d) => ("Queue not found error ", d.as_str()),
            EpsilonError::RequestError(d) => ("Request error ", d.as_str()),
            EpsilonError::PingMinecraftError(d) => ("Ping response error ", d.as_str()),
            EpsilonError::TimeoutError(d) => ("Timeout error ", d.as_str()),
        };
        proof {
            reveal_strlit("");
            assert(""@ =~= Seq::<char>::empty());
        }
        let mut text = String::from_str(prefix);
        text.append(detail);
        text
    }

    /// The error of the public interface whose detail is `before`, then
    /// `subject`, then `after`.
    fn api_error(before: &str, subject: &str, after: &str) -> (e: EpsilonError)
        ensures
            e matches EpsilonError::ApiServerError(detail) && detail@ == before@ + subject@ + after@,
    {
        let mut detail = String::from_str(before);
        detail.append(subject);
        detail.append(after);
        EpsilonError::ApiServerError(detail)
    }

    /// The error of the public interface for an instance of `template`
    /// that could not be created.
    pub fn create_failed(template: &str) -> (e: EpsilonError)
        ensures
            e matches EpsilonError::ApiServerError(detail) && detail@
                == "Failed to create an instance from template ("@ + template@ + ")"@,
    {
        Self::api_error("Failed to create an instance from template (", template, ")")
    }

    /// The error of the public interface for an instance that could not be
    /// closed.
    pub fn close_failed(instance: &str) -> (e: EpsilonError)
        ensures
            e matches EpsilonError::ApiServerError(detail) && detail@ == "Failed to close instance ("@
                + instance@ + ")"@,
    {
        Self::api_error("Failed to close instance (", instance, ")")
    }

    /// The error of the public interface for an instance that could not be
    /// marked as in game.
    pub fn in_game_failed(instance: &str) -> (e: EpsilonError)
        ensures
            e matches EpsilonError::ApiServerError(detail) && detail@
                == "Failed to set in game instance ("@ + instance@ + ")"@,
    {
        Self::api_error("Failed to set in game instance (", instance, ")")
    }

    /// The error of the public interface for a listing of all instances
    /// that failed.
    pub fn get_all_failed() -> (e: EpsilonError)
        ensures
            e matches EpsilonError::ApiServerError(detail) && detail@
                == "Failed to get every instance"@,
    {
        EpsilonError::ApiServerError(String::from_str("Failed to get every instance"))
    }

    /// The error of the public interface for a listing of the instances of
    /// `template` that failed.
    pub fn get_from_template_failed(template: &str) -> (e: EpsilonError)
        ensures
            e matches EpsilonError::ApiServerError(detail) && detail@
                == "Failed to get instance from template "@ + template@,
    {
        proof {
            reveal_strlit("");
            assert("Failed to get instance from template "@ + template@ + ""@
                =~= "Failed to get instance from template "@ + template@);
        }
        Self::api_error("Failed to get instance from template ", template, "")
    }

    /// The HTTP status under which the error is reported.
    pub fn status_code(&self) -> (code: u16)
        ensures
            code == self.http_status(),
    {
        match self {
            EpsilonError::QueueNotFoundError(_) => 404,
            _ => 500,
        }
    }
}

} // verus!
