//! Installing the shell as a service of the user's service manager.
//!
//! The service file ships with the shell. It is copied to the directory for
//! user services by one command, which the privilege helper runs.

use vstd::prelude::*;
use vstd::string::StringExecFns;

use crate::paths::{path_join, path_joined};
use crate::shell::{quoted, shell_quote};
use crate::text::texts;

verus! {

/// Where the service file lies below the installation directory.
pub open spec fn service_file_suffix() -> Seq<char> {
    "Assets/Services/systemd/noctalia.service"@
}

/// The directory for user services.
pub open spec fn service_dir() -> Seq<char> {
    "/usr/lib/systemd/user"@
}

/// The installed service file.
pub open spec fn service_target() -> Seq<char> {
    "/usr/lib/systemd/user/noctalia.service"@
}

/// The name of the service.
pub open spec fn service_name() -> Seq<char> {
    "noctalia.service"@
}

/// Whether the service manager is available: its runtime directory exists,
/// or its control program answers.
pub fn is_systemd_running(runtime_dir_exists: bool, control_answers: bool) -> (r: bool)
    ensures
        r == (runtime_dir_exists || control_answers),
{
    runtime_dir_exists || control_answers
}

/// The service file of the installation in `install_dir`.
pub fn service_file_in(install_dir: &str) -> (r: String)
    ensures
        r@ == path_joined(install_dir@, service_file_suffix()),
{
    path_join(install_dir, "Assets/Services/systemd/noctalia.service")
}

/// The command that installs `service_file`: the directory for user services
/// is made, the file is copied there, and the copy is made readable for all.
/// Each step runs only if the one before it succeeded, and each path is one
/// quoted word.
pub open spec fn service_install_text(service_file: Seq<char>) -> Seq<char> {
    "mkdir -p "@ + quoted(service_dir()) + " && cp "@ + quoted(service_file) + " "@ + quoted(
        service_target(),
    ) + " && chmod 644 "@ + quoted(service_target())
}

/// The command that installs `service_file`, for the privilege helper.
pub fn service_install_command(service_file: &str) -> (r: String)
    ensures
        r@ == service_install_text(service_file@),
{
    let dir = shell_quote("/usr/lib/systemd/user");
    let file = shell_quote(service_file);
    let target = shell_quote("/usr/lib/systemd/user/noctalia.service");
    let mut r = "mkdir -p ".to_owned();
    r.append(dir.as_str());
    r.append(" && cp ");
    r.append(file.as_str());
    r.append(" ");
    r.append(target.as_str());
    r.append(" && chmod 644 ");
    r.append(target.as_str());
    r
}

/// What the user's service manager is asked to do.
#[derive(Clone, Copy, Debug, PartialEq, Eq, Structural)]
pub enum ServiceRequest {
    /// Read the service files anew.
    Reload,
    /// Start the service with every session.
    Enable,
    /// Start the service now.
    Start,
}

/// The words of a request to the user's service manager.
pub open spec fn request_words(request: ServiceRequest) -> Seq<Seq<char>> {
    match request {
        ServiceRequest::Reload => seq!["systemctl"@, "--user"@, "daemon-reload"@],
        ServiceRequest::Enable => seq!["systemctl"@, "--user"@, "enable"@, service_name()],
        ServiceRequest::Start => seq!["systemctl"@, "--user"@, "start"@, service_name()],
    }
}

/// The words of a request to the user's service manager.
pub fn service_command(request: ServiceRequest) -> (r: Vec<String>)
    ensures
        texts(r@) == request_words(request),
{
    let r = match request {
        ServiceRequest::Reload => vec![
            "systemctl".to_owned(),
            "--user".to_owned(),
            "daemon-reload".to_owned(),
        ],
        ServiceRequest::Enable => vec![
            "systemctl".to_owned(),
            "--user".to_owned(),
            "enable".to_owned(),
            "noctalia.service".to_owned(),
        ],
        ServiceRequest::Start => vec![
            "systemctl".to_owned(),
            "--user".to_owned(),
            "start".to_owned(),
            "noctalia.service".to_owned(),
        ],
    };
    assert(texts(r@) =~= request_words(request));
    r
}

/// The request that follows `done`, given the user's answer to the question
/// whether to go on and whether `done` succeeded: after a reload the service
/// may be enabled, whether or not the reload succeeded; after enabling it may
/// be started, if enabling succeeded; after a start nothing follows.
pub fn next_request(done: ServiceRequest, succeeded: bool, user_agrees: bool) -> (r: Option<
    ServiceRequest,
>)
    ensures
        r == match done {
            ServiceRequest::Reload => if user_agrees {
                Some(ServiceRequest::Enable)
            } else {
                None
            },
            ServiceRequest::Enable => if succeeded && user_agrees {
                Some(ServiceRequest::Start)
            } else {
                None
            },
            ServiceRequest::Start => None,
        },
{
    match done {
        ServiceRequest::Reload => if user_agrees {
            Some(ServiceRequest::Enable)
        } else {
            None
        },
        ServiceRequest::Enable => if succeeded && user_agrees {
            Some(ServiceRequest::Start)
        } else {
            None
        },
        ServiceRequest::Start => None,
    }
}

} // verus!
