use noctalia::service::{
    is_systemd_running, next_request, service_command, service_file_in, service_install_command,
    ServiceRequest,
};

#[test]
fn service_manager_is_available_either_way() {
    assert!(is_systemd_running(true, false));
    assert!(is_systemd_running(false, true));
    assert!(is_systemd_running(true, true));
    assert!(!is_systemd_running(false, false));
}

#[test]
fn service_file_ships_with_the_shell() {
    assert_eq!(
        service_file_in("/etc/xdg/quickshell/noctalia-shell"),
        "/etc/xdg/quickshell/noctalia-shell/Assets/Services/systemd/noctalia.service"
    );
}

#[test]
fn service_is_installed_by_one_command() {
    assert_eq!(
        service_install_command("/home/a/x/noctalia.service"),
        "mkdir -p '/usr/lib/systemd/user' && cp '/home/a/x/noctalia.service' '/usr/lib/systemd/user/noctalia.service' && chmod 644 '/usr/lib/systemd/user/noctalia.service'"
    );
    assert_eq!(
        service_install_command("/home/o'neil/s"),
        "mkdir -p '/usr/lib/systemd/user' && cp '/home/o'\\''neil/s' '/usr/lib/systemd/user/noctalia.service' && chmod 644 '/usr/lib/systemd/user/noctalia.service'"
    );
}

#[test]
fn service_manager_requests() {
    assert_eq!(service_command(ServiceRequest::Reload), vec!["systemctl", "--user", "daemon-reload"]);
    assert_eq!(
        service_command(ServiceRequest::Enable),
        vec!["systemctl", "--user", "enable", "noctalia.service"]
    );
    assert_eq!(
        service_command(ServiceRequest::Start),
        vec!["systemctl", "--user", "start", "noctalia.service"]
    );
}

#[test]
fn requests_follow_each_other() {
    assert_eq!(next_request(ServiceRequest::Reload, true, true), Some(ServiceRequest::Enable));
    assert_eq!(next_request(ServiceRequest::Reload, false, true), Some(ServiceRequest::Enable));
    assert_eq!(next_request(ServiceRequest::Reload, true, false), None);
    assert_eq!(next_request(ServiceRequest::Enable, true, true), Some(ServiceRequest::Start));
    assert_eq!(next_request(ServiceRequest::Enable, false, true), None);
    assert_eq!(next_request(ServiceRequest::Enable, true, false), None);
    assert_eq!(next_request(ServiceRequest::Start, true, true), None);
}
