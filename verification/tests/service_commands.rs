use ssh_agent_mux::cli::{Config, LogLevel};
use ssh_agent_mux::service::{
    file_name_of, install_request, service_label, EnvValue, ServiceAction, ServiceArgs, ServiceError, ServiceEvent,
    ServicePhase, ServiceReport, ServiceStatus,
};

fn args(install_service: bool, restart_service: bool, uninstall_service: bool, install_config: bool) -> ServiceArgs {
    ServiceArgs { install_service, restart_service, uninstall_service, install_config }
}

fn config(agents: &[&str], service: ServiceArgs) -> Config {
    Config {
        listen_path: "/home/u/.ssh/ssh-agent-mux.sock".to_string(),
        log_level: LogLevel::Warn,
        log_file: None,
        agent_sock_paths: agents.iter().map(|s| s.to_string()).collect(),
        config_path: "/home/u/.config/ssh-agent-mux/ssh-agent-mux.toml".to_string(),
        service,
    }
}

/// Drive a service command with the given answers; returns the actions taken.
fn drive(a: ServiceArgs, mut events: Vec<ServiceEvent>) -> Vec<ServiceAction> {
    let mut actions = Vec::new();
    let mut phase = ServicePhase::Start;
    let mut event = ServiceEvent::Begin;
    events.reverse();
    loop {
        let (next, action) = a.service_step(phase, event);
        let done = matches!(action, ServiceAction::Report(_) | ServiceAction::Fail(_));
        actions.push(action);
        if done {
            return actions;
        }
        phase = next;
        event = events.pop().expect("an answer for each action");
    }
}

#[test]
fn any_service_arg() {
    assert!(!args(false, false, false, false).any());
    assert!(args(true, false, false, false).any());
    assert!(args(false, true, false, false).any());
    assert!(args(false, false, true, false).any());
    assert!(args(false, false, false, true).any());
}

#[test]
fn install_config() {
    let a = args(false, false, false, true);
    let acts = drive(a, vec![ServiceEvent::ConfigExists(false), ServiceEvent::Completed]);
    assert!(matches!(acts[0], ServiceAction::CheckConfigExists));
    assert!(matches!(acts[1], ServiceAction::WriteNewConfig));
    assert!(matches!(acts[2], ServiceAction::Report(ServiceReport::ConfigWritten)));

    let fake_ssh_auth_sock = "/tmp/fake_home/.ssh/fake.sock".to_string();
    let c = config(&[], a);
    match c.new_config_file(EnvValue::Value(fake_ssh_auth_sock.clone()), true) {
        Ok(f) => {
            assert_eq!(f.config.agent_sock_paths, vec![fake_ssh_auth_sock]);
            assert_eq!(
                f.message,
                "Automatically creating configuration file at /home/u/.config/ssh-agent-mux/ssh-agent-mux.toml with the current SSH_AUTh_SOCK as the upstream agent; please edit to add additional agents."
            );
        },
        Err(_) => panic!("Failed to install configuration file"),
    }
}

#[test]
fn install_config_refuses_existing_file() {
    let a = args(false, false, false, true);
    let acts = drive(a, vec![ServiceEvent::ConfigExists(true)]);
    assert!(matches!(acts[1], ServiceAction::Fail(ServiceError::ConfigExists)));
    assert_eq!(
        ServiceError::ConfigExists.message("/c.toml"),
        "Config file at /c.toml already exists. Delete it and run --install-config again if you want to re-generate"
    );
}

#[test]
fn install_config_keeps_command_line_agents() {
    let c = config(&["/a.sock", "/b.sock"], args(false, false, false, true));
    match c.new_config_file(EnvValue::NotPresent, true) {
        Ok(f) => {
            assert_eq!(f.config.agent_sock_paths, vec!["/a.sock".to_string(), "/b.sock".to_string()]);
            assert!(f.message.ends_with("with the upstream agent socket paths specified on the command line."));
        },
        Err(_) => panic!("expected a new configuration"),
    }
}

#[test]
fn missing_dot_config_dir() {
    let c = config(&[], args(false, false, false, true));
    match c.new_config_file(EnvValue::Value("/tmp/.ssh/fake.sock".to_string()), false) {
        Ok(_) => panic!("Failed to detect missing .config directory"),
        Err(e) => {
            assert!(matches!(e, ServiceError::ConfigDirMissing));
            assert!(e.message("/h/.config/x/x.toml").contains("parent directory does not exist"));
        },
    }
}

#[test]
fn missing_ssh_auth_sock() {
    let c = config(&[], args(false, false, false, true));
    match c.new_config_file(EnvValue::NotPresent, false) {
        Ok(_) => panic!("Failed to detect missing SSH_AUTH_SOCK environment variable"),
        Err(e) => {
            assert!(matches!(e, ServiceError::SshAuthSockMissing));
            assert!(e.message("").contains("SSH_AUTH_SOCK is not in the environment"));
        },
    }
}

#[test]
fn blank_ssh_auth_sock() {
    let c = config(&[], args(false, false, false, true));
    match c.new_config_file(EnvValue::Value(String::new()), true) {
        Ok(_) => panic!("Failed to detect blank SSH_AUTH_SOCK environment variable"),
        Err(e) => {
            assert!(matches!(e, ServiceError::SshAuthSockBlank));
            assert!(e.message("").contains("SSH_AUTH_SOCK is defined, but the value is blank"));
        },
    }
}

#[test]
fn non_unicode_ssh_auth_sock() {
    let c = config(&[], args(false, false, false, true));
    match c.new_config_file(EnvValue::NotUnicode, true) {
        Ok(_) => panic!("expected an error"),
        Err(e) => assert!(e.message("").contains("contains non-UTF-8 characters")),
    }
}

#[test]
fn install_service_writes_missing_config_first() {
    let a = args(true, false, false, false);
    let acts = drive(
        a,
        vec![ServiceEvent::Completed, ServiceEvent::ConfigExists(false), ServiceEvent::Completed, ServiceEvent::Completed],
    );
    assert!(matches!(acts[0], ServiceAction::SetUserLevel));
    assert!(matches!(acts[1], ServiceAction::CheckConfigExists));
    assert!(matches!(acts[2], ServiceAction::WriteNewConfig));
    assert!(matches!(acts[3], ServiceAction::InstallService));
    assert!(matches!(acts[4], ServiceAction::Report(ServiceReport::Installed)));
    let acts = drive(a, vec![ServiceEvent::Completed, ServiceEvent::ConfigExists(true), ServiceEvent::Completed]);
    assert!(matches!(acts[2], ServiceAction::InstallService));
    assert_eq!(acts.len(), 4);
}

#[test]
fn restart_service() {
    let a = args(false, true, false, false);
    let acts = drive(
        a,
        vec![ServiceEvent::Completed, ServiceEvent::Status(ServiceStatus::Running), ServiceEvent::Completed, ServiceEvent::Completed],
    );
    assert!(matches!(acts[1], ServiceAction::QueryStatus));
    assert!(matches!(acts[2], ServiceAction::StopService));
    assert!(matches!(acts[3], ServiceAction::StartService));
    assert!(matches!(acts[4], ServiceAction::Report(ServiceReport::Restarted)));
    let acts = drive(a, vec![ServiceEvent::Completed, ServiceEvent::Status(ServiceStatus::Stopped), ServiceEvent::Completed]);
    assert!(matches!(acts[2], ServiceAction::StartService));
    let acts = drive(a, vec![ServiceEvent::Completed, ServiceEvent::Status(ServiceStatus::NotInstalled)]);
    assert!(matches!(acts[2], ServiceAction::Fail(ServiceError::NotInstalled)));
    assert_eq!(
        ServiceError::NotInstalled.message(""),
        "Service net.ross-williams.ssh-agent-mux not installed; can't restart"
    );
}

#[test]
fn uninstall_service() {
    let acts = drive(args(false, false, true, false), vec![ServiceEvent::Completed, ServiceEvent::Completed]);
    assert!(matches!(acts[1], ServiceAction::UninstallService));
    assert!(matches!(acts[2], ServiceAction::Report(ServiceReport::Uninstalled)));
}

#[test]
fn unsupported_platform() {
    let acts = drive(args(true, false, false, false), vec![ServiceEvent::LevelUnsupported]);
    match &acts[1] {
        ServiceAction::Fail(e) => {
            assert!(matches!(e, ServiceError::Unsupported { install_service: true }));
            assert_eq!(e.message(""), "Automatic management of a user service is unsupported on this platform");
            let s = e.suggestion(Some("/usr/local/bin/ssh-agent-mux")).unwrap();
            assert_eq!(
                s,
                "\nTo manually manage starting ssh-agent-mux, add the following to your shell startup script:\n\nif ! ps -A -u \"$(id -u)\" | grep -q ssh-agent-mux; then\n    \"/usr/local/bin/ssh-agent-mux\" > /dev/null &\nfi"
            );
        },
        _ => panic!("expected a failure"),
    }
    let restart = ServiceError::Unsupported { install_service: false };
    assert!(restart.suggestion(Some("/x")).is_none());
    let quoted = ServiceError::Unsupported { install_service: true }.suggestion(Some("/a b/mux\"x")).unwrap();
    assert!(quoted.contains("\"/a b/mux\\\"x\" > /dev/null &"));
    let fallback = ServiceError::Unsupported { install_service: true }.suggestion(None).unwrap();
    assert!(fallback.contains("\"ssh-agent-mux\" > /dev/null &"));
}

#[test]
fn file_names_and_label() {
    assert_eq!(file_name_of("/usr/bin/mux"), "mux");
    assert_eq!(file_name_of("mux"), "mux");
    assert_eq!(file_name_of("/usr/bin/"), "bin");
    assert_eq!(file_name_of("/usr/bin//"), "bin");
    assert_eq!(file_name_of("/"), "");
    assert_eq!(file_name_of("/usr/bin/."), "bin");
    assert_eq!(file_name_of("/usr/bin/./"), "bin");
    assert_eq!(file_name_of("a/.."), "..");
    assert_eq!(file_name_of("."), ".");
    assert_eq!(service_label(), "net.ross-williams.ssh-agent-mux");
}

#[test]
fn install_request_runs_current_program() {
    let r = install_request("/usr/local/bin/ssh-agent-mux".to_string());
    assert_eq!(r.label, "net.ross-williams.ssh-agent-mux");
    assert_eq!(r.program, "/usr/local/bin/ssh-agent-mux");
    assert!(r.args.is_empty());
    assert!(r.contents.is_none() && r.username.is_none());
    assert!(r.working_directory.is_none() && r.environment.is_none());
    assert!(r.autostart && r.restart_on_failure);
}

#[test]
fn suggestion_uses_file_name_of_path_with_trailing_separator() {
    let s = ServiceError::Unsupported { install_service: true }.suggestion(Some("/opt/mux/")).unwrap();
    assert!(s.starts_with("\nTo manually manage starting mux, add"));
    let dot = ServiceError::Unsupported { install_service: true }.suggestion(Some("/opt/mux/.")).unwrap();
    assert!(dot.starts_with("\nTo manually manage starting mux, add"));
    let quoted = ServiceError::Unsupported { install_service: true }.suggestion(Some("/a/it's")).unwrap();
    let path_debug = format!("{:?}", std::path::Path::new("/a/it's"));
    assert!(quoted.contains(&format!("\n    {path_debug} > /dev/null &\nfi")));
}
