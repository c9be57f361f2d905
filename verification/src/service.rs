//! Service-management options and the decisions behind them.

use vstd::prelude::*;

use crate::cli::Config;

verus! {

/// Service-management options given on the command line; at most one is set.
#[derive(Clone, Copy)]
pub struct ServiceArgs {
    /// Install the user service manager configuration.
    pub install_service: bool,
    /// Start the service, stopping it first if it runs.
    pub restart_service: bool,
    /// Uninstall the user service manager configuration.
    pub uninstall_service: bool,
    /// Write a new configuration file.
    pub install_config: bool,
}

impl ServiceArgs {
    /// Whether any service-related option was given.
    pub fn any(&self) -> (r: bool)
        ensures
            r == (self.install_service || self.restart_service || self.uninstall_service
                || self.install_config),
    {
        self.install_service || self.restart_service || self.uninstall_service
            || self.install_config
    }
}

/// The label the service is registered under with the service manager.
pub fn service_label() -> (l: String)
    ensures
        l@ == "net.ross-williams.ssh-agent-mux"@,
{
    String::from_str("net.ross-williams.ssh-agent-mux")
}

/// What is handed to the service manager to install the service.
pub struct InstallRequest {
    /// The label the service is registered under.
    pub label: String,
    /// The program the service runs.
    pub program: String,
    /// Its arguments.
    pub args: Vec<String>,
    /// Custom service-definition contents, to replace the generated ones.
    pub contents: Option<String>,
    /// The user to run the service as, where not the current one.
    pub username: Option<String>,
    /// The working directory, where set.
    pub working_directory: Option<String>,
    /// Extra environment variables, where set.
    pub environment: Option<Vec<(String, String)>>,
    /// Whether the service starts at login.
    pub autostart: bool,
    /// Whether the service is restarted after it exits with a failure.
    pub restart_on_failure: bool,
}

/// The installation of the service running `program` (the running program's
/// own path): no arguments, no custom definition, user or environment,
/// started at login and restarted on failure.
pub fn install_request(program: String) -> (r: InstallRequest)
    ensures
        r.label@ == "net.ross-williams.ssh-agent-mux"@,
        r.program == program,
        r.args@.len() == 0,
        r.contents is None,
        r.username is None,
        r.working_directory is None,
        r.environment is None,
        r.autostart,
        r.restart_on_failure,
{
    InstallRequest {
        label: service_label(),
        program,
        args: Vec::new(),
        contents: None,
        username: None,
        working_directory: None,
        environment: None,
        autostart: true,
        restart_on_failure: true,
    }
}

/// What the service manager reports of the service.
pub enum ServiceStatus {
    Running,
    Stopped,
    NotInstalled,
}

/// Where a service command stands.
pub enum ServicePhase {
    /// Nothing done yet.
    Start,
    /// Asked whether the configuration file exists, for `--install-config`.
    CheckingConfig,
    /// Writing a new configuration file, for `--install-config`.
    WritingConfig,
    /// Switching the service manager to the user level.
    SettingLevel,
    /// Asked whether the configuration file exists, before installing.
    CheckingConfigBeforeInstall,
    /// Writing a new configuration file, before installing.
    WritingConfigBeforeInstall,
    /// Installing the service.
    Installing,
    /// Asked for the service's status, to restart it.
    QueryingStatus,
    /// Stopping the running service, to restart it.
    Stopping,
    /// Starting the service.
    Starting,
    /// Uninstalling the service.
    Uninstalling,
    /// The command is over.
    Finished,
}

/// What the caller reports back after carrying out the last action.
pub enum ServiceEvent {
    /// The command begins.
    Begin,
    /// The last action succeeded.
    Completed,
    /// Whether the configuration file exists.
    ConfigExists(bool),
    /// The service manager does not support user-level services here.
    LevelUnsupported,
    /// The status of the service.
    Status(ServiceStatus),
}

/// How a successful service command ends.
pub enum ServiceReport {
    ConfigWritten,
    Installed,
    Restarted,
    Uninstalled,
    Nothing,
}

/// Why a service command fails.
pub enum ServiceError {
    /// `--install-config` found a configuration file already there.
    ConfigExists,
    /// `SSH_AUTH_SOCK` is not set and no upstream agent was given.
    SshAuthSockMissing,
    /// `SSH_AUTH_SOCK` is not valid UTF-8.
    SshAuthSockNotUnicode,
    /// `SSH_AUTH_SOCK` is set to the empty string.
    SshAuthSockBlank,
    /// The directory that should hold the configuration directory is missing.
    ConfigDirMissing,
    /// The service to restart is not installed.
    NotInstalled,
    /// User services cannot be managed automatically on this platform.
    Unsupported { install_service: bool },
}

/// The next thing to do for a service command.
pub enum ServiceAction {
    /// Find out whether the configuration file exists; report `ConfigExists`.
    CheckConfigExists,
    /// Write a new configuration file (see `Config::new_config_file`); report `Completed`.
    WriteNewConfig,
    /// Switch the service manager to user level; report `Completed` or `LevelUnsupported`.
    SetUserLevel,
    /// Install the service; report `Completed`.
    InstallService,
    /// Ask for the service's status; report `Status`.
    QueryStatus,
    /// Stop the service; report `Completed`.
    StopService,
    /// Start the service; report `Completed`.
    StartService,
    /// Uninstall the service; report `Completed`.
    UninstallService,
    /// The command succeeded.
    Report(ServiceReport),
    /// The command failed.
    Fail(ServiceError),
}

/// The event that the caller reports in a phase.
pub open spec fn expected_event(phase: ServicePhase, event: ServiceEvent) -> bool {
    match phase {
        ServicePhase::Start => event is Begin,
        ServicePhase::CheckingConfig => event is ConfigExists,
        ServicePhase::CheckingConfigBeforeInstall => event is ConfigExists,
        ServicePhase::SettingLevel => event is Completed || event is LevelUnsupported,
        ServicePhase::QueryingStatus => event is Status,
        ServicePhase::Finished => false,
        _ => event is Completed,
    }
}

/// The next phase and action of a service command with options `args`, in
/// phase `phase`, after `event`. Failures of the actions themselves are not
/// events: they end the command with their own error.
pub open spec fn next_service_step(args: ServiceArgs, phase: ServicePhase, event: ServiceEvent) -> (
    ServicePhase,
    ServiceAction,
) {
    match (phase, event) {
        (ServicePhase::Start, _) => if args.install_config {
            (ServicePhase::CheckingConfig, ServiceAction::CheckConfigExists)
        } else {
            (ServicePhase::SettingLevel, ServiceAction::SetUserLevel)
        },
        (ServicePhase::CheckingConfig, ServiceEvent::ConfigExists(true)) => (
            ServicePhase::Finished,
            ServiceAction::Fail(ServiceError::ConfigExists),
        ),
        (ServicePhase::CheckingConfig, _) => (ServicePhase::WritingConfig, ServiceAction::WriteNewConfig),
        (ServicePhase::WritingConfig, _) => (
            ServicePhase::Finished,
            ServiceAction::Report(ServiceReport::ConfigWritten),
        ),
        (ServicePhase::SettingLevel, ServiceEvent::LevelUnsupported) => (
            ServicePhase::Finished,
            ServiceAction::Fail(
                ServiceError::Unsupported { install_service: args.install_service },
            ),
        ),
        (ServicePhase::SettingLevel, _) => if args.install_service {
            (ServicePhase::CheckingConfigBeforeInstall, ServiceAction::CheckConfigExists)
        } else if args.restart_service {
            (ServicePhase::QueryingStatus, ServiceAction::QueryStatus)
        } else if args.uninstall_service {
            (ServicePhase::Uninstalling, ServiceAction::UninstallService)
        } else {
            (ServicePhase::Finished, ServiceAction::Report(ServiceReport::Nothing))
        },
        (ServicePhase::CheckingConfigBeforeInstall, ServiceEvent::ConfigExists(true)) => (
            ServicePhase::Installing,
            ServiceAction::InstallService,
        ),
        (ServicePhase::CheckingConfigBeforeInstall, _) => (
            ServicePhase::WritingConfigBeforeInstall,
            ServiceAction::WriteNewConfig,
        ),
        (ServicePhase::WritingConfigBeforeInstall, _) => (ServicePhase::Installing, ServiceAction::InstallService),
        (ServicePhase::Installing, _) => (
            ServicePhase::Finished,
            ServiceAction::Report(ServiceReport::Installed),
        ),
        (ServicePhase::QueryingStatus, ServiceEvent::Status(ServiceStatus::Running)) => (
            ServicePhase::Stopping,
            ServiceAction::StopService,
        ),
        (ServicePhase::QueryingStatus, ServiceEvent::Status(ServiceStatus::NotInstalled)) => (
            ServicePhase::Finished,
            ServiceAction::Fail(ServiceError::NotInstalled),
        ),
        (ServicePhase::QueryingStatus, _) => (ServicePhase::Starting, ServiceAction::StartService),
        (ServicePhase::Stopping, _) => (ServicePhase::Starting, ServiceAction::StartService),
        (ServicePhase::Starting, _) => (
            ServicePhase::Finished,
            ServiceAction::Report(ServiceReport::Restarted),
        ),
        (ServicePhase::Uninstalling, _) => (
            ServicePhase::Finished,
            ServiceAction::Report(ServiceReport::Uninstalled),
        ),
        (ServicePhase::Finished, _) => (ServicePhase::Finished, ServiceAction::Report(ServiceReport::Nothing)),
    }
}

impl ServiceArgs {
    /// One step of a service command: given where the command stands and
    /// what the last action gave, the next phase and the next action.
    pub fn service_step(&self, phase: ServicePhase, event: ServiceEvent) -> (r: (ServicePhase, ServiceAction))
        ensures
            r == next_service_step(*self, phase, event),
            phase is SettingLevel && event is LevelUnsupported ==> r == (
                ServicePhase::Finished,
                ServiceAction::Fail(ServiceError::Unsupported { install_service: self.install_service }),
            ),
            r.1 == ServiceAction::Report(ServiceReport::Restarted) ==> phase is Starting,
            r.1 == ServiceAction::Report(ServiceReport::Uninstalled) ==> phase is Uninstalling,
            r.1 == ServiceAction::Report(ServiceReport::Installed) ==> phase is Installing,
            r.1 == ServiceAction::Report(ServiceReport::Nothing) ==> (phase is Finished || (
            phase is SettingLevel && !(event is LevelUnsupported) && !self.install_service
                && !self.restart_service && !self.uninstall_service)),
    {
        match phase {
            ServicePhase::Start => {
                if self.install_config {
                    (ServicePhase::CheckingConfig, ServiceAction::CheckConfigExists)
                } else {
                    (ServicePhase::SettingLevel, ServiceAction::SetUserLevel)
                }
            },
            ServicePhase::CheckingConfig => match event {
                ServiceEvent::ConfigExists(true) => (
                    ServicePhase::Finished,
                    ServiceAction::Fail(ServiceError::ConfigExists),
                ),
                _ => (ServicePhase::WritingConfig, ServiceAction::WriteNewConfig),
            },
            ServicePhase::WritingConfig => (
                ServicePhase::Finished,
                ServiceAction::Report(ServiceReport::ConfigWritten),
            ),
            ServicePhase::SettingLevel => match event {
                ServiceEvent::LevelUnsupported => (
                    ServicePhase::Finished,
                    ServiceAction::Fail(ServiceError::Unsupported { install_service: self.install_service }),
                ),
                _ => {
                    if self.install_service {
                        (ServicePhase::CheckingConfigBeforeInstall, ServiceAction::CheckConfigExists)
                    } else if self.restart_service {
                        (ServicePhase::QueryingStatus, ServiceAction::QueryStatus)
                    } else if self.uninstall_service {
                        (ServicePhase::Uninstalling, ServiceAction::UninstallService)
                    } else {
                        (ServicePhase::Finished, ServiceAction::Report(ServiceReport::Nothing))
                    }
                },
            },
            ServicePhase::CheckingConfigBeforeInstall => match event {
                ServiceEvent::ConfigExists(true) => (ServicePhase::Installing, ServiceAction::InstallService),
                _ => (ServicePhase::WritingConfigBeforeInstall, ServiceAction::WriteNewConfig),
            },
            ServicePhase::WritingConfigBeforeInstall => (
                ServicePhase::Installing,
                ServiceAction::InstallService,
            ),
            ServicePhase::Installing => (
                ServicePhase::Finished,
                ServiceAction::Report(ServiceReport::Installed),
            ),
            ServicePhase::QueryingStatus => match event {
                ServiceEvent::Status(ServiceStatus::Running) => (
                    ServicePhase::Stopping,
                    ServiceAction::StopService,
                ),
                ServiceEvent::Status(ServiceStatus::NotInstalled) => (
                    ServicePhase::Finished,
                    ServiceAction::Fail(ServiceError::NotInstalled),
                ),
                _ => (ServicePhase::Starting, ServiceAction::StartService),
            },
            ServicePhase::Stopping => (ServicePhase::Starting, ServiceAction::StartService),
            ServicePhase::Starting => (
                ServicePhase::Finished,
                ServiceAction::Report(ServiceReport::Restarted),
            ),
            ServicePhase::Uninstalling => (
                ServicePhase::Finished,
                ServiceAction::Report(ServiceReport::Uninstalled),
            ),
            ServicePhase::Finished => (
                ServicePhase::Finished,
                ServiceAction::Report(ServiceReport::Nothing),
            ),
        }
    }
}

/// The phases a command with options `args` can be in.
pub open spec fn phase_allowed(args: ServiceArgs, phase: ServicePhase) -> bool {
    match phase {
        ServicePhase::CheckingConfig | ServicePhase::WritingConfig => args.install_config,
        ServicePhase::SettingLevel => !args.install_config,
        ServicePhase::CheckingConfigBeforeInstall
        | ServicePhase::WritingConfigBeforeInstall
        | ServicePhase::Installing => !args.install_config && args.install_service,
        ServicePhase::QueryingStatus | ServicePhase::Stopping | ServicePhase::Starting => {
            !args.install_config && !args.install_service && args.restart_service
        },
        ServicePhase::Uninstalling => {
            !args.install_config && !args.install_service && !args.restart_service
                && args.uninstall_service
        },
        _ => true,
    }
}

/// A service command performs only the operation it was asked for: `--install-config`
/// writes the configuration and touches no service; a service is installed
/// only for `--install-service`, stopped or started only for `--restart-service`,
/// uninstalled only for `--uninstall-service`; and the options are honoured
/// in that order of precedence.
pub proof fn law_service_only_requested(args: ServiceArgs, phase: ServicePhase, event: ServiceEvent)
    requires
        phase_allowed(args, phase),
    ensures
        phase_allowed(args, next_service_step(args, phase, event).0),
        next_service_step(args, phase, event).1 is InstallService ==> args.install_service
            && !args.install_config,
        next_service_step(args, phase, event).1 is StopService
            || next_service_step(args, phase, event).1 is StartService ==> args.restart_service
            && !args.install_service && !args.install_config,
        next_service_step(args, phase, event).1 is UninstallService ==> args.uninstall_service
            && !args.restart_service && !args.install_service && !args.install_config,
        next_service_step(args, phase, event).1 is SetUserLevel ==> !args.install_config,
{
}

/// A configuration file is written only right after it was found missing,
/// so an existing one is never overwritten.
pub proof fn law_config_never_overwritten(args: ServiceArgs, phase: ServicePhase, event: ServiceEvent)
    requires
        expected_event(phase, event),
    ensures
        next_service_step(args, phase, event).1 is WriteNewConfig ==> event == ServiceEvent::ConfigExists(false),
{
}

/// A restart stops the service only when it is running, and starts it in
/// every case except when it is not installed, where it fails.
pub proof fn law_restart(args: ServiceArgs, status: ServiceStatus)
    ensures
        next_service_step(args, ServicePhase::QueryingStatus, ServiceEvent::Status(status)) == match status {
            ServiceStatus::Running => (ServicePhase::Stopping, ServiceAction::StopService),
            ServiceStatus::Stopped => (ServicePhase::Starting, ServiceAction::StartService),
            ServiceStatus::NotInstalled => (
                ServicePhase::Finished,
                ServiceAction::Fail(ServiceError::NotInstalled),
            ),
        },
        next_service_step(args, ServicePhase::Stopping, ServiceEvent::Completed) == (
            ServicePhase::Starting,
            ServiceAction::StartService,
        ),
        next_service_step(args, ServicePhase::Starting, ServiceEvent::Completed) == (
            ServicePhase::Finished,
            ServiceAction::Report(ServiceReport::Restarted),
        ),
{
}

/// The value of `SSH_AUTH_SOCK` as read from the environment.
pub enum EnvValue {
    NotPresent,
    NotUnicode,
    Value(String),
}

/// A configuration file to create: its contents and the message announcing it.
pub struct NewConfigFile {
    pub config: Config,
    pub message: String,
}

/// Every error message that stops the creation of a configuration file starts so.
pub open spec fn cannot_create() -> Seq<char> {
    "A new configuration file cannot be created"@
}

/// The text of a service error, for the configuration file at `path`.
pub open spec fn service_error_text(e: ServiceError, path: Seq<char>) -> Seq<char> {
    match e {
        ServiceError::ConfigExists => "Config file at "@ + path
            + " already exists. Delete it and run --install-config again if you want to re-generate"@,
        ServiceError::SshAuthSockMissing => cannot_create()
            + ": SSH_AUTH_SOCK is not in the environment, and no upstream agent paths were specified on the command line."@,
        ServiceError::SshAuthSockNotUnicode => cannot_create()
            + ": SSH_AUTH_SOCK is defined, but contains non-UTF-8 characters."@,
        ServiceError::SshAuthSockBlank => cannot_create()
            + ": SSH_AUTH_SOCK is defined, but the value is blank."@,
        ServiceError::ConfigDirMissing => cannot_create() + " at "@ + path
            + ": parent directory does not exist"@,
        ServiceError::NotInstalled => "Service net.ross-williams.ssh-agent-mux not installed; can't restart"@,
        ServiceError::Unsupported { .. } => "Automatic management of a user service is unsupported on this platform"@,
    }
}

/// The text after the last `/` of a path: its final component.
pub open spec fn final_component(p: Seq<char>) -> Seq<char>
    decreases p.len(),
{
    if p.len() == 0 {
        p
    } else if p.last() == '/' {
        Seq::empty()
    } else {
        final_component(p.drop_last()).push(p.last())
    }
}

/// A path without its trailing separators and trailing `.` components, which
/// `Path::components` leaves out.
pub open spec fn trim_separators(p: Seq<char>) -> Seq<char>
    decreases p.len(),
{
    if p.len() > 0 && p.last() == '/' {
        trim_separators(p.drop_last())
    } else if p.len() >= 2 && p.last() == '.' && p[p.len() - 2] == '/' {
        trim_separators(p.drop_last())
    } else {
        p
    }
}

/// The file name of a path: its final component once trailing separators
/// and `.` components are dropped, as `Path::file_name` reads it where that
/// component is neither `.` nor `..`.
pub open spec fn file_name(p: Seq<char>) -> Seq<char> {
    final_component(trim_separators(p))
}

/// A path that has a file name, as `Path::file_name` says: what remains
/// after trailing separators and `.` components ends in a component that is
/// neither empty nor `.` nor `..`.
pub open spec fn names_file(p: Seq<char>) -> bool {
    let f = file_name(p);
    f.len() > 0 && f != "."@ && f != ".."@
}

/// Name for what `format!("{:?}", Path::new(s))` writes: the `Debug` form of
/// the path `s`, quoted and escaped.
pub uninterp spec fn debug_text(s: Seq<char>) -> Seq<char>;

/// The quoted, escaped form of the path `s`: calls `<Path as Debug>::fmt`
/// through `format!`. The contract only ties the result to the name above.
#[verifier::external_body]
fn debug_quoted(s: &str) -> (r: String)
    ensures
        r@ == debug_text(s@),
{
    format!("{:?}", std::path::Path::new(s))
}

/// The file name of a path, as `Path::file_name` gives it for a path whose
/// file name is not `..`.
pub fn file_name_of(p: &str) -> (f: String)
    ensures
        f@ == file_name(p@),
{
    let n = p.unicode_len();
    let mut end: usize = n;
    assert(p@.subrange(0, n as int) =~= p@);
    while end > 0 && (p.get_char(end - 1) == '/' || (end >= 2 && p.get_char(end - 1) == '.'
        && p.get_char(end - 2) == '/'))
        invariant
            n == p@.len(),
            end <= n,
            trim_separators(p@) == trim_separators(p@.subrange(0, end as int)),
        decreases end,
    {
        proof {
            let pre = p@.subrange(0, end as int);
            assert(pre.drop_last() =~= p@.subrange(0, end - 1));
            assert(pre.last() == p@[end - 1]);
            if end >= 2 {
                assert(pre[pre.len() - 2] == p@[end - 2]);
            }
        }
        end = end - 1;
    }
    proof {
        let pre = p@.subrange(0, end as int);
        if end > 0 {
            assert(pre.last() == p@[end - 1]);
        }
        if end >= 2 {
            assert(pre[pre.len() - 2] == p@[end - 2]);
        }
        assert(trim_separators(pre) == pre);
    }
    last_component(p.substring_char(0, end))
}

/// The text after the last `/` of `p`.
fn last_component(p: &str) -> (f: String)
    ensures
        f@ == final_component(p@),
{
    let n = p.unicode_len();
    let mut start: usize = n;
    assert(p@.subrange(0, n as int) =~= p@);
    assert(p@.subrange(n as int, n as int) =~= Seq::<char>::empty());
    assert(final_component(p@) + Seq::<char>::empty() =~= final_component(p@));
    while start > 0 && p.get_char(start - 1) != '/'
        invariant
            n == p@.len(),
            start <= n,
            final_component(p@) == final_component(p@.subrange(0, start as int)) + p@.subrange(
                start as int,
                n as int,
            ),
        decreases start,
    {
        let ghost pre = p@.subrange(0, start as int);
        assert(pre.drop_last() =~= p@.subrange(0, start - 1));
        assert(pre.last() == p@[start - 1]);
        assert(final_component(pre) == final_component(pre.drop_last()).push(pre.last()));
        assert(final_component(pre.drop_last()).push(pre.last()) + p@.subrange(start as int, n as int)
            =~= final_component(pre.drop_last()) + p@.subrange(start - 1, n as int));
        start = start - 1;
    }
    proof {
        let pre = p@.subrange(0, start as int);
        if start > 0 {
            assert(pre.last() == p@[start - 1]);
        }
        assert(final_component(pre) =~= Seq::<char>::empty());
        assert(final_component(p@) =~= p@.subrange(start as int, n as int));
    }
    String::from_str(p.substring_char(start, n))
}

impl ServiceError {
    /// Human-readable description of the error, for the configuration file
    /// at `config_path`.
    pub fn message(&self, config_path: &str) -> (m: String)
        ensures
            m@ == service_error_text(*self, config_path@),
    {
        match self {
            ServiceError::ConfigExists => {
                let mut m = String::from_str("Config file at ");
                m.append(config_path);
                m.append(
                    " already exists. Delete it and run --install-config again if you want to re-generate",
                );
                m
            },
            ServiceError::SshAuthSockMissing => {
                let mut m = String::from_str("A new configuration file cannot be created");
                m.append(
                    ": SSH_AUTH_SOCK is not in the environment, and no upstream agent paths were specified on the command line.",
                );
                m
            },
            ServiceError::SshAuthSockNotUnicode => {
                let mut m = String::from_str("A new configuration file cannot be created");
                m.append(": SSH_AUTH_SOCK is defined, but contains non-UTF-8 characters.");
                m
            },
            ServiceError::SshAuthSockBlank => {
                let mut m = String::from_str("A new configuration file cannot be created");
                m.append(": SSH_AUTH_SOCK is defined, but the value is blank.");
                m
            },
            ServiceError::ConfigDirMissing => {
                let mut m = String::from_str("A new configuration file cannot be created");
                m.append(" at ");
                m.append(config_path);
                m.append(": parent directory does not exist");
                m
            },
            ServiceError::NotInstalled => String::from_str(
                "Service net.ross-williams.ssh-agent-mux not installed; can't restart",
            ),
            ServiceError::Unsupported { .. } => String::from_str(
                "Automatic management of a user service is unsupported on this platform",
            ),
        }
    }

    /// Advice printed with the error: for a service that cannot be installed
    /// on this platform, how to start the agent from a shell startup script.
    /// `current_exe` is the path of the running program, if known; the
    /// program's name stands in for it otherwise.
    pub fn suggestion(&self, current_exe: Option<&str>) -> (r: Option<String>)
        requires
            current_exe matches Some(e) ==> names_file(e@),
        ensures
            match *self {
                ServiceError::Unsupported { install_service: true } => r matches Some(t) && {
                    let exe = match current_exe {
                        Some(e) => e@,
                        None => "ssh-agent-mux"@,
                    };
                    let arg0 = file_name(exe);
                    t@ == "\nTo manually manage starting "@ + arg0
                        + ", add the following to your shell startup script:\n\nif ! ps -A -u \"$(id -u)\" | grep -q "@
                        + arg0 + "; then\n    "@ + debug_text(exe) + " > /dev/null &\nfi"@
                },
                _ => r is None,
            },
    {
        match self {
            ServiceError::Unsupported { install_service: true } => {
                let exe = match current_exe {
                    Some(e) => String::from_str(e),
                    None => String::from_str("ssh-agent-mux"),
                };
                let arg0 = file_name_of(exe.as_str());
                let quoted = debug_quoted(exe.as_str());
                let mut t = String::from_str("\nTo manually manage starting ");
                t.append(arg0.as_str());
                t.append(
                    ", add the following to your shell startup script:\n\nif ! ps -A -u \"$(id -u)\" | grep -q ",
                );
                t.append(arg0.as_str());
                t.append("; then\n    ");
                t.append(quoted.as_str());
                t.append(" > /dev/null &\nfi");
                Some(t)
            },
            _ => None,
        }
    }
}

impl Config {
    /// The configuration file to create for `--install-config` or before
    /// installing the service. Without upstream agents on the command line,
    /// the agent named by `SSH_AUTH_SOCK` becomes the only upstream agent; a
    /// missing, non-UTF-8 or blank `SSH_AUTH_SOCK` is an error. The file is
    /// refused too when the directory that should hold the configuration
    /// directory does not exist (`config_dir_parent_exists`).
    pub fn new_config_file(self, ssh_auth_sock: EnvValue, config_dir_parent_exists: bool) -> (r: Result<
        NewConfigFile,
        ServiceError,
    >)
        ensures
            self.agent_sock_paths@.len() == 0 ==> match ssh_auth_sock {
                EnvValue::NotPresent => r matches Err(ServiceError::SshAuthSockMissing),
                EnvValue::NotUnicode => r matches Err(ServiceError::SshAuthSockNotUnicode),
                EnvValue::Value(v) => if v@.len() == 0 {
                    r matches Err(ServiceError::SshAuthSockBlank)
                } else if !config_dir_parent_exists {
                    r matches Err(ServiceError::ConfigDirMissing)
                } else {
                    r matches Ok(f) && {
                        &&& f.config.agent_sock_paths@ == seq![v]
                        &&& f.config.listen_path == self.listen_path
                        &&& f.config.log_level == self.log_level
                        &&& f.config.log_file == self.log_file
                        &&& f.config.config_path == self.config_path
                        &&& f.config.service == self.service
                        &&& f.message@ == "Automatically creating configuration file at "@
                            + self.config_path@ + " "@
                            + "with the current SSH_AUTh_SOCK as the upstream agent; please edit to add additional agents."@
                    }
                },
            },
            self.agent_sock_paths@.len() > 0 ==> if !config_dir_parent_exists {
                r matches Err(ServiceError::ConfigDirMissing)
            } else {
                r matches Ok(f) && f.config == self && f.message@
                    == "Automatically creating configuration file at "@ + self.config_path@ + " "@
                    + "with the upstream agent socket paths specified on the command line."@
            },
    {
        let mut message = String::from_str("Automatically creating configuration file at ");
        message.append(self.config_path.as_str());
        message.append(" ");
        let mut config = self;
        if config.agent_sock_paths.len() == 0 {
            match ssh_auth_sock {
                EnvValue::NotPresent => {
                    return Err(ServiceError::SshAuthSockMissing);
                },
                EnvValue::NotUnicode => {
                    return Err(ServiceError::SshAuthSockNotUnicode);
                },
                EnvValue::Value(v) => {
                    if v.as_str().unicode_len() == 0 {
                        return Err(ServiceError::SshAuthSockBlank);
                    }
                    if !config_dir_parent_exists {
                        return Err(ServiceError::ConfigDirMissing);
                    }
                    message.append(
                        "with the current SSH_AUTh_SOCK as the upstream agent; please edit to add additional agents.",
                    );
                    config.agent_sock_paths.push(v);
                },
            }
        } else {
            if !config_dir_parent_exists {
                return Err(ServiceError::ConfigDirMissing);
            }
            message.append("with the upstream agent socket paths specified on the command line.");
        }
        Ok(NewConfigFile { config, message })
    }
}

} // verus!
