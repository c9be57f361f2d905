use ssh_agent_mux::cli::{
    default_config_path, default_listen_path, expand_each, expand_path, join_path, Config, ConfigLayer,
    ExpandContext, ExpandError, LogLevel, LookupFailure,
};
use ssh_agent_mux::service::ServiceArgs;

const FAKE_ENV_VAR: &str = "CARGO_TEST_EXAMPLE";
const FAKE_SOCK_PATH: &str = "/path/to/nonexistent/socket.sock";

fn ctx(home: Option<&str>, vars: &[(&str, &str)]) -> ExpandContext {
    ExpandContext {
        home: home.map(|h| h.to_string()),
        vars: vars.iter().map(|(k, v)| (k.to_string(), v.to_string())).collect(),
        non_unicode: vec![],
    }
}

fn expanded(path: &str, c: &ExpandContext) -> String {
    match expand_path(path, c) {
        Ok(p) => p,
        Err(e) => panic!("expansion failed: {}", e.message()),
    }
}

#[test]
fn expand_env_variable() {
    let c = ctx(None, &[(FAKE_ENV_VAR, FAKE_SOCK_PATH)]);
    let to_be_expanded = format!("${{{FAKE_ENV_VAR}}}");
    let actual = expanded(&to_be_expanded, &c);
    assert_eq!(actual, FAKE_SOCK_PATH);
}

#[test]
fn expand_tilde() {
    let c = ctx(Some("/home/fake"), &[("HOME", "/home/fake")]);
    let actual = expanded("~/subdir_in_home", &c);
    assert_eq!(actual, "/home/fake/subdir_in_home");
}

#[test]
fn expand_env_multiple() {
    let c = ctx(None, &[("CARGO_TEST_VAR_1", "one"), ("CARGO_TEST_VAR_2", "two")]);
    let actual = expanded("{${CARGO_TEST_VAR_1}.${CARGO_TEST_VAR_2}}", &c);
    assert_eq!(actual, "{one.two}");
}

#[test]
fn expand_env_escaping() {
    let c = ctx(None, &[(FAKE_ENV_VAR, FAKE_SOCK_PATH)]);
    let to_be_expanded = format!("$${{{FAKE_ENV_VAR}}}");
    let actual = expanded(&to_be_expanded, &c);
    assert_eq!(actual, format!("${{{FAKE_ENV_VAR}}}"));
}

#[test]
fn expand_missing_variable_is_an_error() {
    let c = ctx(Some("/home/fake"), &[]);
    match expand_path("${NOT_SET_ANYWHERE}/agent.sock", &c) {
        Ok(p) => panic!("unexpected expansion {p}"),
        Err(ExpandError { var_name, cause }) => {
            assert_eq!(var_name, "NOT_SET_ANYWHERE");
            assert!(matches!(cause, LookupFailure::NotPresent));
        },
    }
    let e = ExpandError { var_name: "X".to_string(), cause: LookupFailure::NotPresent };
    assert_eq!(e.message(), "error looking key 'X' up: environment variable not found");
}

#[test]
fn expand_non_unicode_variable_is_reported_as_such() {
    let mut c = ctx(None, &[]);
    c.non_unicode.push(("BAD".to_string(), "\"\\xFF\"".to_string()));
    match expand_path("$BAD/x", &c) {
        Ok(p) => panic!("unexpected expansion {p}"),
        Err(e) => {
            assert_eq!(e.var_name, "BAD");
            assert_eq!(
                e.message(),
                "error looking key 'BAD' up: environment variable was not valid unicode: \"\\xFF\""
            );
        },
    }
}

#[test]
fn expand_plain_path_is_unchanged() {
    let c = ctx(Some("/home/fake"), &[("A", "b")]);
    assert_eq!(expanded("/run/user/1000/agent.sock", &c), "/run/user/1000/agent.sock");
}

#[test]
fn expand_tilde_without_home_is_unchanged() {
    let c = ctx(None, &[]);
    assert_eq!(expanded("~/x.sock", &c), "~/x.sock");
}

#[test]
fn expand_variable_value_with_tilde_is_not_expanded_again() {
    let c = ctx(Some("/home/fake"), &[("T", "~")]);
    assert_eq!(expanded("$T/a", &c), "~/a");
}

#[test]
fn expand_each_stops_at_first_failure() {
    let c = ctx(Some("/h"), &[("A", "a")]);
    let paths = vec!["~/one".to_string(), "$A/two".to_string()];
    match expand_each(&paths, &c) {
        Ok(v) => assert_eq!(v, vec!["/h/one".to_string(), "a/two".to_string()]),
        Err(_) => panic!("expansion failed"),
    }
    let bad = vec!["~/one".to_string(), "$B/two".to_string(), "$C".to_string()];
    match expand_each(&bad, &c) {
        Ok(_) => panic!("expected an error"),
        Err(e) => assert_eq!(e.var_name, "B"),
    }
}

fn sample_config(agents: Vec<String>) -> Config {
    Config {
        listen_path: default_listen_path(),
        log_level: LogLevel::Info,
        log_file: Some("$LOGS/mux.log".to_string()),
        agent_sock_paths: agents,
        config_path: "/cfg/ssh-agent-mux.toml".to_string(),
        service: ServiceArgs {
            install_service: false,
            restart_service: false,
            uninstall_service: false,
            install_config: false,
        },
    }
}

#[test]
fn config_paths_are_expanded_in_order() {
    let c = ctx(Some("/home/u"), &[("LOGS", "/var/log"), ("SOCK", "/tmp/a.sock")]);
    let config = sample_config(vec!["${SOCK}".to_string(), "~/.ssh/b.sock".to_string()]);
    let out = match config.expand_paths(&c) {
        Ok(out) => out,
        Err(e) => panic!("{}", e.message()),
    };
    assert_eq!(out.listen_path, "/home/u/.ssh/ssh-agent-mux.sock");
    assert_eq!(out.log_file.as_deref(), Some("/var/log/mux.log"));
    assert_eq!(out.agent_sock_paths, vec!["/tmp/a.sock".to_string(), "/home/u/.ssh/b.sock".to_string()]);
    assert_eq!(out.config_path, "/cfg/ssh-agent-mux.toml");
    assert!(matches!(out.log_level, LogLevel::Info));
}

#[test]
fn config_expansion_reports_log_file_before_agents() {
    let c = ctx(Some("/home/u"), &[]);
    let config = sample_config(vec!["$MISSING_AGENT".to_string()]);
    match config.expand_paths(&c) {
        Ok(_) => panic!("expected an error"),
        Err(e) => assert_eq!(e.var_name, "LOGS"),
    }
}

#[test]
fn default_paths() {
    assert_eq!(default_config_path(None), "~/.config/ssh-agent-mux/ssh-agent-mux.toml");
    assert_eq!(
        default_config_path(Some("/home/u/.cfg")),
        "/home/u/.cfg/ssh-agent-mux/ssh-agent-mux.toml"
    );
    assert_eq!(default_config_path(Some("/x/")), "/x/ssh-agent-mux/ssh-agent-mux.toml");
    assert_eq!(default_config_path(Some("")), "ssh-agent-mux/ssh-agent-mux.toml");
    assert_eq!(default_listen_path(), "~/.ssh/ssh-agent-mux.sock");
    assert_eq!(join_path("a", "b"), "a/b");
    assert_eq!(join_path("a/", "b"), "a/b");
}

fn no_settings() -> ConfigLayer {
    ConfigLayer { listen_path: None, log_level: None, log_file: None, agent_sock_paths: None }
}

fn no_service() -> ServiceArgs {
    ServiceArgs { install_service: false, restart_service: false, uninstall_service: false, install_config: false }
}

#[test]
fn defaults_apply_without_settings() {
    let c = Config::from_layers(no_settings(), no_settings(), "/c.toml".to_string(), no_service());
    assert_eq!(c.listen_path, "~/.ssh/ssh-agent-mux.sock");
    assert!(matches!(c.log_level, LogLevel::Warn));
    assert_eq!(c.log_file, None);
    assert!(c.agent_sock_paths.is_empty());
    assert_eq!(c.config_path, "/c.toml");
}

#[test]
fn command_line_overrides_file() {
    let file = ConfigLayer {
        listen_path: Some("/file.sock".to_string()),
        log_level: Some(LogLevel::Debug),
        log_file: Some(Some("/file.log".to_string())),
        agent_sock_paths: Some(vec!["/a.sock".to_string(), "/b.sock".to_string()]),
    };
    let args = ConfigLayer {
        listen_path: None,
        log_level: Some(LogLevel::Error),
        log_file: None,
        agent_sock_paths: Some(vec!["/cli.sock".to_string()]),
    };
    let mut service = no_service();
    service.restart_service = true;
    let c = Config::from_layers(file, args, "/c.toml".to_string(), service);
    assert_eq!(c.listen_path, "/file.sock");
    assert!(matches!(c.log_level, LogLevel::Error));
    assert_eq!(c.log_file.as_deref(), Some("/file.log"));
    assert_eq!(c.agent_sock_paths, vec!["/cli.sock".to_string()]);
    assert!(c.service.restart_service && c.service.any());
}

#[test]
fn default_paths_expand_under_home() {
    let c = ctx(Some("/h"), &[]);
    assert_eq!(
        expanded(&default_config_path(None), &c),
        "/h/.config/ssh-agent-mux/ssh-agent-mux.toml"
    );
    assert_eq!(expanded(&default_listen_path(), &c), "/h/.ssh/ssh-agent-mux.sock");
    assert_eq!(expanded("~", &c), "/h");
}
