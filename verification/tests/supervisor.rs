use hindsight_desktop::supervisor::{
    child_path_dirs, control_center_request, control_port, control_token, control_url,
    daemon_start, daemon_start_request, embed_bin_candidates, embed_command, ensure_profile,
    names_embed_bin,
    open_control_center, resolved_embed_bin, run_embed, ControlAction, ControlCenter,
    ControlEvent, DaemonStart, EmbedBin, EmbedRequest, PathSpec, Program, StartAction,
    CONTROL_PORT_DEFAULT, DAEMON_PORT, PROFILE,
};

fn strings(parts: &[&str]) -> Vec<String> {
    parts.iter().map(|s| s.to_string()).collect()
}

fn pairs(parts: &[(&str, &str)]) -> Vec<(String, String)> {
    parts.iter().map(|(k, v)| (k.to_string(), v.to_string())).collect()
}

fn run_args(action: StartAction) -> (Vec<String>, Vec<(String, String)>) {
    match action {
        StartAction::RunEmbed(r) => (r.args, r.env),
        StartAction::Report(b) => panic!("expected a run, got a report of {b}"),
    }
}

#[test]
fn profile_is_created_on_the_fixed_port() {
    let r = ensure_profile();
    assert_eq!(r.args, strings(&["profile", "create", "desktop", "--port", "8899", "--merge"]));
    assert!(r.env.is_empty());
    assert_eq!(PROFILE, "desktop");
    assert_eq!(DAEMON_PORT, 8899);
}

#[test]
fn daemon_start_disables_idle_exit() {
    let r = daemon_start_request();
    assert_eq!(r.args, strings(&["daemon", "start"]));
    assert_eq!(r.env, pairs(&[("HINDSIGHT_EMBED_DAEMON_IDLE_TIMEOUT", "0")]));
}

#[test]
fn daemon_start_runs_profile_then_start_and_reports_start() {
    for (profile_ok, start_ok) in [(true, true), (false, true), (true, false), (false, false)] {
        let (s1, a1) = daemon_start(DaemonStart::Begin, false);
        assert_eq!(s1, DaemonStart::CreatingProfile);
        assert_eq!(run_args(a1).0, ensure_profile().args);
        let (s2, a2) = daemon_start(s1, profile_ok);
        assert_eq!(s2, DaemonStart::StartingDaemon);
        let (args, env) = run_args(a2);
        assert_eq!(args, strings(&["daemon", "start"]));
        assert_eq!(env, pairs(&[("HINDSIGHT_EMBED_DAEMON_IDLE_TIMEOUT", "0")]));
        let (s3, a3) = daemon_start(s2, start_ok);
        assert_eq!(s3, DaemonStart::Finished(start_ok));
        assert!(matches!(a3, StartAction::Report(b) if b == start_ok));
        let (s4, a4) = daemon_start(s3, !start_ok);
        assert_eq!(s4, s3);
        assert!(matches!(a4, StartAction::Report(b) if b == start_ok));
    }
}

#[test]
fn uvx_command_names_the_package_first() {
    let c = embed_command(EmbedBin::Uvx);
    assert_eq!(c.program, Program::Uvx);
    assert_eq!(c.args, strings(&["hindsight-embed>=0.8.2"]));
    assert_eq!(c.env, pairs(&[("HINDSIGHT_EMBED_PROFILE", "desktop")]));
}

#[test]
fn installed_command_has_no_package_argument() {
    for bin in [EmbedBin::FromEnv, EmbedBin::Candidate(2)] {
        let c = embed_command(bin);
        assert_eq!(c.program, Program::Installed);
        assert!(c.args.is_empty());
        assert_eq!(c.env, pairs(&[("HINDSIGHT_EMBED_PROFILE", "desktop")]));
    }
}

#[test]
fn run_embed_appends_request_after_base() {
    let c = run_embed(EmbedBin::Uvx, &daemon_start_request());
    assert_eq!(c.program, Program::Uvx);
    assert_eq!(c.args, strings(&["hindsight-embed>=0.8.2", "daemon", "start"]));
    assert_eq!(
        c.env,
        pairs(&[
            ("HINDSIGHT_EMBED_PROFILE", "desktop"),
            ("HINDSIGHT_EMBED_DAEMON_IDLE_TIMEOUT", "0"),
        ])
    );
    let req = EmbedRequest { args: strings(&["a", "b"]), env: pairs(&[("K", "V"), ("L", "")]) };
    let c = run_embed(EmbedBin::Candidate(0), &req);
    assert_eq!(c.program, Program::Installed);
    assert_eq!(c.args, strings(&["a", "b"]));
    assert_eq!(c.env, pairs(&[("HINDSIGHT_EMBED_PROFILE", "desktop"), ("K", "V"), ("L", "")]));
}

#[test]
fn control_port_defaults_and_overrides() {
    assert_eq!(control_port(&None), 7878);
    assert_eq!(CONTROL_PORT_DEFAULT, 7878);
    assert_eq!(control_port(&Some("9000".to_string())), 9000);
    assert_eq!(control_port(&Some("+2000".to_string())), 2000);
    assert_eq!(control_port(&Some("1024".to_string())), 1024);
    assert_eq!(control_port(&Some("65535".to_string())), 65535);
    assert_eq!(control_port(&Some("1023".to_string())), 7878);
    assert_eq!(control_port(&Some("80".to_string())), 7878);
    assert_eq!(control_port(&Some("65536".to_string())), 7878);
    assert_eq!(control_port(&Some("abc".to_string())), 7878);
    assert_eq!(control_port(&Some("".to_string())), 7878);
    assert_eq!(control_port(&Some(" 9000".to_string())), 7878);
}

#[test]
fn control_port_honours_every_high_port_written_in_decimal() {
    for p in 1024..=u16::MAX {
        assert_eq!(control_port(&Some(p.to_string())), p);
    }
}

#[test]
fn control_token_trims_and_drops_empty() {
    assert_eq!(control_token(&None), None);
    assert_eq!(control_token(&Some("  abc123\n".to_string())), Some("abc123".to_string()));
    assert_eq!(control_token(&Some(" \t\n ".to_string())), None);
    assert_eq!(control_token(&Some(String::new())), None);
    assert_eq!(control_token(&Some("a b".to_string())), Some("a b".to_string()));
}

#[test]
fn control_url_with_and_without_token() {
    assert_eq!(
        control_url(7878, &Some("tok".to_string())),
        "http://localhost:7878/?token=tok&profile=desktop"
    );
    assert_eq!(control_url(9000, &None), "http://localhost:9000/?profile=desktop");
}

#[test]
fn control_center_request_does_not_open_a_browser() {
    let r = control_center_request();
    assert_eq!(r.args, strings(&["control", "start", "--no-open"]));
    assert!(r.env.is_empty());
}

#[test]
fn open_control_center_runs_reads_then_opens() {
    let (s1, a1) = open_control_center(ControlCenter::Begin, ControlEvent::Proceed);
    assert_eq!(s1, ControlCenter::StartingServer);
    match a1 {
        ControlAction::RunEmbed(r) => assert_eq!(r.args, strings(&["control", "start", "--no-open"])),
        _ => panic!("expected a run"),
    }
    let (s2, a2) = open_control_center(s1, ControlEvent::Proceed);
    assert_eq!(s2, ControlCenter::ReadingSettings);
    assert!(matches!(a2, ControlAction::ReadSettings));
    let (s2b, a2b) = open_control_center(s2, ControlEvent::Proceed);
    assert_eq!(s2b, ControlCenter::ReadingSettings);
    assert!(matches!(a2b, ControlAction::ReadSettings));
    let (s3, a3) = open_control_center(
        s2b,
        ControlEvent::Settings {
            port_var: Some("9000".to_string()),
            token_file: Some(" secret\n".to_string()),
        },
    );
    assert_eq!(s3, ControlCenter::Opened);
    match a3 {
        ControlAction::OpenUrl(u) => {
            assert_eq!(u, "http://localhost:9000/?token=secret&profile=desktop")
        }
        _ => panic!("expected an address"),
    }
    let (s4, a4) = open_control_center(s3, ControlEvent::Proceed);
    assert_eq!(s4, ControlCenter::Opened);
    assert!(matches!(a4, ControlAction::Done));
}

#[test]
fn open_control_center_without_settings_uses_defaults() {
    let (_, a) = open_control_center(
        ControlCenter::ReadingSettings,
        ControlEvent::Settings { port_var: None, token_file: None },
    );
    match a {
        ControlAction::OpenUrl(u) => assert_eq!(u, "http://localhost:7878/?profile=desktop"),
        _ => panic!("expected an address"),
    }
}

#[test]
fn embed_bin_override_wins_when_not_empty() {
    let exists = vec![true, true];
    assert_eq!(resolved_embed_bin(&Some("/x/hindsight-embed".to_string()), &exists), EmbedBin::FromEnv);
    assert_eq!(resolved_embed_bin(&Some(String::new()), &exists), EmbedBin::Candidate(0));
}

#[test]
fn embed_bin_first_existing_candidate_else_uvx() {
    assert_eq!(resolved_embed_bin(&None, &vec![false, false, true, true]), EmbedBin::Candidate(2));
    assert_eq!(resolved_embed_bin(&None, &vec![false, false, false, false]), EmbedBin::Uvx);
    assert_eq!(resolved_embed_bin(&None, &vec![]), EmbedBin::Uvx);
}

#[test]
fn embed_bin_candidates_in_order() {
    assert_eq!(
        embed_bin_candidates(true),
        vec![
            PathSpec::InHome(".local/bin/hindsight-embed".to_string()),
            PathSpec::InHome(".pyenv/shims/hindsight-embed".to_string()),
            PathSpec::Absolute("/opt/homebrew/bin/hindsight-embed".to_string()),
            PathSpec::Absolute("/usr/local/bin/hindsight-embed".to_string()),
        ]
    );
    assert_eq!(
        embed_bin_candidates(false),
        vec![
            PathSpec::Absolute("/opt/homebrew/bin/hindsight-embed".to_string()),
            PathSpec::Absolute("/usr/local/bin/hindsight-embed".to_string()),
        ]
    );
}

#[test]
fn child_path_dirs_in_order() {
    assert_eq!(
        child_path_dirs(true),
        vec![
            PathSpec::InHome(".local/bin".to_string()),
            PathSpec::InHome(".cargo/bin".to_string()),
            PathSpec::InHome(".pyenv/shims".to_string()),
            PathSpec::Absolute("/opt/homebrew/bin".to_string()),
            PathSpec::Absolute("/usr/local/bin".to_string()),
            PathSpec::Absolute("/usr/bin".to_string()),
            PathSpec::Absolute("/bin".to_string()),
        ]
    );
    assert_eq!(child_path_dirs(false).len(), 4);
}

#[test]
fn override_variable_names_a_binary_only_when_not_empty() {
    assert!(names_embed_bin(&Some("/x/hindsight-embed".to_string())));
    assert!(!names_embed_bin(&Some(String::new())));
    assert!(!names_embed_bin(&None));
}

#[test]
fn embed_bin_needs_candidates_only_up_to_the_first_existing() {
    assert_eq!(resolved_embed_bin(&None, &vec![false, true]), EmbedBin::Candidate(1));
    assert_eq!(resolved_embed_bin(&Some("/b".to_string()), &vec![]), EmbedBin::FromEnv);
}
