//! Drives a local Hindsight instance through the `hindsight-embed` CLI.
//!
//! The app is a thin supervisor with two actions: start the daemon (always on)
//! and open the control center. It runs under its own embed profile
//! ([`PROFILE`]) pinned to [`DAEMON_PORT`], so it never collides with the
//! user's default profile or a dev server.
//!
//! Running a command, reading the environment and the file system, and
//! opening a browser are the caller's work: this module says which command
//! to run, with which arguments and environment, in which order, and what to
//! make of what came back.
use vstd::prelude::*;

use crate::text::{
    all_digits, all_white, decimal, is_digit, unsigned_digits, is_white_space, lemma_parse_decimal, lemma_trim_all_white,
    lemma_trim_ends, lemma_trim_surrounded, parse_u16, parsed_u16, trim, trim_str, u16_decimal,
};

verus! {

/// Dedicated embed profile this app owns end to end.
pub const PROFILE: &'static str = "desktop";

/// Fixed daemon port of [`PROFILE`]: in the named-profile range (8889-9888)
/// and clear of the default profile and the dev server on 8888.
pub const DAEMON_PORT: u16 = 8899;

/// Package spec run with `uvx` when no installed binary is found; the version
/// floor guarantees that the control center is present.
pub const EMBED_PKG: &'static str = "hindsight-embed>=0.8.2";

/// Program that fetches and runs [`EMBED_PKG`] when it is not installed.
pub const UVX: &'static str = "uvx";

/// Default control-center port.
pub const CONTROL_PORT_DEFAULT: u16 = 7878;

/// Variable that overrides the control-center port.
pub const CONTROL_PORT_VAR: &'static str = "HINDSIGHT_EMBED_CONTROL_PORT";

/// Variable that names the profile every `hindsight-embed` run works on.
pub const PROFILE_VAR: &'static str = "HINDSIGHT_EMBED_PROFILE";

/// Variable that names an installed `hindsight-embed` to use.
pub const EMBED_BIN_VAR: &'static str = "HINDSIGHT_EMBED_BIN";

/// Variable that sets the daemon's idle timeout; a value `<= 0` disables its
/// idle auto-exit so that it stays up.
pub const IDLE_TIMEOUT_VAR: &'static str = "HINDSIGHT_EMBED_DAEMON_IDLE_TIMEOUT";

/// The idle timeout that keeps the daemon always on.
pub const IDLE_TIMEOUT_OFF: &'static str = "0";

// ---------------------------------------------------------------------------
// Commands
// ---------------------------------------------------------------------------

/// One `hindsight-embed` subcommand: its arguments and the environment it
/// needs beyond the profile.
pub struct EmbedRequest {
    pub args: Vec<String>,
    pub env: Vec<(String, String)>,
}

/// The mathematical content of an [`EmbedRequest`].
pub struct EmbedRequestView {
    pub args: Seq<Seq<char>>,
    pub env: Seq<(Seq<char>, Seq<char>)>,
}

impl View for EmbedRequest {
    type V = EmbedRequestView;

    open spec fn view(&self) -> EmbedRequestView {
        EmbedRequestView { args: self.args.deep_view(), env: self.env.deep_view() }
    }
}

/// Where the `hindsight-embed` to run comes from.
#[derive(PartialEq, Eq, Structural, Clone, Copy, Debug)]
pub enum EmbedBin {
    /// The path in [`EMBED_BIN_VAR`].
    FromEnv,
    /// The candidate at this index of [`embed_bin_candidates`].
    Candidate(usize),
    /// None is installed: run it through [`UVX`].
    Uvx,
}

/// The program a command runs.
#[derive(PartialEq, Eq, Structural, Clone, Copy, Debug)]
pub enum Program {
    /// The installed `hindsight-embed` that was found.
    Installed,
    /// [`UVX`], with [`EMBED_PKG`] as its first argument.
    Uvx,
}

/// A full `hindsight-embed` command line. The caller also gives the child the
/// augmented `PATH` of [`child_path_dirs`].
pub struct EmbedCommand {
    pub program: Program,
    pub args: Vec<String>,
    pub env: Vec<(String, String)>,
}

/// The mathematical content of an [`EmbedCommand`].
pub struct EmbedCommandView {
    pub program: Program,
    pub args: Seq<Seq<char>>,
    pub env: Seq<(Seq<char>, Seq<char>)>,
}

impl View for EmbedCommand {
    type V = EmbedCommandView;

    open spec fn view(&self) -> EmbedCommandView {
        EmbedCommandView {
            program: self.program,
            args: self.args.deep_view(),
            env: self.env.deep_view(),
        }
    }
}

/// The program for a resolved binary.
pub open spec fn program_for(bin: EmbedBin) -> Program {
    match bin {
        EmbedBin::Uvx => Program::Uvx,
        _ => Program::Installed,
    }
}

/// The base command of every run: the program, [`EMBED_PKG`] first when it
/// goes through [`UVX`], and the profile in the environment.
pub open spec fn base_command(bin: EmbedBin) -> EmbedCommandView {
    EmbedCommandView {
        program: program_for(bin),
        args: if bin == EmbedBin::Uvx {
            seq![EMBED_PKG@]
        } else {
            Seq::empty()
        },
        env: seq![(PROFILE_VAR@, PROFILE@)],
    }
}

/// The command that runs `request`: the base command, then the request's
/// arguments, then its environment (set after the profile, so it wins on a
/// shared name).
pub open spec fn command_for(bin: EmbedBin, request: EmbedRequestView) -> EmbedCommandView {
    let base = base_command(bin);
    EmbedCommandView {
        program: base.program,
        args: base.args + request.args,
        env: base.env + request.env,
    }
}

/// Every command runs under [`PROFILE`]: its environment starts with the
/// profile, followed by the request's own; its arguments end with the
/// request's, after [`EMBED_PKG`] when it goes through [`UVX`].
pub proof fn lemma_command_under_profile(bin: EmbedBin, request: EmbedRequestView)
    ensures
        command_for(bin, request).env[0] == (PROFILE_VAR@, PROFILE@),
        command_for(bin, request).env.skip(1) == request.env,
        command_for(bin, request).args == if bin == EmbedBin::Uvx {
            seq![EMBED_PKG@] + request.args
        } else {
            request.args
        },
        command_for(bin, request).program == Program::Uvx <==> bin == EmbedBin::Uvx,
{
    assert(command_for(bin, request).env.skip(1) =~= request.env);
    assert(Seq::<Seq<char>>::empty() + request.args =~= request.args);
}

/// The base command that runs `hindsight-embed` under [`PROFILE`].
pub fn embed_command(bin: EmbedBin) -> (r: EmbedCommand)
    ensures
        r@ == base_command(bin),
{
    let mut args: Vec<String> = Vec::new();
    let program = match bin {
        EmbedBin::Uvx => {
            args.push(String::from_str(EMBED_PKG));
            Program::Uvx
        },
        _ => Program::Installed,
    };
    let mut env: Vec<(String, String)> = Vec::new();
    env.push((String::from_str(PROFILE_VAR), String::from_str(PROFILE)));
    let r = EmbedCommand { program, args, env };
    assert(r@.args =~= base_command(bin).args);
    assert(r@.env =~= base_command(bin).env);
    r
}

/// The command that runs `request` with the binary `bin`.
pub fn run_embed(bin: EmbedBin, request: &EmbedRequest) -> (r: EmbedCommand)
    ensures
        r@ == command_for(bin, request@),
{
    let mut cmd = embed_command(bin);
    let ghost base = cmd@;
    let mut i: usize = 0;
    while i < request.args.len()
        invariant
            i <= request.args.len(),
            cmd.program == base.program,
            cmd.env.deep_view() == base.env,
            cmd.args.deep_view() =~= base.args + request.args.deep_view().take(i as int),
        decreases request.args.len() - i,
    {
        let ghost before = cmd.args.deep_view();
        cmd.args.push(request.args[i].clone());
        assert(cmd.args.deep_view() =~= before.push(request.args[i as int]@));
        assert(request.args.deep_view().take(i + 1) =~= request.args.deep_view().take(
            i as int,
        ).push(request.args[i as int]@));
        i = i + 1;
    }
    assert(request.args.deep_view().take(i as int) =~= request.args.deep_view());
    let mut j: usize = 0;
    while j < request.env.len()
        invariant
            j <= request.env.len(),
            cmd.program == base.program,
            cmd.args.deep_view() == base.args + request.args.deep_view(),
            cmd.env.deep_view() =~= base.env + request.env.deep_view().take(j as int),
        decreases request.env.len() - j,
    {
        let (k, v) = &request.env[j];
        let ghost before = cmd.env.deep_view();
        cmd.env.push((k.clone(), v.clone()));
        assert(cmd.env.deep_view() =~= before.push(request.env[j as int].deep_view()));
        assert(request.env.deep_view().take(j + 1) =~= request.env.deep_view().take(
            j as int,
        ).push(request.env[j as int].deep_view()));
        j = j + 1;
    }
    assert(request.env.deep_view().take(j as int) =~= request.env.deep_view());
    cmd
}

/// An owned copy of `s`.
fn owned(s: &str) -> (r: String)
    ensures
        r@ == s@,
{
    String::from_str(s)
}

/// `hindsight-embed profile create desktop --port 8899 --merge`: creates the
/// dedicated profile if absent; `--merge` makes this idempotent and keeps
/// what the user has set through the control center.
pub open spec fn profile_request() -> EmbedRequestView {
    EmbedRequestView {
        args: seq![
            "profile"@,
            "create"@,
            PROFILE@,
            "--port"@,
            decimal(DAEMON_PORT as nat),
            "--merge"@,
        ],
        env: Seq::empty(),
    }
}

/// `hindsight-embed daemon start`, with the idle auto-exit disabled so that
/// the daemon stays up.
pub open spec fn start_request() -> EmbedRequestView {
    EmbedRequestView {
        args: seq!["daemon"@, "start"@],
        env: seq![(IDLE_TIMEOUT_VAR@, IDLE_TIMEOUT_OFF@)],
    }
}

/// `hindsight-embed control start --no-open`: makes sure the control-center
/// server and its access token exist, without opening a browser.
pub open spec fn control_start_request() -> EmbedRequestView {
    EmbedRequestView { args: seq!["control"@, "start"@, "--no-open"@], env: Seq::empty() }
}

/// The request that creates the dedicated profile.
pub fn ensure_profile() -> (r: EmbedRequest)
    ensures
        r@ == profile_request(),
{
    let mut args: Vec<String> = Vec::new();
    args.push(owned("profile"));
    args.push(owned("create"));
    args.push(owned(PROFILE));
    args.push(owned("--port"));
    args.push(u16_decimal(DAEMON_PORT));
    args.push(owned("--merge"));
    let env: Vec<(String, String)> = Vec::new();
    let r = EmbedRequest { args, env };
    assert(r@.args =~= profile_request().args);
    assert(r@.env =~= profile_request().env);
    r
}

/// The request that starts the daemon, always on.
pub fn daemon_start_request() -> (r: EmbedRequest)
    ensures
        r@ == start_request(),
{
    let mut args: Vec<String> = Vec::new();
    args.push(owned("daemon"));
    args.push(owned("start"));
    let mut env: Vec<(String, String)> = Vec::new();
    env.push((owned(IDLE_TIMEOUT_VAR), owned(IDLE_TIMEOUT_OFF)));
    let r = EmbedRequest { args, env };
    assert(r@.args =~= start_request().args);
    assert(r@.env =~= start_request().env);
    r
}

/// The request that brings up the control-center server.
pub fn control_center_request() -> (r: EmbedRequest)
    ensures
        r@ == control_start_request(),
{
    let mut args: Vec<String> = Vec::new();
    args.push(owned("control"));
    args.push(owned("start"));
    args.push(owned("--no-open"));
    let env: Vec<(String, String)> = Vec::new();
    let r = EmbedRequest { args, env };
    assert(r@.args =~= control_start_request().args);
    assert(r@.env =~= control_start_request().env);
    r
}

// ---------------------------------------------------------------------------
// Starting the daemon
// ---------------------------------------------------------------------------

/// Where a daemon start stands.
#[derive(PartialEq, Eq, Structural, Clone, Copy, Debug)]
pub enum DaemonStart {
    /// Nothing done yet.
    Begin,
    /// The profile is being created.
    CreatingProfile,
    /// The daemon is being started.
    StartingDaemon,
    /// Over, with whether the daemon started.
    Finished(bool),
}

/// What the caller does next for a daemon start.
pub enum StartAction {
    /// Run this request and report whether it exited successfully.
    RunEmbed(EmbedRequest),
    /// The start is over: the daemon started, or not.
    Report(bool),
}

/// The mathematical content of a [`StartAction`].
pub enum StartActionView {
    RunEmbed(EmbedRequestView),
    Report(bool),
}

impl View for StartAction {
    type V = StartActionView;

    open spec fn view(&self) -> StartActionView {
        match self {
            StartAction::RunEmbed(r) => StartActionView::RunEmbed(r@),
            StartAction::Report(b) => StartActionView::Report(*b),
        }
    }
}

/// One step of a daemon start: make sure the profile exists, then start the
/// daemon with auto-exit disabled; the result is that of the start. The
/// profile step's outcome is not looked at.
pub open spec fn start_step(state: DaemonStart, last_run_ok: bool) -> (DaemonStart, StartActionView) {
    match state {
        DaemonStart::Begin => (
            DaemonStart::CreatingProfile,
            StartActionView::RunEmbed(profile_request()),
        ),
        DaemonStart::CreatingProfile => (
            DaemonStart::StartingDaemon,
            StartActionView::RunEmbed(start_request()),
        ),
        DaemonStart::StartingDaemon => (
            DaemonStart::Finished(last_run_ok),
            StartActionView::Report(last_run_ok),
        ),
        DaemonStart::Finished(ok) => (DaemonStart::Finished(ok), StartActionView::Report(ok)),
    }
}

/// Starts the daemon with auto-exit disabled: given where the start stands and
/// whether the last command it asked for exited successfully (ignored before
/// any), the next state and what to do. The first run can take minutes while
/// `uvx` fetches the API and loads models, so the caller runs the commands off
/// any UI thread.
pub fn daemon_start(state: DaemonStart, last_run_ok: bool) -> (r: (DaemonStart, StartAction))
    ensures
        (r.0, r.1@) == start_step(state, last_run_ok),
{
    match state {
        DaemonStart::Begin => (DaemonStart::CreatingProfile, StartAction::RunEmbed(ensure_profile())),
        DaemonStart::CreatingProfile => (
            DaemonStart::StartingDaemon,
            StartAction::RunEmbed(daemon_start_request()),
        ),
        DaemonStart::StartingDaemon => (
            DaemonStart::Finished(last_run_ok),
            StartAction::Report(last_run_ok),
        ),
        DaemonStart::Finished(ok) => (DaemonStart::Finished(ok), StartAction::Report(ok)),
    }
}

/// Driven from the start with the outcome of each run fed back, a daemon start
/// runs exactly two commands, the profile creation and then the always-on
/// start, and reports the start's outcome, whatever the profile's was; once
/// over, it stays over with the same report.
pub proof fn lemma_daemon_start_runs(ignored: bool, profile_ok: bool, start_ok: bool, later: bool)
    ensures
        ({
            let (s1, a1) = start_step(DaemonStart::Begin, ignored);
            let (s2, a2) = start_step(s1, profile_ok);
            let (s3, a3) = start_step(s2, start_ok);
            &&& a1 == StartActionView::RunEmbed(profile_request())
            &&& a2 == StartActionView::RunEmbed(start_request())
            &&& a3 == StartActionView::Report(start_ok)
            &&& s3 == DaemonStart::Finished(start_ok)
            &&& start_step(s3, later) == (s3, StartActionView::Report(start_ok))
        }),
{
}

// ---------------------------------------------------------------------------
// Control center
// ---------------------------------------------------------------------------

/// The control-center port for the value of [`CONTROL_PORT_VAR`] (`None` when
/// unset or not Unicode): that value when it reads as a `u16` of at least
/// 1024, [`CONTROL_PORT_DEFAULT`] otherwise.
pub open spec fn control_port_of(var: Option<Seq<char>>) -> u16 {
    match var {
        Some(v) => match parsed_u16(v) {
            Some(p) => if p >= 1024 {
                p
            } else {
                CONTROL_PORT_DEFAULT
            },
            None => CONTROL_PORT_DEFAULT,
        },
        None => CONTROL_PORT_DEFAULT,
    }
}

/// The control-center port, from the value of [`CONTROL_PORT_VAR`].
pub fn control_port(var: &Option<String>) -> (r: u16)
    ensures
        r == control_port_of(var.deep_view()),
        r >= 1024,
{
    match var {
        Some(v) => match parse_u16(v.as_str()) {
            Some(p) => if p >= 1024 {
                p
            } else {
                CONTROL_PORT_DEFAULT
            },
            None => CONTROL_PORT_DEFAULT,
        },
        None => CONTROL_PORT_DEFAULT,
    }
}

/// A port of at least 1024 written in decimal into [`CONTROL_PORT_VAR`] is the
/// port used; a lower port, an empty value, a value with a character that is
/// not a digit (past one leading `+`), or the variable unset gives the default.
pub proof fn lemma_control_port_override(p: u16, v: Seq<char>)
    ensures
        p >= 1024 ==> control_port_of(Some(decimal(p as nat))) == p,
        p < 1024 ==> control_port_of(Some(decimal(p as nat))) == CONTROL_PORT_DEFAULT,
        (v.len() == 0 || exists|k: int|
            0 <= k < v.len() && !is_digit(#[trigger] v[k]) && !(k == 0 && v[k] == '+'))
            ==> control_port_of(Some(v)) == CONTROL_PORT_DEFAULT,
        control_port_of(None) == CONTROL_PORT_DEFAULT,
{
    lemma_parse_decimal(p);
    if exists|k: int| 0 <= k < v.len() && !is_digit(#[trigger] v[k]) && !(k == 0 && v[k] == '+') {
        let k = choose|k: int| 0 <= k < v.len() && !is_digit(#[trigger] v[k]) && !(k == 0 && v[k]
            == '+');
        let d = unsigned_digits(v);
        if v.len() > 0 && v[0] == '+' {
            assert(d[k - 1] == v[k]);
        } else {
            assert(d[k] == v[k]);
        }
        assert(!all_digits(d));
    }
}

/// The access token for the contents of the control-center token file
/// (`None` when there is no home directory or the file cannot be read): the
/// contents without surrounding whitespace, unless nothing is left.
pub open spec fn control_token_of(contents: Option<Seq<char>>) -> Option<Seq<char>> {
    match contents {
        Some(c) => if trim(c).len() == 0 {
            None
        } else {
            Some(trim(c))
        },
        None => None,
    }
}

/// The control center's access token, from the token file's contents.
pub fn control_token(contents: &Option<String>) -> (r: Option<String>)
    ensures
        r.deep_view() == control_token_of(contents.deep_view()),
{
    match contents {
        Some(c) => {
            let t = trim_str(c.as_str());
            if t.as_str().is_empty() {
                None
            } else {
                Some(t)
            }
        },
        None => None,
    }
}

/// A control-center token is never empty, and neither starts nor ends with
/// whitespace.
pub proof fn lemma_control_token_trimmed(contents: Option<Seq<char>>)
    ensures
        control_token_of(contents) matches Some(t) ==> t.len() > 0 && !is_white_space(t[0])
            && !is_white_space(t.last()),
{
    if let Some(c) = contents {
        lemma_trim_ends(c);
    }
}

/// A token file holding a token between whitespace gives exactly that token,
/// whatever its length; a file of whitespace only, or no file, gives none.
pub proof fn lemma_control_token_read(before: Seq<char>, t: Seq<char>, after: Seq<char>)
    requires
        all_white(before),
        all_white(after),
        t.len() > 0,
        !is_white_space(t[0]),
        !is_white_space(t.last()),
    ensures
        control_token_of(Some(before + t + after)) == Some(t),
        all_white(before) ==> control_token_of(Some(before)) is None,
        control_token_of(None) is None,
{
    lemma_trim_surrounded(before, t, after);
    lemma_trim_all_white(before);
}

/// The control-center address deep-linked to [`PROFILE`], with the access
/// token when there is one.
pub open spec fn control_url_of(port: u16, token: Option<Seq<char>>) -> Seq<char> {
    match token {
        Some(t) => "http://localhost:"@ + decimal(port as nat) + "/?token="@ + t + "&profile="@
            + PROFILE@,
        None => "http://localhost:"@ + decimal(port as nat) + "/?profile="@ + PROFILE@,
    }
}

/// The tokenized, profile-scoped control-center address.
pub fn control_url(port: u16, token: &Option<String>) -> (r: String)
    ensures
        r@ == control_url_of(port, token.deep_view()),
{
    let mut r = String::from_str("http://localhost:");
    let digits = u16_decimal(port);
    r.append(digits.as_str());
    match token {
        Some(t) => {
            r.append("/?token=");
            r.append(t.as_str());
            r.append("&profile=");
        },
        None => {
            r.append("/?profile=");
        },
    }
    r.append(PROFILE);
    r
}

/// Where opening the control center stands.
#[derive(PartialEq, Eq, Structural, Clone, Copy, Debug)]
pub enum ControlCenter {
    /// Nothing done yet.
    Begin,
    /// The control-center server is being brought up.
    StartingServer,
    /// Waiting for the port setting and the token file.
    ReadingSettings,
    /// The address has been handed out to be opened.
    Opened,
}

/// What the caller reports back while opening the control center.
pub enum ControlEvent {
    /// Go on (to begin, or after the requested command ran, whatever its
    /// outcome).
    Proceed,
    /// The value of [`CONTROL_PORT_VAR`] and the contents of the token file
    /// `~/.hindsight/control.token` (`None` where there is none).
    Settings { port_var: Option<String>, token_file: Option<String> },
}

/// The mathematical content of a [`ControlEvent`].
pub enum ControlEventView {
    Proceed,
    Settings { port_var: Option<Seq<char>>, token_file: Option<Seq<char>> },
}

impl View for ControlEvent {
    type V = ControlEventView;

    open spec fn view(&self) -> ControlEventView {
        match self {
            ControlEvent::Proceed => ControlEventView::Proceed,
            ControlEvent::Settings { port_var, token_file } => ControlEventView::Settings {
                port_var: port_var.deep_view(),
                token_file: token_file.deep_view(),
            },
        }
    }
}

/// What the caller does next while opening the control center.
pub enum ControlAction {
    /// Run this request, then report [`ControlEvent::Proceed`].
    RunEmbed(EmbedRequest),
    /// Read the settings and report them.
    ReadSettings,
    /// Open this address in the browser.
    OpenUrl(String),
    /// Nothing more to do.
    Done,
}

/// The mathematical content of a [`ControlAction`].
pub enum ControlActionView {
    RunEmbed(EmbedRequestView),
    ReadSettings,
    OpenUrl(Seq<char>),
    Done,
}

impl View for ControlAction {
    type V = ControlActionView;

    open spec fn view(&self) -> ControlActionView {
        match self {
            ControlAction::RunEmbed(r) => ControlActionView::RunEmbed(r@),
            ControlAction::ReadSettings => ControlActionView::ReadSettings,
            ControlAction::OpenUrl(u) => ControlActionView::OpenUrl(u@),
            ControlAction::Done => ControlActionView::Done,
        }
    }
}

/// One step of opening the control center: bring the server up with
/// `control start --no-open` (it also makes the access token), then read the
/// port setting and the token, then open the profile-scoped address. The
/// server command's outcome is not looked at. While the settings are awaited,
/// any other report asks for them again.
pub open spec fn control_step(state: ControlCenter, event: ControlEventView) -> (
    ControlCenter,
    ControlActionView,
) {
    match state {
        ControlCenter::Begin => (
            ControlCenter::StartingServer,
            ControlActionView::RunEmbed(control_start_request()),
        ),
        ControlCenter::StartingServer => (
            ControlCenter::ReadingSettings,
            ControlActionView::ReadSettings,
        ),
        ControlCenter::ReadingSettings => match event {
            ControlEventView::Settings { port_var, token_file } => (
                ControlCenter::Opened,
                ControlActionView::OpenUrl(
                    control_url_of(control_port_of(port_var), control_token_of(token_file)),
                ),
            ),
            ControlEventView::Proceed => (
                ControlCenter::ReadingSettings,
                ControlActionView::ReadSettings,
            ),
        },
        ControlCenter::Opened => (ControlCenter::Opened, ControlActionView::Done),
    }
}

/// Opens the control center deep-linked to [`PROFILE`]: given where the
/// opening stands and what the caller reports, the next state and what to do.
/// The server is started without opening a browser, and the tokenized,
/// profile-scoped address is opened by the caller, since the CLI's own
/// browser opening does not know the profile.
pub fn open_control_center(state: ControlCenter, event: ControlEvent) -> (r: (
    ControlCenter,
    ControlAction,
))
    ensures
        (r.0, r.1@) == control_step(state, event@),
{
    match state {
        ControlCenter::Begin => (
            ControlCenter::StartingServer,
            ControlAction::RunEmbed(control_center_request()),
        ),
        ControlCenter::StartingServer => (ControlCenter::ReadingSettings, ControlAction::ReadSettings),
        ControlCenter::ReadingSettings => match event {
            ControlEvent::Settings { port_var, token_file } => {
                let port = control_port(&port_var);
                let token = control_token(&token_file);
                (ControlCenter::Opened, ControlAction::OpenUrl(control_url(port, &token)))
            },
            ControlEvent::Proceed => (ControlCenter::ReadingSettings, ControlAction::ReadSettings),
        },
        ControlCenter::Opened => (ControlCenter::Opened, ControlAction::Done),
    }
}

/// Driven from the start, opening the control center first brings the server
/// up, whatever that run's outcome, then asks for the settings, then opens
/// the profile-scoped address built from them, and then has nothing left to
/// do.
pub proof fn lemma_control_center_runs(
    first: ControlEventView,
    after_run: ControlEventView,
    port_var: Option<Seq<char>>,
    token_file: Option<Seq<char>>,
    later: ControlEventView,
)
    ensures
        ({
            let (s1, a1) = control_step(ControlCenter::Begin, first);
            let (s2, a2) = control_step(s1, after_run);
            let (s3, a3) = control_step(
                s2,
                ControlEventView::Settings { port_var, token_file },
            );
            &&& a1 == ControlActionView::RunEmbed(control_start_request())
            &&& a2 == ControlActionView::ReadSettings
            &&& a3 == ControlActionView::OpenUrl(
                control_url_of(control_port_of(port_var), control_token_of(token_file)),
            )
            &&& control_step(s3, later) == (ControlCenter::Opened, ControlActionView::Done)
        }),
{
}

/// Once the settings are read, the address opened carries the token from the
/// token file (the file's text between its surrounding whitespace) and the
/// app's profile, on the configured port.
pub proof fn lemma_control_center_opens_with_token(
    port_var: Option<Seq<char>>,
    before: Seq<char>,
    t: Seq<char>,
    after: Seq<char>,
)
    requires
        all_white(before),
        all_white(after),
        t.len() > 0,
        !is_white_space(t[0]),
        !is_white_space(t.last()),
    ensures
        control_step(
            ControlCenter::ReadingSettings,
            ControlEventView::Settings { port_var, token_file: Some(before + t + after) },
        ) == (
            ControlCenter::Opened,
            ControlActionView::OpenUrl(
                "http://localhost:"@ + decimal(control_port_of(port_var) as nat) + "/?token="@ + t
                    + "&profile="@ + "desktop"@,
            ),
        ),
{
    lemma_control_token_read(before, t, after);
}

// ---------------------------------------------------------------------------
// Locating hindsight-embed
// ---------------------------------------------------------------------------

/// A file-system path, under the home directory or absolute.
#[derive(Debug, PartialEq, Eq)]
pub enum PathSpec {
    /// This relative path joined onto the home directory.
    InHome(String),
    /// This absolute path.
    Absolute(String),
}

/// The mathematical content of a [`PathSpec`].
pub enum PathSpecView {
    InHome(Seq<char>),
    Absolute(Seq<char>),
}

impl View for PathSpec {
    type V = PathSpecView;

    open spec fn view(&self) -> PathSpecView {
        match self {
            PathSpec::InHome(p) => PathSpecView::InHome(p@),
            PathSpec::Absolute(p) => PathSpecView::Absolute(p@),
        }
    }
}

/// The views of a sequence of paths.
pub open spec fn path_views(paths: Seq<PathSpec>) -> Seq<PathSpecView> {
    paths.map_values(|p: PathSpec| p@)
}

/// Where an installed `hindsight-embed` may be, in the order they are tried:
/// the user's own install locations when there is a home directory, then
/// Homebrew's and `/usr/local`.
pub open spec fn bin_candidates(has_home: bool) -> Seq<PathSpecView> {
    let fixed = seq![
        PathSpecView::Absolute("/opt/homebrew/bin/hindsight-embed"@),
        PathSpecView::Absolute("/usr/local/bin/hindsight-embed"@),
    ];
    if has_home {
        seq![
            PathSpecView::InHome(".local/bin/hindsight-embed"@),
            PathSpecView::InHome(".pyenv/shims/hindsight-embed"@),
        ] + fixed
    } else {
        fixed
    }
}

/// The directories put before the inherited `PATH` of every child, so that
/// `uvx` and `npx` resolve even when the app was launched from Finder (which
/// gives it a bare `/usr/bin:/bin`).
pub open spec fn child_path_prefix(has_home: bool) -> Seq<PathSpecView> {
    let fixed = seq![
        PathSpecView::Absolute("/opt/homebrew/bin"@),
        PathSpecView::Absolute("/usr/local/bin"@),
        PathSpecView::Absolute("/usr/bin"@),
        PathSpecView::Absolute("/bin"@),
    ];
    if has_home {
        seq![
            PathSpecView::InHome(".local/bin"@),
            PathSpecView::InHome(".cargo/bin"@),
            PathSpecView::InHome(".pyenv/shims"@),
        ] + fixed
    } else {
        fixed
    }
}

/// The locations where an installed `hindsight-embed` is looked for, in order.
pub fn embed_bin_candidates(has_home: bool) -> (r: Vec<PathSpec>)
    ensures
        path_views(r@) == bin_candidates(has_home),
{
    let mut r: Vec<PathSpec> = Vec::new();
    if has_home {
        r.push(PathSpec::InHome(owned(".local/bin/hindsight-embed")));
        r.push(PathSpec::InHome(owned(".pyenv/shims/hindsight-embed")));
    }
    r.push(PathSpec::Absolute(owned("/opt/homebrew/bin/hindsight-embed")));
    r.push(PathSpec::Absolute(owned("/usr/local/bin/hindsight-embed")));
    assert(path_views(r@) =~= bin_candidates(has_home));
    r
}

/// The directories that children get before the inherited `PATH`, in order.
pub fn child_path_dirs(has_home: bool) -> (r: Vec<PathSpec>)
    ensures
        path_views(r@) == child_path_prefix(has_home),
{
    let mut r: Vec<PathSpec> = Vec::new();
    if has_home {
        r.push(PathSpec::InHome(owned(".local/bin")));
        r.push(PathSpec::InHome(owned(".cargo/bin")));
        r.push(PathSpec::InHome(owned(".pyenv/shims")));
    }
    r.push(PathSpec::Absolute(owned("/opt/homebrew/bin")));
    r.push(PathSpec::Absolute(owned("/usr/local/bin")));
    r.push(PathSpec::Absolute(owned("/usr/bin")));
    r.push(PathSpec::Absolute(owned("/bin")));
    assert(path_views(r@) =~= child_path_prefix(has_home));
    r
}

/// `i` is the first index of `s` that holds `true`.
pub open spec fn first_true(s: Seq<bool>, i: int) -> bool {
    0 <= i < s.len() && s[i] && forall|j: int| 0 <= j < i ==> !s[j]
}

/// The value of [`EMBED_BIN_VAR`] names a binary: it is set and not empty.
pub open spec fn names_bin(env_bin: Option<Seq<char>>) -> bool {
    env_bin matches Some(p) && p.len() > 0
}

/// Any non-empty value of [`EMBED_BIN_VAR`], whatever its characters, names
/// the binary to run; an empty or absent one does not.
pub proof fn lemma_override_names_bin(p: Seq<char>)
    ensures
        names_bin(Some(p)) <==> p.len() > 0,
        !names_bin(None),
{
}

/// Whether the value of [`EMBED_BIN_VAR`] names a binary, so that no
/// candidate needs to be looked for.
pub fn names_embed_bin(env_bin: &Option<String>) -> (r: bool)
    ensures
        r == names_bin(env_bin.deep_view()),
        r == (env_bin.deep_view() matches Some(p) && p.len() > 0),
{
    match env_bin {
        Some(p) => !p.as_str().is_empty(),
        None => false,
    }
}

/// The `hindsight-embed` to run, given the value of [`EMBED_BIN_VAR`] (`None`
/// when unset or not Unicode) and, for each of [`embed_bin_candidates`] in
/// order, whether it exists: the variable's path when it is not empty, else
/// the first existing candidate, else [`UVX`]. Only the candidates up to the
/// first existing one need to be looked at: `exists` may stop there.
pub fn resolved_embed_bin(env_bin: &Option<String>, exists: &Vec<bool>) -> (r: EmbedBin)
    ensures
        names_bin(env_bin.deep_view()) ==> r == EmbedBin::FromEnv,
        (env_bin.deep_view() matches Some(p) && p.len() > 0) ==> r == EmbedBin::FromEnv,
        (env_bin.deep_view() matches Some(p) && p.len() > 0) || r != EmbedBin::FromEnv,
        !names_bin(env_bin.deep_view()) ==> match r {
            EmbedBin::FromEnv => false,
            EmbedBin::Candidate(i) => first_true(exists@, i as int),
            EmbedBin::Uvx => forall|j: int| 0 <= j < exists@.len() ==> !exists@[j],
        },
{
    if let Some(p) = env_bin {
        if !p.as_str().is_empty() {
            return EmbedBin::FromEnv;
        }
    }
    let mut i: usize = 0;
    while i < exists.len()
        invariant
            i <= exists.len(),
            !names_bin(env_bin.deep_view()),
            forall|j: int| 0 <= j < i ==> !exists@[j],
        decreases exists.len() - i,
    {
        if exists[i] {
            return EmbedBin::Candidate(i);
        }
        i = i + 1;
    }
    EmbedBin::Uvx
}

} // verus!
