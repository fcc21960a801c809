//! What the menu-bar item shows and does: the status line, the icon, whether
//! Start can be clicked, what a menu click asks for, and when the status
//! poll must repaint.
use vstd::prelude::*;

use crate::supervisor::DAEMON_PORT;
use crate::text::{decimal, digit_char, lemma_digit_char, u16_decimal};

verus! {

/// The three status icons.
#[derive(PartialEq, Eq, Structural, Clone, Copy, Debug)]
pub enum TrayIcon {
    /// Full logo: the daemon answers.
    Running,
    /// A start is under way.
    Starting,
    /// Dimmed: the daemon is down.
    Stopped,
}

/// What the tray shows for one state.
pub struct TrayView {
    pub label: String,
    pub icon: TrayIcon,
    pub start_enabled: bool,
}

/// The mathematical content of a [`TrayView`].
pub struct TrayViewView {
    pub label: Seq<char>,
    pub icon: TrayIcon,
    pub start_enabled: bool,
}

impl View for TrayView {
    type V = TrayViewView;

    open spec fn view(&self) -> TrayViewView {
        TrayViewView { label: self.label@, icon: self.icon, start_enabled: self.start_enabled }
    }
}

/// The status line: `● Hindsight — running (:8899)`, followed by
/// ` · API v<version>` when the version is known, while the daemon answers;
/// `◐ Hindsight — starting…` during a start; `○ Hindsight — stopped`
/// otherwise.
pub open spec fn status_label(up: bool, starting: bool, version: Option<Seq<char>>) -> Seq<char> {
    if up {
        "● Hindsight — running (:"@ + decimal(DAEMON_PORT as nat) + ")"@ + match version {
            Some(v) => " · API v"@ + v,
            None => Seq::empty(),
        }
    } else if starting {
        "◐ Hindsight — starting…"@
    } else {
        "○ Hindsight — stopped"@
    }
}

/// What the tray shows: the status line, the matching icon, and Start
/// enabled only while the daemon is neither up nor starting.
pub open spec fn tray_view_of(up: bool, starting: bool, version: Option<Seq<char>>) -> TrayViewView {
    TrayViewView {
        label: status_label(up, starting, version),
        icon: if up {
            TrayIcon::Running
        } else if starting {
            TrayIcon::Starting
        } else {
            TrayIcon::Stopped
        },
        start_enabled: !up && !starting,
    }
}

/// The tray's status line, icon and Start enablement for the given state.
pub fn render(up: bool, starting: bool, version: &Option<String>) -> (r: TrayView)
    ensures
        r@ == tray_view_of(up, starting, version.deep_view()),
{
    if up {
        let mut label = String::from_str("● Hindsight — running (:");
        let port = u16_decimal(DAEMON_PORT);
        label.append(port.as_str());
        label.append(")");
        let ghost head = label@;
        if let Some(v) = version {
            label.append(" · API v");
            label.append(v.as_str());
            assert(label@ =~= head + (" · API v"@ + v@));
        } else {
            assert(label@ =~= head + Seq::<char>::empty());
        }
        TrayView { label, icon: TrayIcon::Running, start_enabled: false }
    } else if starting {
        TrayView {
            label: String::from_str("◐ Hindsight — starting…"),
            icon: TrayIcon::Starting,
            start_enabled: false,
        }
    } else {
        TrayView {
            label: String::from_str("○ Hindsight — stopped"),
            icon: TrayIcon::Stopped,
            start_enabled: true,
        }
    }
}

/// What the tray shows at once when Start is clicked: a start under way, before
/// the daemon answers.
pub fn start_clicked_view() -> (r: TrayView)
    ensures
        r@ == tray_view_of(false, true, None),
{
    render(false, true, &None)
}

/// While the daemon answers, the tray shows it running on port 8899, with the
/// API version when known, under the running icon and with Start greyed out,
/// whether or not a start is still under way; otherwise Start can be clicked
/// exactly when no start is under way.
pub proof fn lemma_running_view(starting: bool, version: Option<Seq<char>>)
    ensures
        tray_view_of(true, starting, version).icon == TrayIcon::Running,
        tray_view_of(true, starting, version).label == "● Hindsight — running (:"@ + seq![
            '8',
            '8',
            '9',
            '9',
        ] + ")"@ + match version {
            Some(v) => " · API v"@ + v,
            None => Seq::<char>::empty(),
        },
        !tray_view_of(true, starting, version).start_enabled,
        tray_view_of(false, starting, version).start_enabled == !starting,
        tray_view_of(false, starting, version).icon != TrayIcon::Running,
        starting ==> tray_view_of(false, starting, version).label == "◐ Hindsight — starting…"@
            && tray_view_of(false, starting, version).icon == TrayIcon::Starting,
        !starting ==> tray_view_of(false, starting, version).label == "○ Hindsight — stopped"@
            && tray_view_of(false, starting, version).icon == TrayIcon::Stopped,
{
    lemma_digit_char(8);
    lemma_digit_char(9);
    assert(digit_char(8) == '8');
    assert(digit_char(9) == '9');
    assert(decimal(8) == seq!['8']);
    assert(decimal(88) == seq!['8', '8']);
    assert(decimal(889) == seq!['8', '8', '9']);
    assert(decimal(8899) == seq!['8', '8', '9', '9']);
}

/// The status line while the app quits.
pub open spec fn shutting_down() -> Seq<char> {
    "○ Hindsight — shutting down…"@
}

/// The status line shown while the app quits (the daemon keeps running).
pub fn shutting_down_label() -> (r: String)
    ensures
        r@ == shutting_down(),
{
    String::from_str("○ Hindsight — shutting down…")
}

/// What a menu click asks for.
#[derive(PartialEq, Eq, Structural, Clone, Copy, Debug)]
pub enum MenuCommand {
    /// Show the start under way at once, then start the daemon off the menu
    /// thread.
    Start,
    /// Open the control center off the menu thread.
    OpenControlCenter,
    /// Quit the menu-bar app only.
    Quit,
    /// Not an item that does anything.
    Ignore,
}

/// The command of the menu item with identifier `id`.
pub open spec fn menu_command_of(id: Seq<char>) -> MenuCommand {
    if id == "start"@ {
        MenuCommand::Start
    } else if id == "control"@ {
        MenuCommand::OpenControlCenter
    } else if id == "quit"@ {
        MenuCommand::Quit
    } else {
        MenuCommand::Ignore
    }
}

/// What the click on the menu item `id` asks for.
pub fn on_menu_event(id: &str) -> (r: MenuCommand)
    ensures
        r == menu_command_of(id@),
{
    let id = String::from_str(id);
    if id == String::from_str("start") {
        MenuCommand::Start
    } else if id == String::from_str("control") {
        MenuCommand::OpenControlCenter
    } else if id == String::from_str("quit") {
        MenuCommand::Quit
    } else {
        MenuCommand::Ignore
    }
}

/// The state the status poll observes.
pub struct TrayState {
    pub up: bool,
    pub starting: bool,
    pub version: Option<String>,
}

/// The mathematical content of a [`TrayState`].
pub struct TrayStateView {
    pub up: bool,
    pub starting: bool,
    pub version: Option<Seq<char>>,
}

impl View for TrayState {
    type V = TrayStateView;

    open spec fn view(&self) -> TrayStateView {
        TrayStateView { up: self.up, starting: self.starting, version: self.version.deep_view() }
    }
}

/// Whether the status poll asks the daemon for its API version: only while the
/// daemon is up.
pub fn needs_version(up: bool) -> (r: bool)
    ensures
        r == up,
{
    up
}

impl TrayState {
    /// The state observed by one poll; a version is kept only while the daemon
    /// is up.
    pub fn observed(up: bool, starting: bool, version: Option<String>) -> (r: TrayState)
        ensures
            r@ == (TrayStateView {
                up,
                starting,
                version: if up {
                    version.deep_view()
                } else {
                    None
                },
            }),
    {
        TrayState { up, starting, version: if up { version } else { None } }
    }
}

/// Remembers the last state the status poll painted.
pub struct StatusMonitor {
    pub last: Option<TrayState>,
}

impl StatusMonitor {
    /// The state last painted, if any.
    pub open spec fn last_view(&self) -> Option<TrayStateView> {
        match self.last {
            Some(s) => Some(s@),
            None => None,
        }
    }

    /// A monitor that has painted nothing yet.
    pub fn new() -> (r: StatusMonitor)
        ensures
            r.last_view() is None,
    {
        StatusMonitor { last: None }
    }

    /// Records the state observed by one poll and says whether the tray must
    /// be repainted: exactly when it differs from the state last painted.
    pub fn observe(&mut self, state: TrayState) -> (repaint: bool)
        ensures
            repaint == (old(self).last_view() != Some(state@)),
            final(self).last_view() == Some(state@),
    {
        let same = match &self.last {
            Some(last) => last.up == state.up && last.starting == state.starting && match (
                &last.version,
                &state.version,
            ) {
                (Some(a), Some(b)) => *a == *b,
                (None, None) => true,
                _ => false,
            },
            None => false,
        };
        self.last = Some(state);
        !same
    }
}

} // verus!
