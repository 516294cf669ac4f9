//! The command line, parsed, and the action it selects.

use vstd::prelude::*;
use vstd::string::*;

verus! {

/// The parsed command line.
#[derive(Debug)]
pub struct Cli {
    pub command: Option<Command>,
}

/// A subcommand.
#[derive(Debug)]
pub enum Command {
    /// Capture a region of the screen.
    Region { no_edit: bool },
    /// Capture the full screen, or one monitor of it.
    Full { no_edit: bool, monitor: Option<u32> },
    /// Start in the system tray.
    Tray,
    /// Show or change the configuration.
    Config { show: bool, save_dir: Option<String> },
}

/// What the program is to do.
#[derive(Debug, Clone, PartialEq, Eq)]
pub enum AppAction {
    FullNoEdit { monitor: Option<u32> },
    FullEdit { monitor: Option<u32> },
    RegionNoEdit,
    RegionEdit,
    Tray,
    ShowConfig,
    SetSaveDir(String),
}

/// The action that the configured default names: `region` and `full` open
/// the editor on such a capture, anything else starts the tray.
pub open spec fn default_action_of(name: Seq<char>) -> AppAction {
    if name == "region"@ {
        AppAction::RegionEdit
    } else if name == "full"@ {
        AppAction::FullEdit { monitor: None }
    } else {
        AppAction::Tray
    }
}

/// The action that a command line selects. Without a subcommand it is the
/// configured default; the configuration subcommand sets the save
/// directory when it is given one and is not asked to show, and shows the
/// configuration otherwise.
pub open spec fn action_of(command: Option<Command>, default_action: Seq<char>) -> AppAction {
    match command {
        Some(Command::Full { no_edit, monitor }) => if no_edit {
            AppAction::FullNoEdit { monitor }
        } else {
            AppAction::FullEdit { monitor }
        },
        Some(Command::Region { no_edit }) => if no_edit {
            AppAction::RegionNoEdit
        } else {
            AppAction::RegionEdit
        },
        Some(Command::Tray) => AppAction::Tray,
        Some(Command::Config { show, save_dir }) => match save_dir {
            Some(dir) if !show => AppAction::SetSaveDir(dir),
            _ => AppAction::ShowConfig,
        },
        None => default_action_of(default_action),
    }
}

/// Whether two texts are the same.
fn same_text(a: &str, b: &str) -> (same: bool)
    ensures
        same == (a@ == b@),
{
    let left: String = a.to_owned();
    let right: String = b.to_owned();
    left == right
}

/// Selects the action for a command line; see [`action_of`].
pub fn select_action(cli: Cli, default_action: &str) -> (action: AppAction)
    ensures
        action == action_of(cli.command, default_action@),
{
    match cli.command {
        Some(Command::Full { no_edit, monitor }) => {
            if no_edit {
                AppAction::FullNoEdit { monitor }
            } else {
                AppAction::FullEdit { monitor }
            }
        },
        Some(Command::Region { no_edit }) => {
            if no_edit {
                AppAction::RegionNoEdit
            } else {
                AppAction::RegionEdit
            }
        },
        Some(Command::Tray) => AppAction::Tray,
        Some(Command::Config { show, save_dir }) => {
            if show {
                AppAction::ShowConfig
            } else {
                match save_dir {
                    Some(dir) => AppAction::SetSaveDir(dir),
                    None => AppAction::ShowConfig,
                }
            }
        },
        None => {
            if same_text(default_action, "region") {
                AppAction::RegionEdit
            } else if same_text(default_action, "full") {
                AppAction::FullEdit { monitor: None }
            } else {
                AppAction::Tray
            }
        },
    }
}

} // verus!
