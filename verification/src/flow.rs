//! The decisions of the installer's main dialog: which partitioning to run,
//! when to ask whether to leave, and when to start over.

use vstd::prelude::*;
use vstd::string::*;

use crate::error::InstallerError;
use crate::text::{owned, str_eq};
use crate::ui::{self, box_args, menu_args};

verus! {

/// The text of the welcome box.
pub open spec fn welcome_text() -> Seq<char> {
    "\nWelcome to the NeoArch Installer.\n\nThis tool will help you:\n- set up partitions for your new system\n- install NeoArch Linux according to your config\n\nUse arrow keys to navigate, ENTER to select, TAB to switch buttons."@
}

/// The entries of the partitioning menu.
pub open spec fn partitioning_items() -> Seq<(Seq<char>, Seq<char>)> {
    seq![
        ("simple"@, "one drive, full drive usage (recommended)"@),
        ("manual"@, "partition on your own using the shell (advanced)"@),
    ]
}

/// The box that greets the user.
pub fn welcome() -> (res: Vec<String>)
    ensures
        res.deep_view() == box_args("NeoArch Installer"@, "--msgbox"@, welcome_text()),
{
    ui::msgbox(
        "NeoArch Installer",
        "\nWelcome to the NeoArch Installer.\n\nThis tool will help you:\n- set up partitions for your new system\n- install NeoArch Linux according to your config\n\nUse arrow keys to navigate, ENTER to select, TAB to switch buttons.",
    )
}

/// The menu in which the user chooses how to partition.
pub fn partitioning_menu() -> (res: Vec<String>)
    ensures
        res.deep_view() == menu_args(
            "Partitioning"@,
            "Choose the partitioning type"@,
            partitioning_items(),
        ),
{
    let items = vec![
        (owned("simple"), owned("one drive, full drive usage (recommended)")),
        (owned("manual"), owned("partition on your own using the shell (advanced)")),
    ];
    assert(items.deep_view() =~~= partitioning_items());
    ui::menu("Partitioning", "Choose the partitioning type", &items)
}

/// The question asked when the user backs out of the partitioning menu.
pub fn exit_question() -> (res: Vec<String>)
    ensures
        res.deep_view() == box_args("Exit Installer"@, "--yesno"@, "Exit the NeoArch installer?"@),
{
    ui::yesno("Exit Installer", "Exit the NeoArch installer?")
}

/// The ways to partition.
#[derive(Debug, Clone, Copy, PartialEq, Eq, Structural)]
pub enum PartitioningKind {
    /// One whole disk, with the standard layout.
    Simple,
    /// By hand, in a shell.
    Manual,
}

/// What follows the answer of the partitioning menu.
pub enum MenuOutcome {
    /// Run this partitioning.
    Partition(PartitioningKind),
    /// Ask whether to leave the installer.
    ConfirmExit,
    /// Stop with this error.
    Fail(InstallerError),
}

/// Reads the answer of the partitioning menu: a choice runs that
/// partitioning, backing out asks whether to leave, anything else stops.
pub fn partitioning_choice(reply: Result<String, InstallerError>) -> (res: MenuOutcome)
    requires
        reply matches Ok(s) ==> s@ == "simple"@ || s@ == "manual"@,
    ensures
        match reply {
            Ok(s) => if s@ == "simple"@ {
                res == MenuOutcome::Partition(PartitioningKind::Simple)
            } else {
                res == MenuOutcome::Partition(PartitioningKind::Manual)
            },
            Err(InstallerError::Cancelled) => res is ConfirmExit,
            Err(e) => res == MenuOutcome::Fail(e),
        },
{
    match reply {
        Ok(s) => {
            if str_eq(s.as_str(), "simple") {
                MenuOutcome::Partition(PartitioningKind::Simple)
            } else {
                MenuOutcome::Partition(PartitioningKind::Manual)
            }
        },
        Err(InstallerError::Cancelled) => MenuOutcome::ConfirmExit,
        Err(e) => MenuOutcome::Fail(e),
    }
}

/// Whether the user leaves, given the answer to the exit question; a box
/// that could not be shown counts as a no.
pub fn leaves(answer: Result<bool, InstallerError>) -> (res: bool)
    ensures
        res == (answer matches Ok(b) && b),
{
    match answer {
        Ok(b) => b,
        Err(_) => false,
    }
}

/// What follows the end of the partitioning or of the installation.
pub enum StageOutcome {
    /// Go on.
    Proceed,
    /// The user backed out: start over from the partitioning menu.
    StartOver,
    /// Stop with this error.
    Stop(InstallerError),
}

/// Reads how a stage ended: success goes on, backing out starts over,
/// any other error stops the installer.
pub fn stage_outcome(result: Result<(), InstallerError>) -> (res: StageOutcome)
    ensures
        match result {
            Ok(()) => res is Proceed,
            Err(InstallerError::Cancelled) => res is StartOver,
            Err(e) => res == StageOutcome::Stop(e),
        },
{
    match result {
        Ok(()) => StageOutcome::Proceed,
        Err(InstallerError::Cancelled) => StageOutcome::StartOver,
        Err(e) => StageOutcome::Stop(e),
    }
}

} // verus!
