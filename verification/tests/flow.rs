use neoarch_installer::error::InstallerError;
use neoarch_installer::flow::{
    exit_question, leaves, partitioning_choice, partitioning_menu, stage_outcome, welcome, MenuOutcome,
    PartitioningKind, StageOutcome,
};

fn strs(v: &[&str]) -> Vec<String> {
    v.iter().map(|s| s.to_string()).collect()
}

#[test]
fn welcome_box() {
    let args = welcome();
    assert_eq!(args[1], "NeoArch Installer");
    assert_eq!(args[3], "--msgbox");
    assert_eq!(
        args[4],
        "\nWelcome to the NeoArch Installer.\n\nThis tool will help you:\n- set up partitions for your new system\n- install NeoArch Linux according to your config\n\nUse arrow keys to navigate, ENTER to select, TAB to switch buttons."
    );
}

#[test]
fn partitioning_menu_arguments() {
    assert_eq!(
        partitioning_menu(),
        strs(&[
            "--title",
            "Partitioning",
            "--clear",
            "--menu",
            "Choose the partitioning type",
            "17",
            "120",
            "2",
            "simple",
            "one drive, full drive usage (recommended)",
            "manual",
            "partition on your own using the shell (advanced)",
        ])
    );
    assert_eq!(
        exit_question(),
        strs(&["--title", "Exit Installer", "--clear", "--yesno", "Exit the NeoArch installer?", "40", "120"])
    );
}

#[test]
fn partitioning_choices() {
    assert!(matches!(
        partitioning_choice(Ok("simple".to_string())),
        MenuOutcome::Partition(PartitioningKind::Simple)
    ));
    assert!(matches!(
        partitioning_choice(Ok("manual".to_string())),
        MenuOutcome::Partition(PartitioningKind::Manual)
    ));
    assert!(matches!(partitioning_choice(Err(InstallerError::Cancelled)), MenuOutcome::ConfirmExit));
    assert!(matches!(
        partitioning_choice(Err(InstallerError::Dialog("x".to_string()))),
        MenuOutcome::Fail(InstallerError::Dialog(_))
    ));
}

#[test]
fn leaving() {
    assert!(leaves(Ok(true)));
    assert!(!leaves(Ok(false)));
    assert!(!leaves(Err(InstallerError::Dialog("broken".to_string()))));
}

#[test]
fn stage_outcomes() {
    assert!(matches!(stage_outcome(Ok(())), StageOutcome::Proceed));
    assert!(matches!(stage_outcome(Err(InstallerError::Cancelled)), StageOutcome::StartOver));
    assert!(matches!(stage_outcome(Err(InstallerError::NoDisks)), StageOutcome::Stop(InstallerError::NoDisks)));
    assert!(matches!(
        stage_outcome(Err(InstallerError::InstallError("$ x".to_string()))),
        StageOutcome::Stop(InstallerError::InstallError(_))
    ));
}
