use neoarch_installer::error::InstallerError;
use neoarch_installer::ui::{inputbox, menu, msgbox, passwordbox, programbox, selection, yesno, yesno_answer};

fn strs(v: &[&str]) -> Vec<String> {
    v.iter().map(|s| s.to_string()).collect()
}

#[test]
fn msgbox_arguments() {
    assert_eq!(
        msgbox("Title", "Some text"),
        strs(&["--title", "Title", "--clear", "--msgbox", "Some text", "40", "120"])
    );
}

#[test]
fn yesno_arguments_and_answer() {
    assert_eq!(
        yesno("Proceed?", "Really?"),
        strs(&["--title", "Proceed?", "--clear", "--yesno", "Really?", "40", "120"])
    );
    assert!(yesno_answer(0));
    assert!(!yesno_answer(1));
    assert!(!yesno_answer(255));
    assert!(!yesno_answer(-1));
}

#[test]
fn menu_arguments_small() {
    let items = vec![("a".to_string(), "first".to_string()), ("b".to_string(), "second".to_string())];
    assert_eq!(
        menu("T", "P", &items),
        strs(&["--title", "T", "--clear", "--menu", "P", "17", "120", "2", "a", "first", "b", "second"])
    );
}

#[test]
fn menu_arguments_empty_and_large() {
    let none: Vec<(String, String)> = vec![];
    assert_eq!(menu("T", "P", &none), strs(&["--title", "T", "--clear", "--menu", "P", "15", "120", "0"]));
    let many: Vec<(String, String)> = (0..20).map(|i| (i.to_string(), format!("item {i}"))).collect();
    let args = menu("T", "P", &many);
    assert_eq!(args.len(), 8 + 40);
    assert_eq!(&args[5..8], &strs(&["30", "120", "15"])[..]);
    assert_eq!(args[8], "0");
    assert_eq!(args[47], "item 19");
    let fifteen: Vec<(String, String)> = (0..15).map(|i| (i.to_string(), String::new())).collect();
    assert_eq!(&menu("T", "P", &fifteen)[5..8], &strs(&["30", "120", "15"])[..]);
    let fourteen: Vec<(String, String)> = (0..14).map(|i| (i.to_string(), String::new())).collect();
    assert_eq!(&menu("T", "P", &fourteen)[5..8], &strs(&["29", "120", "14"])[..]);
}

#[test]
fn inputbox_and_passwordbox_arguments() {
    assert_eq!(
        inputbox("Host", "Hostname?", "neoarch"),
        strs(&["--title", "Host", "--clear", "--inputbox", "Hostname?", "40", "120", "neoarch"])
    );
    assert_eq!(
        passwordbox("Pw", "Enter"),
        strs(&["--title", "Pw", "--clear", "--insecure", "--passwordbox", "Enter", "10", "120"])
    );
    assert_eq!(
        programbox("Installing", "Running installation..."),
        strs(&["--title", "Installing", "--clear", "--programbox", "Running installation...", "20", "120"])
    );
}

#[test]
fn selection_reads_exit_status() {
    assert_eq!(selection(0, "  /dev/sda\n").unwrap(), "/dev/sda");
    assert_eq!(selection(0, "\t simple \u{3000}").unwrap(), "simple");
    assert_eq!(selection(0, "").unwrap(), "");
    assert!(matches!(selection(1, "x"), Err(InstallerError::Cancelled)));
    assert!(matches!(selection(255, ""), Err(InstallerError::Cancelled)));
    match selection(3, "") {
        Err(InstallerError::Dialog(msg)) => assert_eq!(msg, "dialog exited with code 3"),
        _ => panic!("expected a dialog error"),
    }
    match selection(-1, "") {
        Err(InstallerError::Dialog(msg)) => assert_eq!(msg, "dialog exited with code -1"),
        _ => panic!("expected a dialog error"),
    }
    match selection(i32::MIN, "") {
        Err(InstallerError::Dialog(msg)) => assert_eq!(msg, "dialog exited with code -2147483648"),
        _ => panic!("expected a dialog error"),
    }
}
