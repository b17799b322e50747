use reveal_viewer::formats::mime_list;
use reveal_viewer::associations::{
    desktop_entry, flatpak_registration, xdg_registration, CommandStatus, Error, Outcome,
};

const MIMES: [&str; 3] = ["image/png", "image/jpeg", "image/gif"];

#[test]
fn every_claimed_format_is_counted() {
    let st = vec![CommandStatus::Succeeded; 3];
    assert_eq!(
        xdg_registration(&MIMES, &st),
        Ok(Outcome { registered: 3, needs_user_action: None })
    );
}

#[test]
fn refused_formats_are_listed_for_the_user() {
    let st = vec![CommandStatus::Refused, CommandStatus::Succeeded, CommandStatus::Refused];
    assert_eq!(
        xdg_registration(&MIMES, &st),
        Ok(Outcome {
            registered: 1,
            needs_user_action: Some("Could not claim: image/png, image/gif.".to_string()),
        })
    );
}

#[test]
fn xdg_failures_become_errors() {
    let none = vec![CommandStatus::Refused; 3];
    assert_eq!(
        xdg_registration(&MIMES, &none),
        Err(Error::Failed("xdg-mime rejected every format.".to_string()))
    );
    let missing = vec![CommandStatus::Succeeded, CommandStatus::Missing];
    assert_eq!(
        xdg_registration(&MIMES, &missing),
        Err(Error::Failed("xdg-mime is not installed.".to_string()))
    );
    let io = vec![CommandStatus::Error("denied".to_string())];
    assert_eq!(xdg_registration(&MIMES, &io), Err(Error::Io("denied".to_string())));
    assert_eq!(Error::Io("denied".to_string()).message(), "denied");
    assert_eq!(
        Error::Unsupported.message(),
        "Setting defaults is not supported on this platform."
    );
}

#[test]
fn flatpak_counts_until_the_command_is_missing() {
    let st = vec![CommandStatus::Succeeded, CommandStatus::Missing, CommandStatus::Succeeded];
    assert_eq!(
        flatpak_registration(&st),
        Ok(Outcome { registered: 1, needs_user_action: None })
    );
    let none = vec![CommandStatus::Refused, CommandStatus::Refused];
    let r = flatpak_registration(&none).unwrap();
    assert_eq!(r.registered, 0);
    assert!(r.needs_user_action.unwrap().contains("Flatpak"));
    let io = vec![CommandStatus::Succeeded, CommandStatus::Error("boom".to_string())];
    assert_eq!(flatpak_registration(&io), Err(Error::Io("boom".to_string())));
}

#[test]
fn the_desktop_entry_lists_every_type() {
    let entry = desktop_entry("/usr/bin/reveal", &MIMES);
    assert_eq!(
        entry,
        "[Desktop Entry]\nType=Application\nName=Reveal\nExec=\"/usr/bin/reveal\" %f\nIcon=reveal\nTerminal=false\nCategories=Graphics;Viewer;\nMimeType=image/png;image/jpeg;image/gif;\n"
    );
}

#[test]
fn desktop_entry_mimes_match_the_format_table() {
    let mimes = mime_list();
    let entry = desktop_entry("/opt/reveal/reveal", &mimes);
    for mime in &mimes {
        assert!(entry.contains(&format!("{mime};")), "{mime} missing from the desktop entry");
    }
}
