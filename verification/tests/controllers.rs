use songonsole::pad::{controllers_report, Found};

#[test]
fn no_reader_at_all_is_said_with_its_reason() {
    let lines = controllers_report(Some("no udev".to_string()), &Vec::new());
    assert_eq!(lines, vec!["No controller support at all: no udev".to_string()]);
}

#[test]
fn a_reader_that_found_nothing_says_where_to_look() {
    let lines = controllers_report(None, &Vec::new());
    assert_eq!(lines.len(), 9);
    assert_eq!(lines[0], "No controllers found.");
    assert_eq!(lines[1], "");
    assert_eq!(lines[8], "Look for one with:  ls /dev/input/js*");
}

#[test]
fn each_controller_found_is_described() {
    let found = vec![
        Found { name: "Pad One".to_string(), mapped: true, stick: true },
        Found { name: "Pad Two".to_string(), mapped: false, stick: false },
    ];
    let lines = controllers_report(None, &found);
    assert_eq!(
        lines,
        vec![
            "2 controllers found:",
            "",
            "  Pad One",
            "    buttons   named by SDL's mapping list",
            "    stick     read, and moves a bar by how far it is pushed",
            "",
            "  Pad Two",
            "    buttons   guessed from the driver's own numbering",
            "    stick     none reported; bars move by ten seconds a press",
        ]
    );
    let one = controllers_report(None, &found[..1].iter().map(|f| Found { name: f.name.clone(), mapped: f.mapped, stick: f.stick }).collect());
    assert_eq!(one[0], "1 controller found:");
}
