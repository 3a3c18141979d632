use pes_savefile::model::names::display_name;

#[test]
fn colour_codes_strip_and_everything_else_stays() {
    assert_eq!(
        display_name("\x11cffb50effLORD \x11cfff17affFULP"),
        "LORD FULP"
    );
    assert_eq!(
        display_name("\x11cc9002bffPEP\x11cffffffffSI \x11c004b93ffMAN"),
        "PEPSI MAN"
    );
    assert_eq!(
        display_name("\x11c789922ff>99% Chance to hit.\x11d"),
        ">99% Chance to hit."
    );
    assert_eq!(
        display_name("WHEN THE \x11cb7bec5ffWORK RESULT\x11d WAS GOOD"),
        "WHEN THE WORK RESULT WAS GOOD"
    );
    assert_eq!(display_name("\x11ca000c8ONTriple T"), "Triple T");
    assert_eq!(
        display_name("\x11ca000c8ONeF\u{da}TBOL\u{2122}"),
        "eF\u{da}TBOL\u{2122}"
    );
    // A code shorter than eight bytes at the end is not a code.
    assert_eq!(display_name("\x11c12345"), "\x11c12345");
    assert_eq!(display_name("plain"), "plain");
    assert_eq!(display_name("\x11x?"), "\x11x?");
}

#[test]
fn a_code_that_would_split_a_char_stays() {
    // The eight bytes after `\x11c` end inside the two-byte `é`: not a code.
    let raw = "\x11c1234567\u{e9}x";
    assert_eq!(display_name(raw), raw);
    // A reset followed by a multi-byte char is still a reset.
    assert_eq!(display_name("a\x11d\u{e9}"), "a\u{e9}");
    assert_eq!(display_name(""), "");
}
