use cesty::error::Alert;
use cesty::error::AlertCode;
use cesty::error::AlertCodeFix;
use cesty::error::AlertDebug;
use cesty::error::AlertExample;
use cesty::error::AlertInfo;
use cesty::error::get_spacing;
use cesty::error::spacing_from_string;
use cesty::error::spacing_to_string;

#[test]
fn error_printout() {
    let err = Alert::Error(AlertInfo {
        description: "Lorem ipsum dolor sit amet.".to_owned(),
        debug: vec![AlertDebug {
            line: 139,
            column: 20,
            file: "main.rs".to_owned(),
            function: "tests::error_printout".to_owned(),
        }],
        example: Some(AlertExample::Code(AlertCode {
            file: "config.yaml.cesty".to_owned(),
            line: 14,
            code: b"let lorem = error::Error::default();".to_vec(),
            fix: vec![
                AlertCodeFix {
                    relative_line: 0,
                    column: 6,
                    comment: "`lorem` is already taken, use something else.".to_owned(),
                },
                AlertCodeFix {
                    relative_line: 0,
                    column: 6,
                    comment: "`lorem` is already taken, use something else.".to_owned(),
                },
            ],
        })),
        note: vec!["heelo".to_owned(), "hi".to_owned()],
    });
    println!("+");
    println!("{}", String::from_utf8_lossy(&err.render()));
    println!("+");
}

#[test]
fn render_warning_without_evidence() {
    let w = Alert::Warning(AlertInfo {
        description: "oops".to_owned(),
        note: vec!["hey".to_owned()],
        example: None,
        debug: vec![],
    });
    let out = String::from_utf8(w.render()).unwrap();
    assert_eq!(out, "warning: oops\n   ?\n   = note: hey\n");
}

#[test]
fn render_error_with_evidence() {
    let e = Alert::Error(AlertInfo {
        description: "desc".to_owned(),
        note: vec![],
        example: Some(AlertExample::Code(AlertCode {
            line: 14,
            code: b"let x = 1;".to_vec(),
            file: "f.c".to_owned(),
            fix: vec![AlertCodeFix {
                relative_line: 0,
                column: 6,
                comment: "here".to_owned(),
            }],
        })),
        debug: vec![],
    });
    let out = String::from_utf8(e.render()).unwrap();
    assert_eq!(
        out,
        "error: desc\n   --> `f.c`:14\n    |\n 14 |    let x = 1;\n    |         ^ here\n    |\n"
    );
}

#[test]
fn render_snippet_out_of_bounds() {
    let e = Alert::Error(AlertInfo {
        description: "d".to_owned(),
        note: vec![],
        example: Some(AlertExample::Code(AlertCode {
            line: 1,
            code: b"one line".to_vec(),
            file: "f.c".to_owned(),
            fix: vec![AlertCodeFix {
                relative_line: 5,
                column: 0,
                comment: "c".to_owned(),
            }],
        })),
        debug: vec![],
    });
    let out = String::from_utf8(e.render()).unwrap();
    assert!(out.contains("{out of bounds}"));
}

#[test]
fn render_trace_when_attached() {
    let e = Alert::Error(AlertInfo {
        description: "d".to_owned(),
        note: vec![],
        example: None,
        debug: vec![AlertDebug {
            line: 3,
            column: 7,
            file: "walker.rs".to_owned(),
            function: "step".to_owned(),
        }],
    });
    let out = String::from_utf8(e.render()).unwrap();
    assert!(out.starts_with("Call stack trace:\n"));
    assert!(out.contains("       walker.rs => step[3:7].\n"));
}

#[test]
fn push_debug_appends_a_frame() {
    let a = Alert::default();
    let a = a.push_debug(AlertDebug {
        line: 1,
        column: 2,
        file: "a.rs".to_owned(),
        function: "f".to_owned(),
    });
    match a {
        Alert::Error(info) => {
            assert_eq!(info.debug.len(), 1);
            assert_eq!(info.debug[0].file, "a.rs");
        }
        Alert::Warning(_) => panic!("default alert must be an error"),
    }
}

#[test]
fn spacing_grows_with_line_numbers() {
    assert_eq!(get_spacing(7), 3);
    assert_eq!(get_spacing(14), 4);
    assert_eq!(get_spacing(100), 5);
}

#[test]
fn spacing_strings() {
    assert_eq!(spacing_to_string(4), b"    ".to_vec());
    assert_eq!(spacing_from_string(4, &b"hello world!".to_vec()), b"   ".to_vec());
    assert_eq!(spacing_from_string(4, &b"hel".to_vec()), b"   ".to_vec());
    assert_eq!(spacing_from_string(4, &b"he\tllo world!".to_vec()), b"  \t".to_vec());
}
