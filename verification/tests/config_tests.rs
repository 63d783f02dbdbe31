use cesty::comments::ConfigLine;
use cesty::config::Config;
use cesty::config::DocumentOutcome;
use cesty::config::config_from_outcome;
use cesty::config::settings_bool_init;
use cesty::error::Alert;
use cesty::error::AlertExample;

fn line(content: &str, original: &str, line: usize, column: usize) -> ConfigLine {
    ConfigLine {
        content: content.as_bytes().to_vec(),
        original: original.as_bytes().to_vec(),
        line,
        column,
    }
}

#[test]
fn defaults_run_the_test_quietly() {
    let c = Config::default();
    assert!(c.settings.run);
    assert!(!c.settings.stdout);
    assert!(!c.settings.stdin);
    assert!(c.compiler.name.is_none());
    assert!(c.compiler.flags.is_empty());
    assert!(c.compiler.libraries.is_empty());
    assert!(c.compiler.append.is_none());
    assert!(c.compiler.replace.is_none());
    assert!(c.commands.is_empty());
    assert!(!settings_bool_init());
}

#[test]
fn a_parsed_document_passes_through() {
    let mut c = Config::default();
    c.settings.run = false;
    let lines = vec![line("settings.run = false", "// settings.run = false", 1, 3)];
    let got = config_from_outcome(&lines, "f.c".to_owned(), DocumentOutcome::Parsed(c)).unwrap();
    assert!(!got.settings.run);
}

#[test]
fn a_span_is_remapped_to_the_original_file() {
    let lines = vec![
        line("ab", "// ab", 10, 3),
        line("cd", "// cd", 11, 3),
    ];
    let err = config_from_outcome(
        &lines,
        "f.c".to_owned(),
        DocumentOutcome::ParseError {
            message: " bad \n msg ".to_owned(),
            span_start: Some(4),
        },
    )
    .unwrap_err();
    match err {
        Alert::Error(info) => {
            assert_eq!(
                info.description,
                "failed to parse TOML from comment into a Config type."
            );
            assert!(info.note.is_empty());
            let Some(AlertExample::Code(code)) = info.example else {
                panic!("expected code evidence");
            };
            assert_eq!(code.line, 11);
            assert_eq!(code.file, "f.c");
            assert_eq!(code.code, b"// cd".to_vec());
            assert_eq!(code.fix.len(), 1);
            assert_eq!(code.fix[0].relative_line, 0);
            assert_eq!(code.fix[0].column, 4);
            assert_eq!(code.fix[0].comment, "bad   msg on line 11, column 4.");
        }
        Alert::Warning(_) => panic!("expected an error"),
    }
}

#[test]
fn no_span_keeps_the_message_in_a_note() {
    let lines = vec![line("x", "// x", 1, 3)];
    let err = config_from_outcome(
        &lines,
        "f.c".to_owned(),
        DocumentOutcome::ParseError { message: "broken\ndocument".to_owned(), span_start: None },
    )
    .unwrap_err();
    match err {
        Alert::Error(info) => {
            assert!(info.example.is_none());
            assert_eq!(info.note.len(), 2);
            assert_eq!(
                info.note[0],
                "no error span was recovered, here is the error message:"
            );
            assert_eq!(info.note[1], "broken document");
        }
        Alert::Warning(_) => panic!("expected an error"),
    }
}

#[test]
fn a_span_at_the_document_start_falls_back_to_a_note() {
    let lines = vec![line("x", "// x", 1, 3)];
    let err = config_from_outcome(
        &lines,
        "f.c".to_owned(),
        DocumentOutcome::ParseError { message: "m".to_owned(), span_start: Some(0) },
    )
    .unwrap_err();
    match err {
        Alert::Error(info) => {
            assert!(info.example.is_none());
            assert_eq!(info.note.len(), 2);
        }
        Alert::Warning(_) => panic!("expected an error"),
    }
}

#[test]
fn a_real_parser_rejection_is_located() {
    let lines = vec![
        line("run = false", "// run = false", 5, 3),
        line("run = ", "// run = ", 6, 3),
    ];
    let joined = cesty::comments::join_contents(&lines);
    let joined = String::from_utf8(joined).unwrap();
    let err = toml::from_str::<toml::Value>(&joined).unwrap_err();
    let outcome = DocumentOutcome::ParseError {
        message: err.message().to_owned(),
        span_start: err.span().map(|s| s.start),
    };
    let alert = config_from_outcome(&lines, "f.c".to_owned(), outcome).unwrap_err();
    match alert {
        Alert::Error(info) => {
            assert_eq!(
                info.description,
                "failed to parse TOML from comment into a Config type."
            );
            let Some(AlertExample::Code(code)) = info.example else {
                panic!("expected located evidence for a spanned toml error");
            };
            assert!(code.line == 5 || code.line == 6);
            assert!(code.fix[0].comment.contains(" on line "));
        }
        Alert::Warning(_) => panic!("expected an error"),
    }
}

#[test]
fn a_rejected_configuration_file_is_located_by_span() {
    let text = b"a = 1\nb =".to_vec();
    let alert = Alert::from_document_span(
        &text,
        "config.cesty.toml".to_owned(),
        "unable to parse '.toml' config file",
        &"msg".to_owned(),
        Some(8),
    );
    match alert {
        Alert::Error(info) => {
            assert_eq!(info.description, "unable to parse '.toml' config file");
            let Some(AlertExample::Code(code)) = info.example else {
                panic!("expected code evidence");
            };
            assert_eq!(code.line, 2);
            assert_eq!(code.code, text);
            assert_eq!(code.fix[0].relative_line, 1);
            assert_eq!(code.fix[0].column, 2);
            assert_eq!(code.fix[0].comment, "msg on line 2, column 2.");
        }
        Alert::Warning(_) => panic!("expected an error"),
    }
}

#[test]
fn a_rejected_configuration_file_without_span_keeps_a_note() {
    let text = b"a = 1".to_vec();
    let alert = Alert::from_document_span(
        &text,
        "config.cesty.toml".to_owned(),
        "unable to parse '.toml' config file",
        &" odd \n failure ".to_owned(),
        None,
    );
    match alert {
        Alert::Error(info) => {
            assert!(info.example.is_none());
            assert_eq!(info.note.len(), 2);
            assert_eq!(info.note[1], "odd   failure");
        }
        Alert::Warning(_) => panic!("expected an error"),
    }
}

#[test]
fn a_parser_that_names_its_own_position_is_taken_at_its_word() {
    let text = b"recipes:\n  - nope".to_vec();
    let alert = Alert::from_located_message(
        &text,
        "config.cesty.yaml".to_owned(),
        "unable to parse '.yaml' config file",
        "bad list".to_owned(),
        2,
        3,
    );
    match alert {
        Alert::Error(info) => {
            let Some(AlertExample::Code(code)) = info.example else {
                panic!("expected code evidence");
            };
            assert_eq!(code.line, 2);
            assert_eq!(code.fix[0].relative_line, 1);
            assert_eq!(code.fix[0].column, 3);
            assert_eq!(code.fix[0].comment, "bad list");
        }
        Alert::Warning(_) => panic!("expected an error"),
    }
}
