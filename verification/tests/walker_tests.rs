use cesty::comments::config_lines;
use cesty::comments::SourceContext;
use cesty::config::Compiler;
use cesty::config::Config;
use cesty::config::DocumentOutcome;
use cesty::config::Settings;
use cesty::environment::Environment;
use cesty::error::Alert;
use cesty::error::AlertExample;
use cesty::extract::Function;
use cesty::extract::ParsedFile;
use cesty::extract::ParsedTest;
use cesty::extract::Range;
use cesty::walker::assemble;
use cesty::walker::name_class;
use cesty::walker::step;
use cesty::walker::FunctionFacts;
use cesty::walker::NameClass;
use cesty::walker::WalkState;

fn facts(text: &str, name: &str, nth: usize, line: usize) -> FunctionFacts {
    let needle = format!("int {}(", name);
    let mut at = 0usize;
    let mut template_start = 0usize;
    for _ in 0..=nth {
        template_start = text[at..].find(&needle).unwrap() + at;
        at = template_start + 1;
    }
    let body_start = text[template_start..].find('{').unwrap() + template_start;
    let body_end = text[template_start..].find('}').unwrap() + template_start + 1;
    FunctionFacts {
        name: name.to_owned(),
        returns: "int".to_owned(),
        args: vec![],
        template_start,
        body_start,
        body_end,
        line,
        column: 5,
    }
}

#[test]
fn names_classify_by_prefix_and_entry_point() {
    assert!(matches!(name_class("main"), NameClass::EntryPoint));
    assert!(matches!(name_class("cesty_sum_test"), NameClass::Test));
    assert!(matches!(name_class("cesty_"), NameClass::PrefixOnly));
    assert!(matches!(name_class("helper"), NameClass::Other));
    assert!(matches!(name_class("cesty"), NameClass::Other));
}

#[test]
fn a_file_without_qualifying_functions_yields_nothing() {
    let text = "int helper() { return 2; }\n";
    let mut st = WalkState::new("f.c".to_owned(), text.as_bytes().to_vec());
    step(&mut st, facts(text, "helper", 0, 1), None).unwrap();
    let (pf, warnings) = assemble(st, Some("f".to_owned())).unwrap();
    assert!(pf.test.is_empty());
    assert!(pf.main.is_none());
    assert!(warnings.is_empty());
    assert_eq!(pf.environment.full, text.as_bytes().to_vec());
    assert_eq!(pf.environment.mainless, text.as_bytes().to_vec());
    assert_eq!(pf.environment.templated, text.as_bytes().to_vec());
}

#[test]
fn one_entry_point_and_two_tests_synthesize_all_views() {
    let text = "int main() { return 0; }\nint cesty_a() { return 1; }\nint cesty_b() { return 1; }\n";
    let mut st = WalkState::new("f.c".to_owned(), text.as_bytes().to_vec());
    step(&mut st, facts(text, "main", 0, 1), None).unwrap();
    step(&mut st, facts(text, "cesty_a", 0, 2), None).unwrap();
    step(&mut st, facts(text, "cesty_b", 0, 3), None).unwrap();
    let (pf, warnings) = assemble(st, Some("f".to_owned())).unwrap();
    assert!(warnings.is_empty());
    assert_eq!(pf.test.len(), 2);
    assert!(pf.main.is_some());
    assert_eq!(pf.test[0].function.name, "cesty_a");
    assert_eq!(pf.test[0].function.name_slice, "a");
    assert_eq!(pf.test[1].function.name_slice, "b");
    assert_eq!(
        pf.environment.templated,
        b"\nint cesty_a() ;\nint cesty_b() ;\n".to_vec()
    );
    assert_eq!(
        pf.environment.mainless,
        b"\nint cesty_a() { return 1; }\nint cesty_b() { return 1; }\n".to_vec()
    );
    assert_eq!(pf.environment.full, text.as_bytes().to_vec());
}

#[test]
fn a_second_entry_point_cites_both_positions() {
    let text = "int main() {}\nx\nint main() {}\n";
    let mut st = WalkState::new("f.c".to_owned(), text.as_bytes().to_vec());
    step(&mut st, facts(text, "main", 0, 1), None).unwrap();
    let err = step(&mut st, facts(text, "main", 1, 3), None).unwrap_err();
    match err {
        Alert::Error(info) => {
            assert_eq!(info.description, "file contains multiple main() functions");
            let Some(AlertExample::Code(code)) = info.example else {
                panic!("expected code evidence");
            };
            assert_eq!(code.line, 3);
            assert_eq!(code.code, b"int main() {}".to_vec());
            assert_eq!(code.fix.len(), 1);
            assert_eq!(code.fix[0].column, 5);
            assert_eq!(
                code.fix[0].comment,
                "already encountered a main() on line 1, column 5"
            );
        }
        Alert::Warning(_) => panic!("expected an error"),
    }
}

#[test]
fn a_comment_block_configures_its_test_and_a_bare_prefix_is_skipped() {
    let text = "// settings.run = false\nint cesty_sum_test() { return 1; }\nint cesty_() { return 0; }\n";
    let ctx = SourceContext {
        filename: "f.c".to_owned(),
        file_text: text.as_bytes().to_vec(),
        line: 2,
        column: 5,
    };
    let lines = config_lines(&b"// settings.run = false".to_vec(), &ctx).unwrap();
    let joined = String::from_utf8(cesty::comments::join_contents(&lines)).unwrap();
    let value: toml::Value = toml::from_str(&joined).unwrap();
    let run = value
        .get("settings")
        .and_then(|s| s.get("run"))
        .and_then(|b| b.as_bool())
        .unwrap_or(true);
    let config = Config {
        settings: Settings { run, stdout: false, stdin: false },
        compiler: Compiler::default(),
        commands: vec![],
    };
    let mut st = WalkState::new("f.c".to_owned(), text.as_bytes().to_vec());
    step(
        &mut st,
        facts(text, "cesty_sum_test", 0, 2),
        Some((lines, DocumentOutcome::Parsed(config))),
    )
    .unwrap();
    step(&mut st, facts(text, "cesty_", 0, 3), None).unwrap();
    let (pf, warnings) = assemble(st, Some("f".to_owned())).unwrap();
    assert_eq!(pf.test.len(), 1);
    assert!(!pf.test[0].config.settings.run);
    assert_eq!(warnings.len(), 1);
    match &warnings[0] {
        Alert::Warning(info) => {
            assert_eq!(
                info.description,
                "function only contains prefix part aka. `cesty_`"
            );
            assert_eq!(info.note[0], "due to having no name the test will be ignored");
            let Some(AlertExample::Code(code)) = &info.example else {
                panic!("expected code evidence");
            };
            assert_eq!(code.line, 3);
            assert_eq!(code.fix[0].column, 5 + 6);
            assert_eq!(
                code.fix[0].comment,
                "add a name for the test like `sum_test` or anything you like`"
            );
        }
        Alert::Error(_) => panic!("expected a warning"),
    }
}

#[test]
fn a_rejected_document_aborts_the_function() {
    let text = "// run =\nint cesty_x() { return 1; }\n";
    let ctx = SourceContext {
        filename: "f.c".to_owned(),
        file_text: text.as_bytes().to_vec(),
        line: 2,
        column: 5,
    };
    let lines = config_lines(&b"// run =".to_vec(), &ctx).unwrap();
    let joined = String::from_utf8(cesty::comments::join_contents(&lines)).unwrap();
    let err = toml::from_str::<toml::Value>(&joined).unwrap_err();
    let outcome = DocumentOutcome::ParseError {
        message: err.message().to_owned(),
        span_start: err.span().map(|s| s.start),
    };
    let mut st = WalkState::new("f.c".to_owned(), text.as_bytes().to_vec());
    let alert = step(&mut st, facts(text, "cesty_x", 0, 2), Some((lines, outcome))).unwrap_err();
    match alert {
        Alert::Error(info) => {
            assert_eq!(
                info.description,
                "failed to parse TOML from comment into a Config type."
            );
        }
        Alert::Warning(_) => panic!("expected an error"),
    }
}

#[test]
fn a_missing_file_stem_is_an_error() {
    let st = WalkState::new("f.c".to_owned(), b"".to_vec());
    let err = assemble(st, None).unwrap_err();
    match err {
        Alert::Error(info) => {
            assert_eq!(info.description, "failed to extract file stem from path");
            assert_eq!(info.note, vec!["path.file_stem() returned `None`".to_owned()]);
            assert!(info.example.is_none());
        }
        Alert::Warning(_) => panic!("expected an error"),
    }
}

#[test]
fn test_file_stems_join_stem_and_name_part() {
    let test = ParsedTest {
        config: Config::default(),
        function: Function {
            returns: "int".to_owned(),
            name: "cesty_sum".to_owned(),
            name_slice: "sum".to_owned(),
            args: vec![],
        },
        range: Range { template: (0, 0), body: (0, 0) },
    };
    let pf = ParsedFile {
        path: "dir/file.c".to_owned(),
        stem: "file".to_owned(),
        test: vec![],
        environment: Environment {
            full: vec![],
            mainless: vec![],
            templated: vec![],
        },
        main: None,
    };
    assert_eq!(test.get_test_file_stem(&pf), "file_sum");
}

#[test]
fn compilable_sources_wrap_the_mainless_view() {
    let test = ParsedTest {
        config: Config::default(),
        function: Function {
            returns: "int".to_owned(),
            name: "cesty_sum".to_owned(),
            name_slice: "sum".to_owned(),
            args: vec![],
        },
        range: Range { template: (0, 0), body: (0, 0) },
    };
    let pf = ParsedFile {
        path: "f.c".to_owned(),
        stem: "f".to_owned(),
        test: vec![],
        environment: Environment {
            full: b"int cesty_sum() { return 1; }\n".to_vec(),
            mainless: b"int cesty_sum() { return 1; }\n".to_vec(),
            templated: b"int cesty_sum() ;\n".to_vec(),
        },
        main: None,
    };
    let source = cesty::compilable::create_compilable_test(&test, &pf);
    assert_eq!(
        String::from_utf8(source).unwrap(),
        "int cesty_sum() { return 1; }\n\n\nint main() {\n\n    return cesty_sum() == true ? 0 : 1;\n\n}\n"
    );
}
