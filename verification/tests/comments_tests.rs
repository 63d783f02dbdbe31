use cesty::comments::CommentVariant;
use cesty::comments::SourceContext;
use cesty::comments::comment_slices;
use cesty::comments::config_lines;
use cesty::comments::join_contents;
use cesty::comments::nth_line;
use cesty::error::Alert;
use cesty::error::AlertExample;

fn ctx(line: usize) -> SourceContext {
    SourceContext {
        filename: "sample.c".to_owned(),
        file_text: b"int f() { return 0; }\n".to_vec(),
        line,
        column: 4,
    }
}

#[test]
fn slices_of_a_single_line_run() {
    let slices = comment_slices(&b"// a\n// b".to_vec(), &ctx(3)).unwrap();
    assert_eq!(slices.len(), 1);
    assert_eq!(slices[0].text, b"// a\n// b".to_vec());
    assert!(matches!(slices[0].variant, CommentVariant::Singleline));
}

#[test]
fn slices_of_mixed_variants() {
    let slices = comment_slices(&b"/* a */\n// b".to_vec(), &ctx(3)).unwrap();
    assert_eq!(slices.len(), 2);
    assert_eq!(slices[0].text, b"/* a */".to_vec());
    assert!(matches!(slices[0].variant, CommentVariant::Multiline));
    assert_eq!(slices[1].text, b"// b".to_vec());
    assert!(matches!(slices[1].variant, CommentVariant::Singleline));
}

#[test]
fn one_line_comment_yields_one_config_line() {
    let lines = config_lines(&b"// settings.run = false".to_vec(), &ctx(2)).unwrap();
    assert_eq!(lines.len(), 1);
    assert_eq!(lines[0].content, b"settings.run = false".to_vec());
    assert_eq!(lines[0].original, b"// settings.run = false".to_vec());
    assert_eq!(lines[0].line, 1);
    assert_eq!(lines[0].column, 3);
}

#[test]
fn block_and_line_comments_share_one_position_map() {
    let text = b"/* [settings]\nrun = false */\n// stdout = true".to_vec();
    let lines = config_lines(&text, &ctx(4)).unwrap();
    assert_eq!(lines.len(), 3);
    assert_eq!(lines[0].content, b"[settings]".to_vec());
    assert_eq!(lines[0].line, 1);
    assert_eq!(lines[0].column, 1);
    assert_eq!(lines[1].content, b"run = false ".to_vec());
    assert_eq!(lines[1].line, 2);
    assert_eq!(lines[1].column, 0);
    assert_eq!(lines[2].content, b"stdout = true".to_vec());
    assert_eq!(lines[2].line, 3);
    assert_eq!(lines[2].column, 3);
}

#[test]
fn missing_closing_delimiter_is_an_error_at_the_declaration() {
    let err = config_lines(&b"/* settings.run = false".to_vec(), &ctx(7)).unwrap_err();
    match err {
        Alert::Error(info) => {
            assert_eq!(
                info.description,
                "multiline comment is missing closing delimiter `*/`"
            );
            let Some(AlertExample::Code(code)) = info.example else {
                panic!("expected code evidence");
            };
            assert_eq!(code.line, 7);
            assert_eq!(code.fix.len(), 1);
            assert!(code.fix[0].comment.contains("`*/`"));
        }
        Alert::Warning(_) => panic!("expected an error"),
    }
}

#[test]
fn unrecognized_comment_form_lists_the_variants() {
    let err = config_lines(&b"what is this".to_vec(), &ctx(3)).unwrap_err();
    match err {
        Alert::Error(info) => {
            assert_eq!(info.description, "parsing multiple comment variants failed");
            assert_eq!(info.note.len(), 3);
            assert_eq!(info.note[0], "supported comment variants are:");
            assert_eq!(info.note[1], "CommentVariant::Singleline with mark `//`");
            assert_eq!(
                info.note[2],
                "CommentVariant::Multiline with opening delimiter `/*` and closing delimiter `*/`"
            );
        }
        Alert::Warning(_) => panic!("expected an error"),
    }
}

#[test]
fn a_line_that_loses_its_marker_is_invalid() {
    let err = config_lines(&b"// a\n\n// b".to_vec(), &ctx(5)).unwrap_err();
    match err {
        Alert::Error(info) => {
            assert_eq!(info.description, "invalid comment");
            assert_eq!(info.note.len(), 1);
            assert_eq!(
                info.note[0],
                "Expected a line to start with // for CommentVariant::Singleline"
            );
        }
        Alert::Warning(_) => panic!("expected an error"),
    }
}

#[test]
fn separator_lines_of_repeated_markers_are_skipped() {
    let lines = config_lines(&b"/////\n// run = true\n//".to_vec(), &ctx(4)).unwrap();
    assert_eq!(lines.len(), 1);
    assert_eq!(lines[0].content, b"run = true".to_vec());
    assert_eq!(lines[0].line, 2);
}

#[test]
fn stripping_round_trips_through_the_marker() {
    let original = config_lines(&b"//   hello".to_vec(), &ctx(2)).unwrap();
    assert_eq!(original.len(), 1);
    assert_eq!(original[0].content, b"hello".to_vec());
    let mut rebuilt: Vec<u8> = b"// ".to_vec();
    rebuilt.extend_from_slice(&original[0].content);
    let again = config_lines(&rebuilt, &ctx(2)).unwrap();
    assert_eq!(again.len(), 1);
    assert_eq!(again[0].content, original[0].content);
    assert_eq!(
        String::from_utf8_lossy(&again[0].content).trim(),
        String::from_utf8_lossy(&original[0].content).trim()
    );
}

#[test]
fn joined_contents_use_single_line_feeds() {
    let lines = config_lines(&b"// a = 1\n// b = 2".to_vec(), &ctx(3)).unwrap();
    let joined = join_contents(&lines);
    assert_eq!(joined, b"a = 1\nb = 2".to_vec());
}

#[test]
fn nth_line_picks_by_index() {
    assert_eq!(nth_line(b"a\nbb\nccc", 1), b"bb".to_vec());
    assert_eq!(nth_line(b"a\r\nbb", 0), b"a".to_vec());
    assert_eq!(nth_line(b"a\nbb", 9), Vec::<u8>::new());
}
