use cesty::environment::CleanRange;
use cesty::environment::synthesize;

#[test]
fn a_body_range_becomes_one_statement_terminator() {
    let text = b"AAABBBCCC".to_vec();
    let clean = vec![CleanRange { start: 3, end: 6, is_entry: false }];
    let env = synthesize(&text, &clean, None);
    assert_eq!(env.full, b"AAABBBCCC".to_vec());
    assert_eq!(env.mainless, b"AAABBBCCC".to_vec());
    assert_eq!(env.templated, b"AAA;CCC".to_vec());
}

#[test]
fn the_entry_point_is_removed_outright() {
    let text = b"int main(){}rest".to_vec();
    let clean = vec![CleanRange { start: 0, end: 12, is_entry: true }];
    let env = synthesize(&text, &clean, Some((0, 12)));
    assert_eq!(env.full, b"int main(){}rest".to_vec());
    assert_eq!(env.mainless, b"rest".to_vec());
    assert_eq!(env.templated, b"rest".to_vec());
}

#[test]
fn ranges_apply_back_to_front_without_shifting() {
    let text = b"0123456789".to_vec();
    let clean = vec![
        CleanRange { start: 1, end: 3, is_entry: false },
        CleanRange { start: 5, end: 6, is_entry: true },
        CleanRange { start: 7, end: 9, is_entry: false },
    ];
    let env = synthesize(&text, &clean, Some((5, 6)));
    assert_eq!(env.templated, b"0;346;9".to_vec());
    assert_eq!(env.mainless, b"012346789".to_vec());
}

#[test]
fn synthesis_is_idempotent() {
    let text = b"aa{X}bb{Y}cc".to_vec();
    let clean = vec![
        CleanRange { start: 2, end: 5, is_entry: false },
        CleanRange { start: 7, end: 10, is_entry: false },
    ];
    let once = synthesize(&text, &clean, None);
    let twice = synthesize(&text, &clean, None);
    assert_eq!(once.templated, twice.templated);
    assert_eq!(once.mainless, twice.mainless);
    assert_eq!(once.full, twice.full);
}

#[test]
fn no_ranges_leave_the_text_untouched() {
    let text = b"nothing here".to_vec();
    let env = synthesize(&text, &vec![], None);
    assert_eq!(env.full, text);
    assert_eq!(env.mainless, text);
    assert_eq!(env.templated, text);
}

#[test]
fn forward_application_with_offset_adjustment_agrees() {
    let text = b"int a() { A }\nint main() { M }\nint b() { B }\n".to_vec();
    let a_start = 8usize;
    let a_end = 13usize;
    let m_start = 14usize;
    let m_end = 30usize;
    let b_start = 39usize;
    let b_end = 44usize;
    let clean = vec![
        CleanRange { start: a_start, end: a_end, is_entry: false },
        CleanRange { start: m_start, end: m_end, is_entry: true },
        CleanRange { start: b_start, end: b_end, is_entry: false },
    ];
    let env = synthesize(&text, &clean, Some((m_start, m_end)));

    let mut forward = text.clone();
    let mut shift: isize = 0;
    for r in &clean {
        let start = (r.start as isize + shift) as usize;
        let end = (r.end as isize + shift) as usize;
        let rep: &[u8] = if r.is_entry { b"" } else { b";" };
        forward.splice(start..end, rep.iter().copied());
        shift += rep.len() as isize - (r.end - r.start) as isize;
    }
    assert_eq!(forward, env.templated);
}
