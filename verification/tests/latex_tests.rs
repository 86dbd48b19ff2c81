use mu_t::latex::{build_result, err_result, parse_log, CompileError};

fn pairs(errors: &[CompileError]) -> Vec<(usize, String)> {
    errors.iter().map(|e| (e.line, e.message.clone())).collect()
}

const LOG: &str = "This is pdfTeX, Version 3.141592653\n\
! Undefined control sequence.\n\
l.3 \\undefinedcommand\n\
\n\
! Emergency stop.\n\
<*> src.tex\n";

#[test]
fn log_errors_take_their_message_and_source_line() {
    let errors = parse_log(LOG);
    assert_eq!(
        pairs(&errors),
        vec![
            (2, String::from("! Undefined control sequence.\nl.3 \\undefinedcommand")),
            (0, String::from("! Emergency stop.\n<*> src.tex")),
        ]
    );
}

#[test]
fn log_without_errors_gives_none() {
    assert!(parse_log("This is pdfTeX\nOutput written on src.pdf (1 page).\n").is_empty());
    assert!(parse_log("").is_empty());
}

#[test]
fn log_lines_are_trimmed_and_crlf_is_a_line_break() {
    let errors = parse_log("! Missing $ inserted.\r\n   <inserted text>   \r\n  l.12   x\r\n");
    assert_eq!(
        pairs(&errors),
        vec![(11, String::from("! Missing $ inserted.\n<inserted text>\nl.12   x"))]
    );
}

#[test]
fn line_mark_without_a_number_keeps_the_line() {
    let errors = parse_log("! Bad.\nl.7 a\nl.x b\n");
    assert_eq!(pairs(&errors), vec![(6, String::from("! Bad.\nl.7 a\nl.x b"))]);
    // `l.0` counts as the first line
    let zero = parse_log("! Bad.\nl.0\n");
    assert_eq!(pairs(&zero), vec![(0, String::from("! Bad.\nl.0"))]);
}

#[test]
fn failure_result_has_one_error() {
    let r = err_result("pdflatex not found — install TeX Live");
    assert!(!r.success);
    assert!(r.pdf_data.is_none());
    assert_eq!(pairs(&r.errors), vec![(0, String::from("pdflatex not found — install TeX Live"))]);
}

#[test]
fn pdf_with_clean_log_is_a_success() {
    let r = build_result("Output written.\n", Some(vec![37, 80, 68, 70]), None);
    assert!(r.success);
    assert_eq!(r.pdf_data, Some(vec![37, 80, 68, 70]));
    assert!(r.errors.is_empty());
}

#[test]
fn pdf_with_errors_in_the_log_fails() {
    let r = build_result(LOG, Some(vec![1]), None);
    assert!(!r.success);
    assert!(r.pdf_data.is_none());
    assert_eq!(r.errors.len(), 2);
}

#[test]
fn no_pdf_takes_the_errors_of_the_log_or_the_whole_log() {
    let r = build_result(LOG, None, Some(String::from(LOG)));
    assert!(!r.success);
    assert!(r.pdf_data.is_none());
    assert_eq!(r.errors.len(), 2);
    assert_eq!(r.errors[0].line, 2);

    let plain = build_result("", None, Some(String::from("no errors named")));
    assert_eq!(pairs(&plain.errors), vec![(0, String::from("no errors named"))]);

    let none = build_result("", None, None);
    assert_eq!(
        pairs(&none.errors),
        vec![(0, String::from("pdflatex produced no output and no log"))]
    );
}
