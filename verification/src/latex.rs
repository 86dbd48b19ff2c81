//! LaTeX build results and the parsing of `pdflatex` logs.
//!
//! Running `pdflatex` and reading its files is left to the caller; here a
//! log is read for its errors, and the files a run left behind are turned
//! into a build result.
use vstd::prelude::*;
use crate::text_util::{
    chars_of, first_white, first_word, is_white, is_white_char, lemma_next_nl, lines_from, next_nl,
    parse_usize, push_range, spec_lines, spec_parse_usize, string_of, strip_cr, trim, trim_bounds,
    trim_end, trim_start,
};

verus! {

/// A single LaTeX compilation error with its originating line.
#[derive(Debug, Clone)]
pub struct CompileError {
    /// 0-indexed line number in the source.
    pub line: usize,
    /// Human-readable error message.
    pub message: String,
}

/// Outcome of a single LaTeX build.
#[derive(Debug, Clone)]
pub struct CompileResult {
    pub success: bool,
    /// The generated PDF bytes (present only on success).
    pub pdf_data: Option<Vec<u8>>,
    /// Parsed errors (non-empty only on failure).
    pub errors: Vec<CompileError>,
}

// ── the log model ─────────────────────────────────────────────────────

/// What the log parser holds between lines: the errors found so far (line
/// and message), the line of the error being read, and its message so far.
pub open spec fn log_init() -> (Seq<(int, Seq<char>)>, Option<int>, Seq<char>) {
    (Seq::empty(), None, Seq::empty())
}

/// The error being read, finished: at its line (0 when the log gave none),
/// with its message trimmed.
pub open spec fn finished_error(cur_line: Option<int>, cur_msg: Seq<char>) -> (int, Seq<char>) {
    (
        match cur_line {
            Some(l) => l,
            None => 0,
        },
        trim(cur_msg),
    )
}

/// `t` starts with `l.`, the mark of the source line of an error.
pub open spec fn is_line_mark(t: Seq<char>) -> bool {
    t.len() >= 2 && t[0] == 'l' && t[1] == '.'
}

/// One log line read: a line starting with `!` starts a new error; a line
/// that is `l.` and a number after trimming gives the error's source line
/// (counted from 1 in the log, from 0 here); other lines of an error are
/// added to its message, trimmed, each on a line of its own.
pub open spec fn log_step(
    st: (Seq<(int, Seq<char>)>, Option<int>, Seq<char>),
    line: Seq<char>,
) -> (Seq<(int, Seq<char>)>, Option<int>, Seq<char>) {
    let (errors, cur_line, cur_msg) = st;
    let t = trim(line);
    if line.len() > 0 && line[0] == '!' {
        (
            if cur_msg.len() > 0 {
                errors.push(finished_error(cur_line, cur_msg))
            } else {
                errors
            },
            None,
            line,
        )
    } else if is_line_mark(t) {
        (
            errors,
            match spec_parse_usize(first_word(t.skip(2))) {
                Some(n) => Some(
                    if n >= 1 {
                        n - 1
                    } else {
                        0
                    },
                ),
                None => cur_line,
            },
            cur_msg + seq!['\n'] + t,
        )
    } else if cur_msg.len() > 0 {
        (errors, cur_line, cur_msg + seq!['\n'] + t)
    } else {
        st
    }
}

/// The parser's state after the lines `ls`.
pub open spec fn log_fold(ls: Seq<Seq<char>>) -> (Seq<(int, Seq<char>)>, Option<int>, Seq<char>)
    decreases ls.len(),
{
    if ls.len() == 0 {
        log_init()
    } else {
        log_step(log_fold(ls.drop_last()), ls.last())
    }
}

/// The errors of the log `log`: each with its source line and message.
pub open spec fn log_errors(log: Seq<char>) -> Seq<(int, Seq<char>)> {
    let (errors, cur_line, cur_msg) = log_fold(spec_lines(log));
    if cur_msg.len() > 0 {
        errors.push(finished_error(cur_line, cur_msg))
    } else {
        errors
    }
}

/// The errors of a build result, as lines and messages.
pub open spec fn errors_view(v: Seq<CompileError>) -> Seq<(int, Seq<char>)> {
    Seq::new(v.len(), |j: int| (v[j].line as int, v[j].message@))
}

// ── laws of the log model ─────────────────────────────────────────────

/// `s` has a character that is not white space.
pub open spec fn has_ink(s: Seq<char>) -> bool {
    exists|i: int| 0 <= i < s.len() && !is_white(#[trigger] s[i])
}

proof fn lemma_trim_start_ink(s: Seq<char>)
    requires
        has_ink(s),
    ensures
        trim_start(s).len() > 0,
        !is_white(trim_start(s)[0]),
    decreases s.len(),
{
    if s.len() > 0 && is_white(s[0]) {
        let i = choose|i: int| 0 <= i < s.len() && !is_white(#[trigger] s[i]);
        assert(s.drop_first()[i - 1] == s[i]);
        lemma_trim_start_ink(s.drop_first());
    }
}

proof fn lemma_trim_end_keeps_first(s: Seq<char>)
    requires
        s.len() > 0,
        !is_white(s[0]),
    ensures
        trim_end(s).len() > 0,
    decreases s.len(),
{
    if is_white(s.last()) {
        assert(s.len() > 1);
        assert(s.drop_last()[0] == s[0]);
        lemma_trim_end_keeps_first(s.drop_last());
    }
}

/// What the parser keeps true between lines: every error found has a
/// message, and the message being read has a character that is not white
/// space when it is not empty.
pub open spec fn log_state_ok(st: (Seq<(int, Seq<char>)>, Option<int>, Seq<char>)) -> bool {
    &&& forall|k: int| 0 <= k < st.0.len() ==> (#[trigger] st.0[k]).1.len() > 0
    &&& st.2.len() > 0 ==> has_ink(st.2)
}

proof fn lemma_finished_error_has_message(cur_line: Option<int>, cur_msg: Seq<char>)
    requires
        has_ink(cur_msg),
    ensures
        finished_error(cur_line, cur_msg).1.len() > 0,
{
    lemma_trim_start_ink(cur_msg);
    lemma_trim_end_keeps_first(trim_start(cur_msg));
}

proof fn lemma_log_fold_ok(ls: Seq<Seq<char>>)
    ensures
        log_state_ok(log_fold(ls)),
    decreases ls.len(),
{
    if ls.len() > 0 {
        lemma_log_fold_ok(ls.drop_last());
        let st = log_fold(ls.drop_last());
        let line = ls.last();
        let (errors, cur_line, cur_msg) = st;
        let t = trim(line);
        if line.len() > 0 && line[0] == '!' {
            if cur_msg.len() > 0 {
                lemma_finished_error_has_message(cur_line, cur_msg);
            }
            assert(!is_white(line[0]));
        } else if is_line_mark(t) {
            let m = cur_msg + seq!['\n'] + t;
            assert(m[cur_msg.len() as int + 1] == t[0]);
            assert(!is_white(m[cur_msg.len() as int + 1]));
        } else if cur_msg.len() > 0 {
            let m = cur_msg + seq!['\n'] + t;
            let i = choose|i: int| 0 <= i < cur_msg.len() && !is_white(#[trigger] cur_msg[i]);
            assert(m[i] == cur_msg[i]);
        }
    }
}

/// Every error read from a log has a message.
pub proof fn law_log_errors_have_messages(log: Seq<char>)
    ensures
        forall|k: int| 0 <= k < log_errors(log).len() ==> (#[trigger] log_errors(log)[k]).1.len() > 0,
{
    let st = log_fold(spec_lines(log));
    lemma_log_fold_ok(spec_lines(log));
    if st.2.len() > 0 {
        lemma_finished_error_has_message(st.1, st.2);
        assert forall|k: int| 0 <= k < log_errors(log).len() implies (#[trigger] log_errors(
            log,
        )[k]).1.len() > 0 by {
            if k < st.0.len() {
                assert(log_errors(log)[k] == st.0[k]);
            }
        }
    }
}

/// A line that neither starts an error nor marks a source line.
pub open spec fn plain_line(line: Seq<char>) -> bool {
    !(line.len() > 0 && line[0] == '!') && !is_line_mark(trim(line))
}

proof fn lemma_plain_fold(ls: Seq<Seq<char>>)
    requires
        forall|j: int| 0 <= j < ls.len() ==> plain_line(#[trigger] ls[j]),
    ensures
        log_fold(ls) == log_init(),
    decreases ls.len(),
{
    if ls.len() > 0 {
        assert forall|j: int| 0 <= j < ls.drop_last().len() implies plain_line(
            #[trigger] ls.drop_last()[j],
        ) by {
            assert(ls.drop_last()[j] == ls[j]);
        }
        lemma_plain_fold(ls.drop_last());
        assert(plain_line(ls[ls.len() - 1]));
    }
}

/// A log none of whose lines starts an error (`!`) or marks a source line
/// (`l.`) has no errors: a clean build reads as one.
pub proof fn law_clean_log_has_no_errors(log: Seq<char>)
    requires
        forall|j: int| 0 <= j < spec_lines(log).len() ==> plain_line(#[trigger] spec_lines(log)[j]),
    ensures
        log_errors(log).len() == 0,
{
    lemma_plain_fold(spec_lines(log));
}

// ── the parser ────────────────────────────────────────────────────────

/// The error being read, finished, appended to `errors`.
fn push_error(errors: &mut Vec<CompileError>, cur_line: Option<usize>, cur_msg: &Vec<char>)
    ensures
        errors_view(final(errors)@) == errors_view(old(errors)@).push(
            finished_error(
                match cur_line {
                    Some(l) => Some(l as int),
                    None => None,
                },
                cur_msg@,
            ),
        ),
{
    let (a, b) = trim_bounds(cur_msg, 0, cur_msg.len());
    assert(cur_msg@.subrange(0, cur_msg@.len() as int) =~= cur_msg@);
    let message = string_of(cur_msg, a, b);
    let line = match cur_line {
        Some(l) => l,
        None => 0,
    };
    errors.push(CompileError { line, message });
    assert(errors_view(errors@) =~= errors_view(old(errors)@).push(
        finished_error(
            match cur_line {
                Some(l) => Some(l as int),
                None => None,
            },
            cur_msg@,
        ),
    ));
}

/// The line number that the `l.` line `s[ts..te]` gives, if any.
fn line_mark_number(s: &Vec<char>, ts: usize, te: usize) -> (r: Option<usize>)
    requires
        ts + 2 <= te <= s@.len(),
    ensures
        match r {
            Some(n) => spec_parse_usize(first_word(s@.subrange(ts as int, te as int).skip(2)))
                == Some(n as nat),
            None => spec_parse_usize(first_word(s@.subrange(ts as int, te as int).skip(2))) is None,
        },
{
    let ghost rest = s@.subrange(ts as int, te as int).skip(2);
    assert(rest =~= s@.subrange(ts + 2, te as int));
    let mut i = ts + 2;
    while i < te && is_white_char(s[i])
        invariant
            ts + 2 <= i <= te <= s@.len(),
            rest == s@.subrange(ts + 2, te as int),
            trim_start(rest) == trim_start(s@.subrange(i as int, te as int)),
        decreases te - i,
    {
        assert(s@.subrange(i as int, te as int).drop_first() =~= s@.subrange(i + 1, te as int));
        i += 1;
    }
    let ghost t = s@.subrange(i as int, te as int);
    assert(trim_start(rest) == t);
    let mut j = i;
    while j < te && !is_white_char(s[j])
        invariant
            i <= j <= te <= s@.len(),
            t == s@.subrange(i as int, te as int),
            first_white(t, 0) == first_white(t, j - i),
        decreases te - j,
    {
        j += 1;
    }
    assert(first_white(t, j - i) == j - i);
    assert(first_word(rest) =~= s@.subrange(i as int, j as int));
    let word = string_of(s, i, j);
    parse_usize(word.as_str())
}

/// The parser's state as the log model has it.
pub open spec fn state_view(errors: Seq<CompileError>, cur_line: Option<usize>, cur_msg: Seq<char>) -> (
    Seq<(int, Seq<char>)>,
    Option<int>,
    Seq<char>,
) {
    (
        errors_view(errors),
        match cur_line {
            Some(l) => Some(l as int),
            None => None,
        },
        cur_msg,
    )
}

/// Read the log line `s[a..b]`.
fn read_log_line(
    s: &Vec<char>,
    a: usize,
    b: usize,
    errors: &mut Vec<CompileError>,
    cur_line: &mut Option<usize>,
    cur_msg: &mut Vec<char>,
)
    requires
        a <= b <= s@.len(),
    ensures
        state_view(final(errors)@, *final(cur_line), final(cur_msg)@) == log_step(
            state_view(old(errors)@, *old(cur_line), old(cur_msg)@),
            s@.subrange(a as int, b as int),
        ),
{
    let ghost line = s@.subrange(a as int, b as int);
    let (ts, te) = trim_bounds(s, a, b);
    let ghost t = trim(line);
    if a < b && s[a] == '!' {
        if cur_msg.len() > 0 {
            push_error(errors, *cur_line, cur_msg);
        }
        let mut fresh: Vec<char> = Vec::new();
        push_range(&mut fresh, s, a, b);
        assert(fresh@ =~= line);
        *cur_msg = fresh;
        *cur_line = None;
    } else if te - ts >= 2 && s[ts] == 'l' && s[ts + 1] == '.' {
        assert(is_line_mark(t));
        match line_mark_number(s, ts, te) {
            Some(n) => {
                *cur_line = Some(n.saturating_sub(1));
            },
            None => {},
        }
        cur_msg.push('\n');
        push_range(cur_msg, s, ts, te);
    } else if cur_msg.len() > 0 {
        proof {
            if is_line_mark(t) {
                assert(t[0] == s@[ts as int] && t[1] == s@[ts + 1]);
            }
        }
        cur_msg.push('\n');
        push_range(cur_msg, s, ts, te);
    } else {
        proof {
            if is_line_mark(t) {
                assert(t[0] == s@[ts as int] && t[1] == s@[ts + 1]);
            }
        }
    }
}

/// Parse a LaTeX `.log` file for structured errors: each error starts at a
/// line beginning with `!`, runs to the next one, and takes its source line
/// from an `l.` line.
pub fn parse_log(log: &str) -> (errors: Vec<CompileError>)
    ensures
        errors_view(errors@) == log_errors(log@),
{
    let s = chars_of(log);
    let n = s.len();
    let ghost ls = spec_lines(s@);
    let ghost mut done: Seq<Seq<char>> = Seq::empty();
    let mut errors: Vec<CompileError> = Vec::new();
    let mut cur_line: Option<usize> = None;
    let mut cur_msg: Vec<char> = Vec::new();
    let mut i: usize = 0;
    assert(errors_view(errors@) =~= Seq::empty());
    while i < n
        invariant
            i <= n == s@.len(),
            s@ == log@,
            ls == spec_lines(s@),
            ls == done + lines_from(s@, i as int),
            state_view(errors@, cur_line, cur_msg@) == log_fold(done),
        decreases n - i,
    {
        // The line runs to the next LF
        let mut k = i;
        while k < n && s[k] != '\n'
            invariant
                i <= k <= n == s@.len(),
                next_nl(s@, i as int) == next_nl(s@, k as int),
            decreases n - k,
        {
            k += 1;
        }
        let end = if k < n && k > i && s[k - 1] == '\r' {
            k - 1
        } else {
            k
        };
        let ghost line = s@.subrange(i as int, end as int);
        proof {
            lemma_next_nl(s@, i as int);
            if k < n {
                assert(line == strip_cr(s@.subrange(i as int, k as int)));
            }
            assert(lines_from(s@, i as int) =~= seq![line] + lines_from(
                s@,
                if k < n {
                    k + 1
                } else {
                    n as int
                },
            ));
        }
        read_log_line(&s, i, end, &mut errors, &mut cur_line, &mut cur_msg);
        proof {
            assert((done.push(line)).drop_last() =~= done);
            done = done.push(line);
        }
        i = if k < n {
            k + 1
        } else {
            n
        };
    }
    assert(lines_from(s@, n as int) =~= Seq::<Seq<char>>::empty());
    assert(done =~= ls);
    if cur_msg.len() > 0 {
        push_error(&mut errors, cur_line, &cur_msg);
    }
    errors
}

/// A failed build with the single error `msg`.
pub fn err_result(msg: &str) -> (r: CompileResult)
    ensures
        !r.success,
        r.pdf_data is None,
        errors_view(r.errors@) == seq![(0int, msg@)],
{
    let r = CompileResult {
        success: false,
        pdf_data: None,
        errors: vec![CompileError { line: 0, message: String::from_str(msg) }],
    };
    assert(errors_view(r.errors@) =~= seq![(0int, msg@)]);
    r
}

/// The result of a `pdflatex` run from what it left behind: the text of its
/// log (empty when there was none), the PDF when one was written, and, when
/// there is no PDF, the log read once more (`None` when it cannot be read).
/// A PDF with a clean log is a success, and only a success carries the
/// PDF; otherwise the log's errors are the result, or the whole log as one
/// error when it names none.
pub fn build_result(log_text: &str, pdf_data: Option<Vec<u8>>, reread_log: Option<String>) -> (r:
    CompileResult)
    ensures
        ({
            let errs = log_errors(log_text@);
            if pdf_data is Some {
                &&& r.success == (errs.len() == 0)
                &&& r.pdf_data == if errs.len() == 0 {
                    pdf_data
                } else {
                    None
                }
                &&& errors_view(r.errors@) == errs
            } else {
                &&& !r.success
                &&& r.pdf_data is None
                &&& errors_view(r.errors@) == match reread_log {
                    Some(t) => if log_errors(t@).len() > 0 {
                        log_errors(t@)
                    } else {
                        seq![(0int, t@)]
                    },
                    None => seq![(0int, "pdflatex produced no output and no log"@)],
                }
            }
        }),
        r.success == (r.errors@.len() == 0),
        r.pdf_data is Some == r.success,
{
    let log_errors = parse_log(log_text);
    let log_has_errors = log_errors.len() > 0;
    assert(errors_view(log_errors@).len() == log_errors@.len());
    if pdf_data.is_some() {
        if !log_has_errors {
            return CompileResult { success: true, pdf_data, errors: Vec::new() };
        }
        return CompileResult { success: false, pdf_data: None, errors: log_errors };
    }
    // No PDF — read the log again for errors
    match reread_log {
        Some(text) => {
            let errors = parse_log(text.as_str());
            assert(errors_view(errors@).len() == errors@.len());
            if errors.len() > 0 {
                return CompileResult { success: false, pdf_data: None, errors };
            }
            let r = CompileResult {
                success: false,
                pdf_data: None,
                errors: vec![CompileError { line: 0, message: text }],
            };
            assert(errors_view(r.errors@) =~= seq![(0int, text@)]);
            r
        },
        None => {
            let r = err_result("pdflatex produced no output and no log");
            assert(errors_view(r.errors@).len() == r.errors@.len());
            r
        },
    }
}

} // verus!
