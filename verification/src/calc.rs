//! The calculator's evaluator: digits, spaces and the four operators,
//! evaluated strictly left to right.
use vstd::prelude::*;
use crate::text::string_push_str;

verus! {

/// The operator waiting for its right operand; `Emit` before the first one.
#[derive(Clone, Copy, Debug, PartialEq, Eq, Structural)]
pub enum Operators {
    Emit,
    Add,
    Sub,
    Mul,
    Div,
}

/// Why an expression has no value. `UncheckedOverflow` stands for the
/// arithmetic that the evaluator leaves unchecked (appending a digit, and
/// the last addition, subtraction or multiplication); it never comes back
/// from `solve`, whose `requires` excludes it.
#[derive(Clone, Copy, Debug, PartialEq, Eq, Structural)]
pub enum SolveError {
    Overflow,
    DivByZero,
    UnknownOp(char),
    UncheckedOverflow,
}

/// The value of a decimal digit character.
pub open spec fn spec_digit(c: char) -> Option<int> {
    if '0' <= c <= '9' {
        Some(c as int - '0' as int)
    } else {
        None
    }
}

/// The operator a character names.
pub open spec fn spec_op(c: char) -> Option<Operators> {
    if c == '+' {
        Some(Operators::Add)
    } else if c == '-' {
        Some(Operators::Sub)
    } else if c == '*' {
        Some(Operators::Mul)
    } else if c == '/' {
        Some(Operators::Div)
    } else {
        None
    }
}

/// Applies the waiting operator, checked: an overflow, or a division by
/// zero (which also covers the one overflowing division), is an error.
pub open spec fn apply_op(op: Operators, res: isize, curr: isize) -> Result<isize, SolveError> {
    match op {
        Operators::Emit => Ok(curr),
        Operators::Add => match res.checked_add(curr) {
            Some(v) => Ok(v),
            None => Err(SolveError::Overflow),
        },
        Operators::Sub => match res.checked_sub(curr) {
            Some(v) => Ok(v),
            None => Err(SolveError::Overflow),
        },
        Operators::Mul => match res.checked_mul(curr) {
            Some(v) => Ok(v),
            None => Err(SolveError::Overflow),
        },
        Operators::Div => match res.checked_div(curr) {
            Some(v) => Ok(v),
            None => Err(SolveError::DivByZero),
        },
    }
}

/// The evaluator's state: the result so far, the waiting operator and the
/// number being read.
pub type CalcState = (isize, Operators, isize);

/// One character: spaces are skipped; a digit extends the number being
/// read; any other character applies the waiting operator and must itself
/// be an operator.
pub open spec fn solve_char(st: CalcState, c: char) -> Result<CalcState, SolveError> {
    let (res, op, curr) = st;
    if c == ' ' {
        Ok(st)
    } else if let Some(d) = spec_digit(c) {
        match curr.checked_mul(10) {
            None => Err(SolveError::Overflow),
            Some(m) => if m + d > isize::MAX {
                Err(SolveError::UncheckedOverflow)
            } else {
                Ok((res, op, (m + d) as isize))
            },
        }
    } else {
        match apply_op(op, res, curr) {
            Err(e) => Err(e),
            Ok(r) => match spec_op(c) {
                Some(o) => Ok((r, o, 0)),
                None => Err(SolveError::UnknownOp(c)),
            },
        }
    }
}

/// The state after reading all of `s`, or the first error.
pub open spec fn solve_chars(s: Seq<char>) -> Result<CalcState, SolveError>
    decreases s.len(),
{
    if s.len() == 0 {
        Ok((0, Operators::Emit, 0))
    } else {
        match solve_chars(s.drop_last()) {
            Err(e) => Err(e),
            Ok(st) => solve_char(st, s.last()),
        }
    }
}

/// The final step: the waiting operator applied to the last number;
/// division checked, the others unchecked.
pub open spec fn finish(st: CalcState) -> Result<isize, SolveError> {
    let (res, op, curr) = st;
    let v: int = match op {
        Operators::Emit => curr as int,
        Operators::Add => res + curr,
        Operators::Sub => res - curr,
        Operators::Mul => res * curr,
        Operators::Div => 0,
    };
    match op {
        Operators::Div => match res.checked_div(curr) {
            Some(q) => Ok(q),
            None => Err(SolveError::DivByZero),
        },
        _ => if isize::MIN <= v <= isize::MAX {
            Ok(v as isize)
        } else {
            Err(SolveError::UncheckedOverflow)
        },
    }
}

/// The value of an expression, left to right without precedence.
pub open spec fn solve_spec(s: Seq<char>) -> Result<isize, SolveError> {
    match solve_chars(s) {
        Err(e) => Err(e),
        Ok(st) => finish(st),
    }
}

/// The Debug text of a character: the character in single quotes, escaped
/// as `char::escape_debug` does.
pub uninterp spec fn char_debug_text(c: char) -> Seq<char>;

/// `format!("{c:?}")` for a character: its Debug text. Claimed: a printable
/// ASCII character other than a quote or a backslash appears as itself
/// between single quotes.
#[verifier::external_body]
fn char_debug(c: char) -> (s: String)
    ensures
        s@ == char_debug_text(c),
        (0x20 <= c as u32 <= 0x7E && c != '\'' && c != '\\') ==> s@ == seq!['\'', c, '\''],
{
    format!("{c:?}")
}

/// Whether a character is printable ASCII other than a quote or a
/// backslash: its Debug text is the character itself in single quotes.
pub open spec fn plainly_quoted(c: char) -> bool {
    0x20 <= c as u32 <= 0x7E && c != '\'' && c != '\\'
}

/// The Debug text of a character: the character in single quotes where it
/// is plainly quoted, else as `char_debug_text` names it.
pub open spec fn debug_text(c: char) -> Seq<char> {
    if plainly_quoted(c) {
        seq!['\'', c, '\'']
    } else {
        char_debug_text(c)
    }
}

/// The message of an error.
pub open spec fn error_text(e: SolveError) -> Seq<char> {
    match e {
        SolveError::Overflow => seq!['o', 'v', 'e', 'r', 'f', 'l', 'o', 'w'],
        SolveError::DivByZero => seq!['d', 'i', 'v', ' ', 'b', 'y', ' ', 'z', 'e', 'r', 'o'],
        SolveError::UnknownOp(c) => seq!['u', 'n', 'k', 'n', 'o', 'w', 'n', ' ', 'o', 'p', ' ']
            + debug_text(c),
        SolveError::UncheckedOverflow => Seq::empty(),
    }
}

/// The value of a digit character, if it is one.
fn digit_value(c: char) -> (d: Option<isize>)
    ensures
        match spec_digit(c) {
            Some(v) => d == Some(v as isize),
            None => d is None,
        },
{
    if '0' <= c && c <= '9' {
        Some((c as u32 - '0' as u32) as isize)
    } else {
        None
    }
}

fn message(e: SolveError) -> (s: String)
    requires
        e != SolveError::UncheckedOverflow,
    ensures
        s@ == error_text(e),
{
    match e {
        SolveError::Overflow => {
            let s = "overflow".to_owned();
            proof {
                reveal_strlit("overflow");
            }
            assert(s@ =~= error_text(e));
            s
        },
        SolveError::DivByZero => {
            let s = "div by zero".to_owned();
            proof {
                reveal_strlit("div by zero");
            }
            assert(s@ =~= error_text(e));
            s
        },
        SolveError::UnknownOp(c) => {
            let mut s = "unknown op ".to_owned();
            proof {
                reveal_strlit("unknown op ");
            }
            let d = char_debug(c);
            string_push_str(&mut s, d.as_str());
            assert(s@ =~= error_text(e));
            s
        },
        SolveError::UncheckedOverflow => String::new(),
    }
}

/// Applies the waiting operator to the result so far and the number read.
fn apply(op: Operators, res: isize, curr: isize) -> (r: Result<isize, SolveError>)
    ensures
        r == apply_op(op, res, curr),
{
    match op {
        Operators::Emit => Ok(curr),
        Operators::Add => match res.checked_add(curr) {
            Some(v) => Ok(v),
            None => Err(SolveError::Overflow),
        },
        Operators::Sub => match res.checked_sub(curr) {
            Some(v) => Ok(v),
            None => Err(SolveError::Overflow),
        },
        Operators::Mul => match res.checked_mul(curr) {
            Some(v) => Ok(v),
            None => Err(SolveError::Overflow),
        },
        Operators::Div => match res.checked_div(curr) {
            Some(v) => Ok(v),
            None => Err(SolveError::DivByZero),
        },
    }
}

/// Evaluates an expression of decimal numbers, spaces and `+ - * /` from
/// left to right, as `solve_spec` says, naming each way it can fail; among
/// them the overflows that the calculator leaves unchecked.
pub fn evaluate(line: &str) -> (r: Result<isize, SolveError>)
    ensures
        r == solve_spec(line@),
{
    let mut res: isize = 0;
    let mut op = Operators::Emit;
    let mut curr_val: isize = 0;
    let n = line.unicode_len();
    let ghost s = line@;
    let mut i: usize = 0;
    while i < n
        invariant
            n == s.len(),
            s == line@,
            0 <= i <= n,
            solve_chars(s.subrange(0, i as int)) == Ok::<CalcState, SolveError>((res, op, curr_val)),
            curr_val >= 0,
        decreases n - i,
    {
        let c = line.get_char(i);
        assert(s.subrange(0, i + 1).drop_last() =~= s.subrange(0, i as int));
        if c == ' ' {
        } else if let Some(digit) = digit_value(c) {
            match curr_val.checked_mul(10) {
                Some(m) => {
                    if m > isize::MAX - digit {
                        proof {
                            lemma_error_sticks(s, i as int + 1, SolveError::UncheckedOverflow);
                        }
                        return Err(SolveError::UncheckedOverflow);
                    }
                    curr_val = m + digit;
                },
                None => {
                    proof {
                        lemma_error_sticks(s, i as int + 1, SolveError::Overflow);
                    }
                    return Err(SolveError::Overflow);
                },
            }
        } else {
            match apply(op, res, curr_val) {
                Ok(v) => {
                    res = v;
                },
                Err(e) => {
                    proof {
                        lemma_error_sticks(s, i as int + 1, e);
                    }
                    return Err(e);
                },
            }
            curr_val = 0;
            if c == '+' {
                op = Operators::Add;
            } else if c == '-' {
                op = Operators::Sub;
            } else if c == '*' {
                op = Operators::Mul;
            } else if c == '/' {
                op = Operators::Div;
            } else {
                proof {
                    lemma_error_sticks(s, i as int + 1, SolveError::UnknownOp(c));
                }
                return Err(SolveError::UnknownOp(c));
            }
        }
        i = i + 1;
    }
    assert(s.subrange(0, n as int) =~= s);
    let last = match op {
        Operators::Emit => Some(curr_val),
        Operators::Add => res.checked_add(curr_val),
        Operators::Sub => res.checked_sub(curr_val),
        Operators::Mul => res.checked_mul(curr_val),
        Operators::Div => match res.checked_div(curr_val) {
            Some(v) => Some(v),
            None => {
                return Err(SolveError::DivByZero);
            },
        },
    };
    match last {
        Some(v) => Ok(v),
        None => Err(SolveError::UncheckedOverflow),
    }
}

/// Evaluates an expression of decimal numbers, spaces and `+ - * /` from
/// left to right. Errors: "overflow" when checked arithmetic overflows,
/// "div by zero", and "unknown op" with the offending character. The
/// overflows that the calculator leaves unchecked are no input of it.
pub fn solve(line: &str) -> (r: Result<isize, String>)
    requires
        solve_spec(line@) != Err::<isize, SolveError>(SolveError::UncheckedOverflow),
    ensures
        match solve_spec(line@) {
            Ok(v) => r == Ok::<isize, String>(v),
            Err(e) => r matches Err(m) && m@ == error_text(e),
        },
{
    match evaluate(line) {
        Ok(v) => Ok(v),
        Err(e) => Err(message(e)),
    }
}

/// The value of a decimal numeral, most significant digit first.
pub open spec fn decimal_value(d: Seq<char>) -> int
    decreases d.len(),
{
    if d.len() == 0 {
        0
    } else {
        decimal_value(d.drop_last()) * 10 + (d.last() as int - '0' as int)
    }
}

/// Whether every character is a decimal digit.
pub open spec fn all_digits(d: Seq<char>) -> bool {
    forall|i: int| 0 <= i < d.len() ==> '0' <= #[trigger] d[i] <= '9'
}

/// Integer division rounding toward zero, as Rust divides, by a positive
/// divisor.
pub open spec fn div_toward_zero(a: int, b: int) -> int {
    if a >= 0 {
        a / b
    } else {
        -((-a) / b)
    }
}

/// The evaluator's state after reading `b` on from the state (or error) `st`.
pub open spec fn run_from(st: Result<CalcState, SolveError>, b: Seq<char>) -> Result<
    CalcState,
    SolveError,
>
    decreases b.len(),
{
    if b.len() == 0 {
        st
    } else {
        match run_from(st, b.drop_last()) {
            Err(e) => Err(e),
            Ok(x) => solve_char(x, b.last()),
        }
    }
}

/// Reading `a` and then `b` is reading `b` on from where `a` left off.
proof fn lemma_solve_concat(a: Seq<char>, b: Seq<char>)
    ensures
        solve_chars(a + b) == run_from(solve_chars(a), b),
    decreases b.len(),
{
    if b.len() == 0 {
        assert(a + b =~= a);
    } else {
        assert((a + b).drop_last() =~= a + b.drop_last());
        assert((a + b).last() == b.last());
        lemma_solve_concat(a, b.drop_last());
    }
}

/// Reading the digits of a numeral after an operator gives the numeral's
/// value as the number being read.
proof fn lemma_read_numeral(r: isize, op: Operators, d: Seq<char>)
    requires
        all_digits(d),
        decimal_value(d) <= isize::MAX,
    ensures
        decimal_value(d) >= 0,
        run_from(Ok((r, op, 0isize)), d) == Ok::<CalcState, SolveError>(
            (r, op, decimal_value(d) as isize),
        ),
    decreases d.len(),
{
    if d.len() > 0 {
        let p = d.drop_last();
        assert(all_digits(p)) by {
            assert forall|i: int| 0 <= i < p.len() implies '0' <= #[trigger] p[i] <= '9' by {
                assert(p[i] == d[i]);
            }
        }
        let c = d.last();
        assert('0' <= d[d.len() - 1] <= '9');
        let dig = c as int - '0' as int;
        assert(0 <= dig <= 9);
        assert(decimal_value(p) <= decimal_value(d)) by {
            lemma_nonnegative_prefix(p);
        }
        lemma_read_numeral(r, op, p);
    }
}

/// A numeral's value is not negative.
proof fn lemma_nonnegative_prefix(d: Seq<char>)
    requires
        all_digits(d),
    ensures
        decimal_value(d) >= 0,
    decreases d.len(),
{
    if d.len() > 0 {
        let p = d.drop_last();
        assert forall|i: int| 0 <= i < p.len() implies '0' <= #[trigger] p[i] <= '9' by {
            assert(p[i] == d[i]);
        }
        assert('0' <= d[d.len() - 1] <= '9');
        lemma_nonnegative_prefix(p);
    }
}

/// When the expression so far has a value, applying its waiting operator
/// (as the next operator does) gives that value.
proof fn lemma_pending_applied(st: CalcState, v: isize)
    requires
        finish(st) == Ok::<isize, SolveError>(v),
    ensures
        apply_op(st.1, st.0, st.2) == Ok::<isize, SolveError>(v),
{
}

/// A numeral on its own evaluates to its decimal value.
pub proof fn lemma_numeral_value(d: Seq<char>)
    requires
        d.len() > 0,
        all_digits(d),
        decimal_value(d) <= isize::MAX,
    ensures
        solve_spec(d) == Ok::<isize, SolveError>(decimal_value(d) as isize),
{
    lemma_solve_concat(Seq::empty(), d);
    assert(Seq::<char>::empty() + d =~= d);
    lemma_read_numeral(0, Operators::Emit, d);
}

/// Expressions are evaluated from left to right: appending an operator and
/// a numeral `n` to an expression whose value is `v` gives `v + n`,
/// `v - n`, `v * n` (when in range), or `v / n` rounded toward zero
/// (division by zero is an error). So "a - b - c" is (a - b) - c.
pub proof fn lemma_left_to_right(s: Seq<char>, o: char, d: Seq<char>, v: isize)
    requires
        solve_spec(s) == Ok::<isize, SolveError>(v),
        o == '+' || o == '-' || o == '*' || o == '/',
        d.len() > 0,
        all_digits(d),
        decimal_value(d) <= isize::MAX,
    ensures
        ({
            let n = decimal_value(d);
            let e = s.push(o) + d;
            &&& o == '+' && isize::MIN <= v + n <= isize::MAX ==> solve_spec(e) == Ok::<
                isize,
                SolveError,
            >((v + n) as isize)
            &&& o == '-' && isize::MIN <= v - n <= isize::MAX ==> solve_spec(e) == Ok::<
                isize,
                SolveError,
            >((v - n) as isize)
            &&& o == '*' && isize::MIN <= v * n <= isize::MAX ==> solve_spec(e) == Ok::<
                isize,
                SolveError,
            >((v * n) as isize)
            &&& o == '/' && n > 0 ==> solve_spec(e) == Ok::<isize, SolveError>(
                div_toward_zero(v as int, n) as isize,
            )
            &&& o == '/' && n == 0 ==> solve_spec(e) == Err::<isize, SolveError>(
                SolveError::DivByZero,
            )
        }),
{
    let st = solve_chars(s)->Ok_0;
    assert(solve_chars(s) is Ok);
    lemma_pending_applied(st, v);
    let so = s.push(o);
    assert(so.drop_last() =~= s);
    assert(so.last() == o);
    let op2 = spec_op(o)->0;
    assert(solve_chars(so) == Ok::<CalcState, SolveError>((v, op2, 0isize)));
    lemma_solve_concat(so, d);
    lemma_read_numeral(v, op2, d);
    let n = decimal_value(d);
    if o == '/' && n > 0 {
        let x = v as int;
        if x > 0 {
            assert(x / n <= x) by (nonlinear_arith)
                requires
                    x > 0,
                    n >= 1,
            ;
            assert(x / n >= 0) by (nonlinear_arith)
                requires
                    x > 0,
                    n >= 1,
            ;
        } else if x < 0 {
            assert((x * -1) / n <= x * -1) by (nonlinear_arith)
                requires
                    x < 0,
                    n >= 1,
            ;
            assert((x * -1) / n >= 0) by (nonlinear_arith)
                requires
                    x < 0,
                    n >= 1,
            ;
        }
    }
}

/// Once a prefix of the input fails, the whole input fails with the same
/// error.
proof fn lemma_error_sticks(s: Seq<char>, k: int, e: SolveError)
    requires
        0 <= k <= s.len(),
        solve_chars(s.subrange(0, k)) == Err::<CalcState, SolveError>(e),
    ensures
        solve_spec(s) == Err::<isize, SolveError>(e),
    decreases s.len() - k,
{
    if k == s.len() {
        assert(s.subrange(0, k) =~= s);
    } else {
        assert(s.subrange(0, k + 1).drop_last() =~= s.subrange(0, k));
        lemma_error_sticks(s, k + 1, e);
    }
}

/// The line being typed and what is echoed, after the characters `s` (none
/// of them a newline): a backspace removes the last character, echoing a
/// backspace if there was one; any other character is added and echoed.
pub open spec fn edit_fold(line: Seq<char>, s: Seq<char>) -> (Seq<char>, Seq<char>)
    decreases s.len(),
{
    if s.len() == 0 {
        (line, Seq::empty())
    } else {
        let (l, e) = edit_fold(line, s.drop_last());
        let c = s.last();
        if c == '\x08' {
            if l.len() > 0 {
                (l.drop_last(), e.push('\x08'))
            } else {
                (l, e)
            }
        } else {
            (l.push(c), e.push(c))
        }
    }
}

/// Whether some character is a newline.
pub open spec fn has_newline(s: Seq<char>) -> bool {
    exists|i: int| 0 <= i < s.len() && s[i] == '\n'
}

/// Where the first newline is.
pub open spec fn first_newline(s: Seq<char>) -> int {
    choose|i: int| 0 <= i < s.len() && s[i] == '\n' && forall|j: int| 0 <= j < i ==> s[j] != '\n'
}

/// The calculator's line reader: input read but not yet used, and the line
/// typed so far.
pub struct InputLines {
    read_buf: Vec<char>,
    return_buf: Vec<char>,
}

impl InputLines {
    /// Input not yet used.
    pub closed spec fn pending(&self) -> Seq<char> {
        self.read_buf@
    }

    /// The line typed so far.
    pub closed spec fn line(&self) -> Seq<char> {
        self.return_buf@
    }

    /// A reader with nothing read.
    pub fn new() -> (r: Self)
        ensures
            r.pending().len() == 0,
            r.line().len() == 0,
    {
        InputLines { read_buf: Vec::new(), return_buf: Vec::new() }
    }

    /// Adds input read from standard input.
    pub fn push_input(&mut self, s: &str)
        ensures
            final(self).pending() == old(self).pending() + s@,
            final(self).line() == old(self).line(),
    {
        let c = crate::text::chars_of(s);
        let mut i: usize = 0;
        let ghost p = self.read_buf@;
        while i < c.len()
            invariant
                i <= c@.len(),
                c@ == s@,
                self.read_buf@ == p + c@.take(i as int),
                self.return_buf@ == old(self).return_buf@,
            decreases c.len() - i,
        {
            self.read_buf.push(c[i]);
            assert(c@.take(i + 1) =~= c@.take(i as int).push(c@[i as int]));
            i += 1;
        }
        assert(c@.take(c@.len() as int) =~= c@);
    }

    /// Uses the pending input up to the first newline, editing the line;
    /// the text to echo comes back, and the line when a newline ended it.
    /// Without a newline all pending input is used and the line waits for
    /// more.
    pub fn next_line(&mut self) -> (r: (Option<String>, String))
        ensures
            ({
                let p = old(self).pending();
                if has_newline(p) {
                    let k = first_newline(p);
                    let (l, e) = edit_fold(old(self).line(), p.take(k));
                    &&& r.0 matches Some(line) && line@ == l
                    &&& r.1@ == e
                    &&& final(self).pending() == p.skip(k + 1)
                    &&& final(self).line().len() == 0
                } else {
                    let (l, e) = edit_fold(old(self).line(), p);
                    &&& r.0 is None
                    &&& r.1@ == e
                    &&& final(self).pending().len() == 0
                    &&& final(self).line() == l
                }
            }),
    {
        let ghost p = self.read_buf@;
        let ghost line0 = self.return_buf@;
        let mut echo = String::new();
        let mut i: usize = 0;
        let n = self.read_buf.len();
        let mut found = false;
        while i < n && !found
            invariant
                n == p.len(),
                self.read_buf@ == p,
                i <= n,
                forall|j: int| 0 <= j < i ==> p[j] != '\n',
                found ==> i < n && p[i as int] == '\n',
                (self.return_buf@, echo@) == edit_fold(line0, p.take(i as int)),
            decreases n - i, (if found {
                0int
            } else {
                1int
            }),
        {
            let c = self.read_buf[i];
            if c == '\n' {
                found = true;
            } else {
                assert(p.take(i + 1).drop_last() =~= p.take(i as int));
                if c == '\x08' {
                    if self.return_buf.len() > 0 {
                        self.return_buf.pop();
                        crate::text::string_push(&mut echo, '\x08');
                    }
                } else {
                    self.return_buf.push(c);
                    crate::text::string_push(&mut echo, c);
                }
                i += 1;
            }
        }
        if found {
            let ghost k = first_newline(p);
            assert(0 <= k < p.len() && p[k] == '\n' && forall|j: int| 0 <= j < k ==> p[j] != '\n');
            assert(k == i) by {
                if k < i {
                    assert(p[k] != '\n');
                } else if k > i {
                    assert(p[i as int] != '\n');
                }
            }
            let line = crate::text::string_of(self.return_buf.as_slice());
            let mut rest: Vec<char> = Vec::new();
            let mut j = i + 1;
            while j < n
                invariant
                    n == p.len(),
                    self.read_buf@ == p,
                    i < n,
                    i + 1 <= j <= n,
                    rest@ == p.subrange(i + 1, j as int),
                decreases n - j,
            {
                rest.push(self.read_buf[j]);
                assert(p.subrange(i + 1, j + 1) =~= p.subrange(i + 1, j as int).push(p[j as int]));
                j += 1;
            }
            assert(rest@ =~= p.skip(i + 1));
            self.read_buf = rest;
            self.return_buf = Vec::new();
            (Some(line), echo)
        } else {
            assert(p.take(n as int) =~= p);
            self.read_buf = Vec::new();
            (None, echo)
        }
    }
}

} // verus!
