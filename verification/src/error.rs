//! Lexical diagnostics: the record the scanner accumulates for each
//! recovered error, and the rendering of such a record as one
//! human-readable diagnostic line.

use vstd::prelude::*;

verus! {

/// One recovered lexical error: the 1-based source line it was noticed
/// on and a human-readable message.
#[derive(Debug)]
pub struct ScanError {
    pub line: usize,
    pub message: String,
}

/// Mathematical image of a [`ScanError`]: the line as an unbounded
/// natural number and the message as a character sequence.
#[verifier::ext_equal]
pub struct ScanErrorView {
    pub line: nat,
    pub message: Seq<char>,
}

impl View for ScanError {
    type V = ScanErrorView;

    open spec fn view(&self) -> ScanErrorView {
        ScanErrorView { line: self.line as nat, message: self.message@ }
    }
}

impl Clone for ScanError {
    fn clone(&self) -> (res: Self)
        ensures
            res@ == self@,
    {
        ScanError { line: self.line, message: self.message.clone() }
    }
}

/// The decimal digit character for a value below ten.
pub open spec fn digit_char(d: int) -> char {
    if d == 0 {
        '0'
    } else if d == 1 {
        '1'
    } else if d == 2 {
        '2'
    } else if d == 3 {
        '3'
    } else if d == 4 {
        '4'
    } else if d == 5 {
        '5'
    } else if d == 6 {
        '6'
    } else if d == 7 {
        '7'
    } else if d == 8 {
        '8'
    } else {
        '9'
    }
}

/// The usual decimal rendering of a natural number, most significant
/// digit first, with no leading zeros (except for zero itself).
pub open spec fn spec_decimal(n: nat) -> Seq<char>
    decreases n,
{
    if n < 10 {
        seq![digit_char(n as int)]
    } else {
        spec_decimal(n / 10) + seq![digit_char((n % 10) as int)]
    }
}

fn exec_digit_char(d: usize) -> (c: char)
    requires
        d < 10,
    ensures
        c == digit_char(d as int),
{
    if d == 0 {
        '0'
    } else if d == 1 {
        '1'
    } else if d == 2 {
        '2'
    } else if d == 3 {
        '3'
    } else if d == 4 {
        '4'
    } else if d == 5 {
        '5'
    } else if d == 6 {
        '6'
    } else if d == 7 {
        '7'
    } else if d == 8 {
        '8'
    } else {
        '9'
    }
}

/// The decimal digits of `n`, as characters, most significant first.
fn decimal_chars(n: usize) -> (r: Vec<char>)
    ensures
        r@ == spec_decimal(n as nat),
{
    let mut v: Vec<char> = Vec::new();
    let mut m: usize = n;
    while m >= 10
        invariant
            spec_decimal(n as nat) == spec_decimal(m as nat) + v@,
        decreases m,
    {
        let d = m % 10;
        v.insert(0, exec_digit_char(d));
        proof {
            assert(spec_decimal(m as nat) == spec_decimal((m as nat) / 10) + seq![
                digit_char((m % 10) as int),
            ]);
            assert(spec_decimal((m as nat) / 10) + (seq![digit_char((m % 10) as int)] + v@)
                =~= (spec_decimal((m as nat) / 10) + seq![digit_char((m % 10) as int)]) + v@);
            assert((m / 10) as nat == (m as nat) / 10);
        }
        m = m / 10;
    }
    let ghost v0 = v@;
    v.insert(0, exec_digit_char(m));
    proof {
        assert(spec_decimal(m as nat) == seq![digit_char(m as int)]);
        assert(v@ =~= seq![digit_char(m as int)] + v0);
        assert(v@ =~= spec_decimal(n as nat));
    }
    v
}

/// The decimal rendering of a number as a `String`.
fn decimal_string(n: usize) -> (r: String)
    ensures
        r@ == spec_decimal(n as nat),
{
    let digits = decimal_chars(n);
    let mut r = String::new();
    let mut i: usize = 0;
    while i < digits.len()
        invariant
            i <= digits@.len(),
            r@ == digits@.subrange(0, i as int),
            digits@ == spec_decimal(n as nat),
        decreases digits@.len() - i,
    {
        r.push(digits[i]);
        proof {
            assert(digits@.subrange(0, i as int) + seq![digits@[i as int]] =~= digits@.subrange(
                0,
                i + 1,
            ));
        }
        i = i + 1;
    }
    proof {
        assert(digits@.subrange(0, digits@.len() as int) =~= digits@);
    }
    r
}

/// The diagnostic line produced for one lexical error: the form
/// `[line N] Error(): message`, with an always-empty location part.
pub open spec fn spec_diagnostic(line: nat, msg: Seq<char>) -> Seq<char> {
    "[line "@ + spec_decimal(line) + "] Error(): "@ + msg
}

/// Renders one recovered lexical error as its diagnostic line.
/// Writing the line to a diagnostic stream is the caller's business.
pub fn lox_error(line: usize, msg: String) -> (r: String)
    ensures
        r@ == spec_diagnostic(line as nat, msg@),
{
    let mut r = String::from_str("[line ");
    r.append(decimal_string(line).as_str());
    r.append("] Error(): ");
    r.append(msg.as_str());
    r
}

} // verus!
