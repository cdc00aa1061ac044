use vstd::prelude::*;
use vstd::string::*;

verus! {

/// The decimal digit `d` as a one-character text.
pub open spec fn digit_text(d: nat) -> Seq<char> {
    if d == 0 { "0"@ }
    else if d == 1 { "1"@ }
    else if d == 2 { "2"@ }
    else if d == 3 { "3"@ }
    else if d == 4 { "4"@ }
    else if d == 5 { "5"@ }
    else if d == 6 { "6"@ }
    else if d == 7 { "7"@ }
    else if d == 8 { "8"@ }
    else { "9"@ }
}

/// The decimal notation of `n`, most significant digit first, without leading zeros.
pub open spec fn decimal(n: nat) -> Seq<char>
    decreases n,
{
    if n < 10 {
        digit_text(n)
    } else {
        decimal(n / 10) + digit_text(n % 10)
    }
}

/// Moves the cursor to the first column of row `rows`.
pub open spec fn goto_row_text(rows: nat) -> Seq<char> {
    "\u{1b}["@ + decimal(rows) + ";1H"@
}

/// What is written when the client leaves on an error: the cursor goes to the last
/// row, the alternate screen is left and the message follows.
pub open spec fn error_text(rows: nat, msg: Seq<char>) -> Seq<char> {
    goto_row_text(rows) + "\n"@ + "\u{1b}[?1049l"@ + msg
}

/// What is written when the session ends normally.
pub open spec fn goodbye_text(rows: nat) -> Seq<char> {
    goto_row_text(rows) + "\n"@ + "\u{1b}[?1049l"@ + "\u{1b}[m"@ + "\u{1b}[?25h"@
        + "Bye from Zellij!\n"@
}

fn digit(d: usize) -> (r: &'static str)
    requires
        d < 10,
    ensures
        r@ == digit_text(d as nat),
{
    if d == 0 { "0" }
    else if d == 1 { "1" }
    else if d == 2 { "2" }
    else if d == 3 { "3" }
    else if d == 4 { "4" }
    else if d == 5 { "5" }
    else if d == 6 { "6" }
    else if d == 7 { "7" }
    else if d == 8 { "8" }
    else { "9" }
}

/// Appends the decimal notation of `n` to `out`.
fn push_decimal(out: &mut String, n: usize)
    ensures
        final(out)@ == old(out)@ + decimal(n as nat),
    decreases n,
{
    if n < 10 {
        out.append(digit(n));
    } else {
        push_decimal(out, n / 10);
        out.append(digit(n % 10));
        assert(final(out)@ =~= old(out)@ + decimal(n as nat));
    }
}

/// The decimal notation of `n`.
pub fn decimal_string(n: usize) -> (r: String)
    ensures
        r@ == decimal(n as nat),
{
    let mut s = String::new();
    push_decimal(&mut s, n);
    assert(s@ =~= decimal(n as nat));
    s
}

/// The sequence that switches the terminal to its alternate screen.
pub fn enter_alternate_screen() -> (r: String)
    ensures
        r@ == "\u{1b}[?1049h"@,
{
    String::from_str("\u{1b}[?1049h")
}

fn goto_row(rows: usize) -> (r: String)
    ensures
        r@ == goto_row_text(rows as nat),
{
    let mut s = String::from_str("\u{1b}[");
    push_decimal(&mut s, rows);
    s.append(";1H");
    s
}

/// The text written when the client leaves on the error `msg`.
pub fn error_message(rows: usize, msg: &String) -> (r: String)
    ensures
        r@ == error_text(rows as nat, msg@),
{
    let mut s = goto_row(rows);
    s.append("\n");
    s.append("\u{1b}[?1049l");
    s.append(msg.as_str());
    s
}

/// The text written when the session ends normally.
pub fn goodbye_message(rows: usize) -> (r: String)
    ensures
        r@ == goodbye_text(rows as nat),
{
    let mut s = goto_row(rows);
    s.append("\n");
    s.append("\u{1b}[?1049l");
    s.append("\u{1b}[m");
    s.append("\u{1b}[?25h");
    s.append("Bye from Zellij!\n");
    s
}

} // verus!
