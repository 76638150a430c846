use vstd::prelude::*;
use vstd::string::StringExecFns;

verus! {

/// What can go wrong when a matrix is built from data whose size is only known
/// at run time.
#[derive(Debug, Clone, Copy, PartialEq, Eq)]
pub enum Error {
    /// A flat list of `len` entries was offered for a `rows` by `cols` matrix.
    WrongEntriesLength { rows: usize, cols: usize, len: usize },
}

/// The character for a single decimal digit.
pub open spec fn digit_char(d: nat) -> char
    recommends
        d < 10,
{
    if d == 0 {
        '0'
    } else if d == 1 {
        '1'
    } else if d == 2 {
        '2'
    } else if d == 3 {
        '3'
    } else if d == 4 {
        '4'
    } else if d == 5 {
        '5'
    } else if d == 6 {
        '6'
    } else if d == 7 {
        '7'
    } else if d == 8 {
        '8'
    } else {
        '9'
    }
}

/// The decimal numeral of `n`, most significant digit first, without leading
/// zeros (`0` itself is written `"0"`).
pub open spec fn decimal(n: nat) -> Seq<char>
    decreases n,
{
    if n < 10 {
        seq![digit_char(n)]
    } else {
        decimal(n / 10).push(digit_char(n % 10))
    }
}

/// The text of an error, as a sequence of characters.
pub open spec fn message(e: Error) -> Seq<char> {
    match e {
        Error::WrongEntriesLength { rows, cols, len } => {
            "entry array of size `"@ + decimal(len as nat)
                + "` does not match matrix of size `"@ + decimal(rows as nat) + "x"@
                + decimal(cols as nat) + "`"@
        },
    }
}

fn digit_str(d: u8) -> (s: &'static str)
    requires
        d < 10,
    ensures
        s@ == seq![digit_char(d as nat)],
{
    proof {
        reveal_strlit("0");
        reveal_strlit("1");
        reveal_strlit("2");
        reveal_strlit("3");
        reveal_strlit("4");
        reveal_strlit("5");
        reveal_strlit("6");
        reveal_strlit("7");
        reveal_strlit("8");
        reveal_strlit("9");
    }
    let s = if d == 0 {
        "0"
    } else if d == 1 {
        "1"
    } else if d == 2 {
        "2"
    } else if d == 3 {
        "3"
    } else if d == 4 {
        "4"
    } else if d == 5 {
        "5"
    } else if d == 6 {
        "6"
    } else if d == 7 {
        "7"
    } else if d == 8 {
        "8"
    } else {
        "9"
    };
    assert(s@ =~= seq![digit_char(d as nat)]);
    s
}

/// Appends the decimal numeral of `n` to `out`.
fn push_decimal(out: &mut String, n: usize)
    ensures
        final(out)@ == old(out)@ + decimal(n as nat),
    decreases n,
{
    if n < 10 {
        out.append(digit_str(n as u8));
    } else {
        push_decimal(out, n / 10);
        out.append(digit_str((n % 10) as u8));
        assert(out@ =~= old(out)@ + decimal(n as nat));
    }
}

impl Error {
    /// Renders the error as a sentence.
    pub fn to_string(&self) -> (s: String)
        ensures
            s@ == message(*self),
    {
        match *self {
            Error::WrongEntriesLength { rows, cols, len } => {
                let mut s = String::new();
                s.append("entry array of size `");
                push_decimal(&mut s, len);
                s.append("` does not match matrix of size `");
                push_decimal(&mut s, rows);
                s.append("x");
                push_decimal(&mut s, cols);
                s.append("`");
                s
            },
        }
    }
}

} // verus!
