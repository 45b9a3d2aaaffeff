use vstd::prelude::*;

use vstd::string::StringExecFns;

verus! {

/// The decimal digit characters of `v`, most significant first.
pub open spec fn decimal_digits(v: nat) -> Seq<char>
    decreases v,
{
    if v < 10 {
        seq![digit_char(v)]
    } else {
        decimal_digits(v / 10).push(digit_char(v % 10))
    }
}

/// The character for one decimal digit.
pub open spec fn digit_char(d: nat) -> char {
    if d == 0 {
        '0'
    } else if d == 1 {
        '1'
    } else if d == 2 {
        '2'
    } else if d == 3 {
        '3'
    } else if d == 4 {
        '4'
    } else if d == 5 {
        '5'
    } else if d == 6 {
        '6'
    } else if d == 7 {
        '7'
    } else if d == 8 {
        '8'
    } else {
        '9'
    }
}

fn digit_str(d: u64) -> (r: &'static str)
    requires
        d < 10,
    ensures
        r@ == seq![digit_char(d as nat)],
{
    proof {
        reveal_strlit("0");
        reveal_strlit("1");
        reveal_strlit("2");
        reveal_strlit("3");
        reveal_strlit("4");
        reveal_strlit("5");
        reveal_strlit("6");
        reveal_strlit("7");
        reveal_strlit("8");
        reveal_strlit("9");
    }
    match d {
        0 => "0",
        1 => "1",
        2 => "2",
        3 => "3",
        4 => "4",
        5 => "5",
        6 => "6",
        7 => "7",
        8 => "8",
        _ => "9",
    }
}

/// The decimal representation of `v`.
pub fn decimal_string(v: u64) -> (r: String)
    ensures
        r@ == decimal_digits(v as nat),
    decreases v,
{
    if v < 10 {
        let s = digit_str(v);
        s.to_owned()
    } else {
        let mut s = decimal_string(v / 10);
        s.append(digit_str(v % 10));
        proof {
            assert(s@ =~= decimal_digits(v as nat));
        }
        s
    }
}

/// The message reported when a numeric boolean field holds an integer other
/// than 0 or 1.
pub open spec fn invalid_value_message(v: nat) -> Seq<char> {
    "invalid value: integer `"@ + decimal_digits(v) + "`, expected either 0 or 1"@
}

/// A numeric boolean field failed its domain-specific coercion: the integer
/// was neither 0 nor 1. The whole import is aborted on such a record.
#[derive(Clone, Copy, Debug, PartialEq, Eq, Structural)]
pub struct NumericBoolError {
    pub value: u64,
}

impl NumericBoolError {
    /// The error rendered for diagnostics, naming the offending integer.
    pub fn message(&self) -> (r: String)
        ensures
            r@ == invalid_value_message(self.value as nat),
    {
        let mut s = "invalid value: integer `".to_owned();
        s.append(decimal_string(self.value).as_str());
        s.append("`, expected either 0 or 1");
        s
    }
}

/// Coerces a numeric boolean field: 0 is false, 1 is true, and any other
/// integer value is a decoding error naming the value.
pub fn numeric_bool(value: u64) -> (r: Result<bool, NumericBoolError>)
    ensures
        value == 0 ==> r == Ok::<bool, NumericBoolError>(false),
        value == 1 ==> r == Ok::<bool, NumericBoolError>(true),
        value > 1 ==> r == Err::<bool, NumericBoolError>((NumericBoolError { value })),
{
    match value {
        0 => Ok(false),
        1 => Ok(true),
        _ => Err(NumericBoolError { value }),
    }
}

} // verus!
