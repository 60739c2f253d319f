//! Decode errors and their human-readable messages.

use vstd::prelude::*;
use vstd::string::StringExecFns;

verus! {

/// Why a record could not be decoded.
#[derive(Debug, Clone, Copy, PartialEq, Eq, Structural)]
pub enum DecodeError {
    /// Fewer bytes are present than a field or the declared length needs;
    /// holds the number of bytes that were present.
    BufferTooShort(usize),
    /// No decoder is registered for the type tag; holds the tag.
    UnknownType(u8),
    /// The bytes are present but do not fit the type: the declared length
    /// disagrees with the layout. Holds the type's tag and the declared length.
    InvalidFieldEncoding { data_type: u8, length: u8 },
}

/// The decimal digit `d` as a character.
pub open spec fn digit_char(d: nat) -> char {
    if d == 0 {
        '0'
    } else if d == 1 {
        '1'
    } else if d == 2 {
        '2'
    } else if d == 3 {
        '3'
    } else if d == 4 {
        '4'
    } else if d == 5 {
        '5'
    } else if d == 6 {
        '6'
    } else if d == 7 {
        '7'
    } else if d == 8 {
        '8'
    } else {
        '9'
    }
}

/// `n` written in decimal, without leading zeros.
pub open spec fn decimal(n: nat) -> Seq<char>
    decreases n,
{
    if n < 10 {
        seq![digit_char(n)]
    } else {
        decimal(n / 10) + seq![digit_char(n % 10)]
    }
}

/// The text of a decode error.
pub open spec fn error_text(e: DecodeError) -> Seq<char> {
    match e {
        DecodeError::BufferTooShort(n) => "Invalid data size :"@ + decimal(n as nat),
        DecodeError::UnknownType(t) => "Unknown data type :"@ + decimal(t as nat),
        DecodeError::InvalidFieldEncoding { data_type, length } => "Invalid length :"@ + decimal(
            length as nat,
        ) + " for data type :"@ + decimal(data_type as nat),
    }
}

fn digit_str(d: u64) -> (r: &'static str)
    requires
        d < 10,
    ensures
        r@ == seq![digit_char(d as nat)],
{
    proof {
        reveal_strlit("0");
        reveal_strlit("1");
        reveal_strlit("2");
        reveal_strlit("3");
        reveal_strlit("4");
        reveal_strlit("5");
        reveal_strlit("6");
        reveal_strlit("7");
        reveal_strlit("8");
        reveal_strlit("9");
    }
    if d == 0 {
        "0"
    } else if d == 1 {
        "1"
    } else if d == 2 {
        "2"
    } else if d == 3 {
        "3"
    } else if d == 4 {
        "4"
    } else if d == 5 {
        "5"
    } else if d == 6 {
        "6"
    } else if d == 7 {
        "7"
    } else if d == 8 {
        "8"
    } else {
        "9"
    }
}

fn append_decimal(s: &mut String, n: u64)
    ensures
        final(s)@ == old(s)@ + decimal(n as nat),
    decreases n,
{
    if n >= 10 {
        append_decimal(s, n / 10);
    }
    s.append(digit_str(n % 10));
    proof {
        assert(old(s)@ + decimal(n as nat) =~= s@);
    }
}

impl DecodeError {
    /// The error as text, e.g. `Invalid data size :5`.
    pub fn message(&self) -> (r: String)
        ensures
            r@ == error_text(*self),
    {
        match *self {
            DecodeError::BufferTooShort(n) => {
                let mut s = String::from_str("Invalid data size :");
                append_decimal(&mut s, n as u64);
                s
            },
            DecodeError::UnknownType(t) => {
                let mut s = String::from_str("Unknown data type :");
                append_decimal(&mut s, t as u64);
                s
            },
            DecodeError::InvalidFieldEncoding { data_type, length } => {
                let mut s = String::from_str("Invalid length :");
                append_decimal(&mut s, length as u64);
                s.append(" for data type :");
                append_decimal(&mut s, data_type as u64);
                s
            },
        }
    }
}

} // verus!
