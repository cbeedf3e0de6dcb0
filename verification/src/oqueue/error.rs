//! The error for attaching a handle to an oqueue, and the texts it carries.

use vstd::prelude::*;

verus! {

/// An error for attaching a handle to an oqueue.
#[derive(Debug)]
pub enum OQueueAttachError {
    /// The type of oqueue does not support attachment of this kind.
    Unsupported {
        /// The name of the type which does not support the attachment.
        table_type: String,
    },
    /// An attachment slot of the given kind could not be allocated.
    AllocationFailed {
        /// The name of the type which could not allocate the attachment.
        table_type: String,
        /// The reason the allocation failed, for example, "only 4 strong observers supported".
        message: String,
    },
}

/// The decimal digit for `d < 10`.
pub open spec fn digit_char(d: nat) -> char {
    if d == 0 {
        '0'
    } else if d == 1 {
        '1'
    } else if d == 2 {
        '2'
    } else if d == 3 {
        '3'
    } else if d == 4 {
        '4'
    } else if d == 5 {
        '5'
    } else if d == 6 {
        '6'
    } else if d == 7 {
        '7'
    } else if d == 8 {
        '8'
    } else {
        '9'
    }
}

/// The decimal representation of `n`, most significant digit first, without leading zeros.
pub open spec fn decimal(n: nat) -> Seq<char>
    decreases n,
{
    if n < 10 {
        seq![digit_char(n)]
    } else {
        decimal(n / 10).push(digit_char(n % 10))
    }
}

/// The reason given when all `n` strong-observer slots of a queue are taken.
pub open spec fn slots_exhausted_text(n: nat) -> Seq<char> {
    "only "@ + decimal(n) + " strong observers supported"@
}

/// The decimal digit of `d < 10`, as a string.
fn digit_str(d: usize) -> (r: &'static str)
    requires
        d < 10,
    ensures
        r@ == seq![digit_char(d as nat)],
{
    match d {
        0 => {
            proof {
                reveal_strlit("0");
            }
            "0"
        },
        1 => {
            proof {
                reveal_strlit("1");
            }
            "1"
        },
        2 => {
            proof {
                reveal_strlit("2");
            }
            "2"
        },
        3 => {
            proof {
                reveal_strlit("3");
            }
            "3"
        },
        4 => {
            proof {
                reveal_strlit("4");
            }
            "4"
        },
        5 => {
            proof {
                reveal_strlit("5");
            }
            "5"
        },
        6 => {
            proof {
                reveal_strlit("6");
            }
            "6"
        },
        7 => {
            proof {
                reveal_strlit("7");
            }
            "7"
        },
        8 => {
            proof {
                reveal_strlit("8");
            }
            "8"
        },
        _ => {
            proof {
                reveal_strlit("9");
            }
            "9"
        },
    }
}

/// Append the decimal representation of `n` to `s`.
fn append_decimal(s: &mut String, n: usize)
    ensures
        final(s)@ == old(s)@ + decimal(n as nat),
    decreases n,
{
    if n >= 10 {
        append_decimal(s, n / 10);
    }
    let ghost before_last = s@;
    s.append(digit_str(n % 10));
    proof {
        if n >= 10 {
            assert(before_last == old(s)@ + decimal((n / 10) as nat));
            assert(decimal(n as nat) == decimal((n / 10) as nat).push(digit_char((n % 10) as nat)));
            assert(s@ =~= old(s)@ + decimal(n as nat));
        } else {
            assert(decimal(n as nat) == seq![digit_char(n as nat)]);
            assert(s@ =~= old(s)@ + decimal(n as nat));
        }
    }
}

/// The reason given when all `n` strong-observer slots of a queue are taken.
pub(crate) fn slots_exhausted_message(n: usize) -> (r: String)
    ensures
        r@ == slots_exhausted_text(n as nat),
{
    let prefix = "only ";
    let suffix = " strong observers supported";
    proof {
        reveal_strlit("only ");
        reveal_strlit(" strong observers supported");
    }
    let mut message = prefix.to_owned();
    append_decimal(&mut message, n);
    message.append(suffix);
    assert(message@ =~= slots_exhausted_text(n as nat));
    message
}

} // verus!
