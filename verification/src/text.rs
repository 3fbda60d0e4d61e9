//! Verified decimal rendering: integers, two-decimal fixed-point values,
//! and the human-readable byte-count helper.

use vstd::prelude::*;
use vstd::string::StringExecFns;

verus! {

/// The decimal digit character for `d` (0 through 9).
pub open spec fn spec_digit_char(d: int) -> char {
    if d == 0 {
        '0'
    } else if d == 1 {
        '1'
    } else if d == 2 {
        '2'
    } else if d == 3 {
        '3'
    } else if d == 4 {
        '4'
    } else if d == 5 {
        '5'
    } else if d == 6 {
        '6'
    } else if d == 7 {
        '7'
    } else if d == 8 {
        '8'
    } else {
        '9'
    }
}

/// The decimal digits of `n`, most significant first, with no leading
/// zeros (a single zero for `n == 0`).
pub open spec fn spec_dec_digits(n: nat) -> Seq<char>
    decreases n,
{
    if n < 10 {
        seq![spec_digit_char(n as int)]
    } else {
        spec_dec_digits(n / 10).push(spec_digit_char((n % 10) as int))
    }
}

/// The single-character string for one decimal digit.
fn digit_str(d: u64) -> (r: &'static str)
    requires
        d < 10,
    ensures
        r@ == seq![spec_digit_char(d as int)],
{
    match d {
        0 => {
            proof {
                reveal_strlit("0");
                assert("0"@ =~= seq!['0']);
            }
            "0"
        },
        1 => {
            proof {
                reveal_strlit("1");
                assert("1"@ =~= seq!['1']);
            }
            "1"
        },
        2 => {
            proof {
                reveal_strlit("2");
                assert("2"@ =~= seq!['2']);
            }
            "2"
        },
        3 => {
            proof {
                reveal_strlit("3");
                assert("3"@ =~= seq!['3']);
            }
            "3"
        },
        4 => {
            proof {
                reveal_strlit("4");
                assert("4"@ =~= seq!['4']);
            }
            "4"
        },
        5 => {
            proof {
                reveal_strlit("5");
                assert("5"@ =~= seq!['5']);
            }
            "5"
        },
        6 => {
            proof {
                reveal_strlit("6");
                assert("6"@ =~= seq!['6']);
            }
            "6"
        },
        7 => {
            proof {
                reveal_strlit("7");
                assert("7"@ =~= seq!['7']);
            }
            "7"
        },
        8 => {
            proof {
                reveal_strlit("8");
                assert("8"@ =~= seq!['8']);
            }
            "8"
        },
        _ => {
            proof {
                reveal_strlit("9");
                assert("9"@ =~= seq!['9']);
            }
            "9"
        },
    }
}

/// Renders `n` in decimal.
pub fn dec_string(n: u128) -> (s: String)
    ensures
        s@ == spec_dec_digits(n as nat),
    decreases n,
{
    if n < 10 {
        digit_str(n as u64).to_owned()
    } else {
        let mut s = dec_string(n / 10);
        s.append(digit_str((n % 10) as u64));
        proof {
            assert(s@ =~= spec_dec_digits((n / 10) as nat).push(
                spec_digit_char((n % 10) as int),
            ));
        }
        s
    }
}

/// The text of a quantity of hundredths, written with exactly two
/// decimal places: `h == 15000` renders as `150.00`.
pub open spec fn spec_hundredths_chars(h: int) -> Seq<char> {
    spec_dec_digits((h / 100) as nat) + seq!['.'] + seq![spec_digit_char(h % 100 / 10)] + seq![
        spec_digit_char(h % 10),
    ]
}

/// Renders a quantity of hundredths with two decimal places.
pub fn hundredths_string(h: u128) -> (s: String)
    ensures
        s@ == spec_hundredths_chars(h as int),
{
    let int_part: u128 = h / 100;
    let frac: u128 = h % 100;
    let mut s = dec_string(int_part);
    proof {
        reveal_strlit(".");
        assert("."@ =~= seq!['.']);
    }
    s.append(".");
    s.append(digit_str((frac / 10) as u64));
    s.append(digit_str((frac % 10) as u64));
    proof {
        assert(s@ =~= spec_hundredths_chars(h as int));
    }
    s
}

/// Half-up rounding of the quotient `num / den`.
pub open spec fn spec_round_div(num: int, den: int) -> int {
    (num + den / 2) / den
}

/// A fixed-point count of thousandths, rounded to hundredths and written
/// with two decimal places: `150000` thousandths render as `150.00`.
pub open spec fn spec_milli_chars(v: int) -> Seq<char> {
    spec_hundredths_chars((v + 5) / 10)
}

/// Renders a fixed-point count of thousandths with two decimal places.
pub fn milli_string(v: u64) -> (s: String)
    ensures
        s@ == spec_milli_chars(v as int),
{
    let h: u64 = v / 10 + (if v % 10 >= 5 {
        1
    } else {
        0
    });
    assert(h == (v + 5) / 10);
    hundredths_string(h as u128)
}

/// The scale the byte-count helper divides by: 1, 1024, 1024^2 or 1024^3.
pub open spec fn spec_unit_divisor(u: int) -> int {
    if u == 0 {
        1
    } else if u == 1 {
        1024
    } else if u == 2 {
        1048576
    } else {
        1073741824
    }
}

/// The unit a byte count is written in: bytes, kibi-, mebi- or gibibytes,
/// the largest unit that keeps the integer part non-zero, capped at GB.
pub open spec fn spec_unit_index(bytes: int) -> int {
    if bytes >= 1073741824 {
        3
    } else if bytes >= 1048576 {
        2
    } else if bytes >= 1024 {
        1
    } else {
        0
    }
}

/// The suffix for each byte unit.
pub open spec fn spec_unit_suffix(u: int) -> Seq<char> {
    if u == 0 {
        " B"@
    } else if u == 1 {
        " KB"@
    } else if u == 2 {
        " MB"@
    } else {
        " GB"@
    }
}

/// The human-readable rendering of a byte count: the count scaled to the
/// unit chosen by `spec_unit_index`, rounded half-up to hundredths, with
/// two decimal places and the unit suffix.
pub open spec fn spec_format_bytes(bytes: int) -> Seq<char> {
    spec_hundredths_chars(
        spec_round_div(bytes * 100, spec_unit_divisor(spec_unit_index(bytes))),
    ) + spec_unit_suffix(spec_unit_index(bytes))
}

/// Converts a byte count to a human-readable string, e.g. `1.00 KB`.
pub fn format_bytes(bytes: u64) -> (s: String)
    ensures
        s@ == spec_format_bytes(bytes as int),
{
    let div: u64 = if bytes >= 1073741824 {
        1073741824
    } else if bytes >= 1048576 {
        1048576
    } else if bytes >= 1024 {
        1024
    } else {
        1
    };
    let suffix: &'static str = if bytes >= 1073741824 {
        " GB"
    } else if bytes >= 1048576 {
        " MB"
    } else if bytes >= 1024 {
        " KB"
    } else {
        " B"
    };
    let num: u128 = (bytes as u128) * 100 + (div as u128) / 2;
    let h: u128 = num / (div as u128);
    let mut s = hundredths_string(h);
    s.append(suffix);
    proof {
        assert(s@ =~= spec_format_bytes(bytes as int));
    }
    s
}

} // verus!
