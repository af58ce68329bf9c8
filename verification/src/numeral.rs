//! Verified decimal rendering for the report's numeric cells.

use vstd::prelude::*;
use vstd::string::StringExecFns;

verus! {

/// The decimal digit character for a value below ten.
pub open spec fn digit_char(d: nat) -> char {
    if d == 0 {
        '0'
    } else if d == 1 {
        '1'
    } else if d == 2 {
        '2'
    } else if d == 3 {
        '3'
    } else if d == 4 {
        '4'
    } else if d == 5 {
        '5'
    } else if d == 6 {
        '6'
    } else if d == 7 {
        '7'
    } else if d == 8 {
        '8'
    } else {
        '9'
    }
}

/// The decimal digits of `v`, most significant first.
pub open spec fn dec_digits(v: nat) -> Seq<char>
    decreases v,
{
    if v < 10 {
        seq![digit_char(v)]
    } else {
        dec_digits(v / 10) + seq![digit_char(v % 10)]
    }
}

/// A quantity of tenths rendered with one decimal place.
pub open spec fn tenths_label(t: nat) -> Seq<char> {
    dec_digits(t / 10) + seq!['.'] + seq![digit_char(t % 10)]
}

/// A quantity of hundredths rendered with two decimal places.
pub open spec fn hundredths_label(h: nat) -> Seq<char> {
    dec_digits(h / 100) + seq!['.'] + seq![digit_char((h / 10) % 10), digit_char(h % 10)]
}

/// One digit as a string slice.
fn digit_str(d: u128) -> (r: &'static str)
    requires
        d < 10,
    ensures
        r@ == seq![digit_char(d as nat)],
{
    match d {
        0 => {
            proof {
                reveal_strlit("0");
                assert("0"@ =~= seq![digit_char(0nat)]);
            }
            "0"
        },
        1 => {
            proof {
                reveal_strlit("1");
                assert("1"@ =~= seq![digit_char(1nat)]);
            }
            "1"
        },
        2 => {
            proof {
                reveal_strlit("2");
                assert("2"@ =~= seq![digit_char(2nat)]);
            }
            "2"
        },
        3 => {
            proof {
                reveal_strlit("3");
                assert("3"@ =~= seq![digit_char(3nat)]);
            }
            "3"
        },
        4 => {
            proof {
                reveal_strlit("4");
                assert("4"@ =~= seq![digit_char(4nat)]);
            }
            "4"
        },
        5 => {
            proof {
                reveal_strlit("5");
                assert("5"@ =~= seq![digit_char(5nat)]);
            }
            "5"
        },
        6 => {
            proof {
                reveal_strlit("6");
                assert("6"@ =~= seq![digit_char(6nat)]);
            }
            "6"
        },
        7 => {
            proof {
                reveal_strlit("7");
                assert("7"@ =~= seq![digit_char(7nat)]);
            }
            "7"
        },
        8 => {
            proof {
                reveal_strlit("8");
                assert("8"@ =~= seq![digit_char(8nat)]);
            }
            "8"
        },
        _ => {
            proof {
                reveal_strlit("9");
                assert("9"@ =~= seq![digit_char(d as nat)]);
            }
            "9"
        },
    }
}

/// The decimal rendering of `v`.
pub fn u128_to_string(v: u128) -> (r: String)
    ensures
        r@ == dec_digits(v as nat),
    decreases v,
{
    if v < 10 {
        digit_str(v).to_owned()
    } else {
        let mut s = u128_to_string(v / 10);
        s.append(digit_str(v % 10));
        s
    }
}

/// The decimal rendering of `v`.
pub fn u64_to_string(v: u64) -> (r: String)
    ensures
        r@ == dec_digits(v as nat),
{
    u128_to_string(v as u128)
}

/// Render a quantity of tenths with one decimal place.
pub fn render_tenths(t: u128) -> (r: String)
    ensures
        r@ == tenths_label(t as nat),
{
    let mut s = u128_to_string(t / 10);
    proof {
        reveal_strlit(".");
        assert("."@ =~= seq!['.']);
    }
    s.append(".");
    s.append(digit_str(t % 10));
    s
}

/// Render a quantity of hundredths with two decimal places.
pub fn render_hundredths(h: u128) -> (r: String)
    ensures
        r@ == hundredths_label(h as nat),
{
    let mut s = u128_to_string(h / 100);
    proof {
        reveal_strlit(".");
        assert("."@ =~= seq!['.']);
    }
    s.append(".");
    s.append(digit_str((h / 10) % 10));
    s.append(digit_str(h % 10));
    s
}

/// Render a value padded to two digits, for the month and day of a date.
pub fn render_two_digits(v: u32) -> (r: String)
    requires
        v < 100,
    ensures
        r@ == seq![digit_char((v / 10) as nat), digit_char((v % 10) as nat)],
{
    let mut s = digit_str((v / 10) as u128).to_owned();
    s.append(digit_str((v % 10) as u128));
    s
}

} // verus!
