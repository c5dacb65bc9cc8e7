//! `Quality`: a preference weight between 0 and 1 in thousandths.
use vstd::prelude::*;

use crate::text::{digit_char, digit_str};

verus! {

/// The largest weight, in thousandths.
pub const MAX_QUALITY: u16 = 1000;

/// A preference weight: `Value(q)` is `q` thousandths; `Default` is the most
/// preferred weight, which is written as nothing.
#[derive(Debug, Clone, Copy, PartialEq, Eq, Structural)]
pub enum Quality {
    Value(u16),
    Default,
}

/// The digits after the decimal point of `q` thousandths, trailing zeros dropped.
pub open spec fn fraction_digits(q: u16) -> Seq<char> {
    let d1 = digit_char((q / 100) as nat);
    let d2 = digit_char(((q / 10) % 10) as nat);
    let d3 = digit_char((q % 10) as nat);
    if q % 10 != 0 {
        seq![d1, d2, d3]
    } else if q % 100 != 0 {
        seq![d1, d2]
    } else {
        seq![d1]
    }
}

/// `q` thousandths as the shortest decimal: `0`, `1`, or `0.` and the digits.
pub open spec fn weight_text(q: u16) -> Seq<char> {
    if q == 0 {
        seq!['0']
    } else if q == MAX_QUALITY {
        seq!['1']
    } else {
        seq!['0', '.'] + fraction_digits(q)
    }
}

/// The text of a weight: nothing for the default, `q=` and the weight
/// otherwise; a weight above one has none.
pub open spec fn quality_text(q: Quality) -> Option<Seq<char>> {
    match q {
        Quality::Default => Some(seq![]),
        Quality::Value(v) => if v > MAX_QUALITY {
            None
        } else {
            Some(seq!['q', '='] + weight_text(v))
        },
    }
}

impl Quality {
    /// The most preferred weight.
    pub fn most_preferred() -> (r: Quality)
        ensures
            r == Quality::Default,
    {
        Quality::Default
    }

    /// The least preferred weight, one thousandth.
    pub fn least_preferred() -> (r: Quality)
        ensures
            r == Quality::Value(1),
    {
        Quality::Value(1)
    }

    /// The weight of what is not acceptable, zero.
    pub fn not_acceptable() -> (r: Quality)
        ensures
            r == Quality::Value(0),
    {
        Quality::Value(0)
    }

    /// The weight of `q` thousandths; none above one.
    pub fn from_thousandths(q: u16) -> (r: Option<Quality>)
        ensures
            r == if q > MAX_QUALITY {
                None
            } else {
                Some(Quality::Value(q))
            },
    {
        if q > MAX_QUALITY {
            None
        } else {
            Some(Quality::Value(q))
        }
    }

    /// The header text of the weight, or none for a weight above one.
    pub fn to_header_string(&self) -> (r: Option<String>)
        ensures
            match r {
                Some(s) => quality_text(*self) == Some(s@),
                None => quality_text(*self) is None,
            },
    {
        proof {
            reveal_strlit("q=");
            reveal_strlit("0.");
            reveal_strlit("0");
            reveal_strlit("1");
        }
        match *self {
            Quality::Default => {
                let s = String::new();
                assert(s@ =~= seq![]);
                Some(s)
            },
            Quality::Value(q) => {
                if q > MAX_QUALITY {
                    return None;
                }
                let mut s = String::from_str("q=");
                if q == 0 {
                    s.append("0");
                } else if q == MAX_QUALITY {
                    s.append("1");
                } else {
                    s.append("0.");
                    s.append(digit_str((q / 100) as u64));
                    if q % 100 != 0 {
                        s.append(digit_str(((q / 10) % 10) as u64));
                        if q % 10 != 0 {
                            s.append(digit_str((q % 10) as u64));
                        }
                    }
                }
                assert(s@ =~= seq!['q', '='] + weight_text(q));
                Some(s)
            },
        }
    }
}

impl core::default::Default for Quality {
    fn default() -> (r: Quality)
        ensures
            r == Quality::Default,
    {
        Quality::Default
    }
}

} // verus!
