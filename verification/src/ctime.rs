//! Dates and times as the history shows them.
use vstd::prelude::*;
use vstd::string::StringExecFns;

use crate::text::{decimal_text, digits_of};

verus! {

/// A point in time in the local time zone, by its calendar fields.
#[derive(Clone, Copy, Debug, PartialEq, Eq, Structural)]
pub struct DateTime {
    pub year: i32,
    pub month: u8,
    pub day: u8,
    pub hour: u8,
    pub minute: u8,
    pub second: u8,
    pub millisecond: u16,
}

/// `k` zeros.
pub open spec fn zeros(k: int) -> Seq<char> {
    Seq::new(if k > 0 { k as nat } else { 0 }, |_i: int| '0')
}

/// `n` in decimal, padded with zeros after the sign to at least `width`
/// characters (`format!("{:0width$}", n)`).
pub open spec fn padded(n: int, width: int) -> Seq<char> {
    if n < 0 {
        let d = digits_of((-n) as nat);
        seq!['-'] + zeros(width - 1 - d.len()) + d
    } else {
        let d = digits_of(n as nat);
        zeros(width - d.len()) + d
    }
}

/// `YYYY-MM-DD hh:mm:ss.mmm`.
pub open spec fn date_time_text(t: DateTime) -> Seq<char> {
    padded(t.year as int, 4) + "-"@ + padded(t.month as int, 2) + "-"@ + padded(t.day as int, 2) + " "@ + padded(
        t.hour as int,
        2,
    ) + ":"@ + padded(t.minute as int, 2) + ":"@ + padded(t.second as int, 2) + "."@ + padded(t.millisecond as int, 3)
}

/// `n` in decimal, padded with zeros after the sign to at least `width`
/// characters.
pub fn padded_text(n: i64, width: usize) -> (s: String)
    ensures
        s@ == padded(n as int, width as int),
{
    let digits = decimal_text(n);
    let dv = crate::text::chars_of(digits.as_str());
    let neg = n < 0;
    let nd: usize = if neg { dv.len() - 1 } else { dv.len() };
    proof {
        if neg {
            assert(dv@ == seq!['-'] + digits_of((-n) as nat));
        }
    }
    let mut s = String::new();
    if neg {
        s.append("-");
    }
    let room: usize = if neg { if width >= 1 { width - 1 } else { 0 } } else { width };
    let mut k: usize = nd;
    proof {
        reveal_strlit("-");
        assert(zeros(0) =~= Seq::<char>::empty());
        assert(s@ =~= (if neg { seq!['-'] } else { Seq::<char>::empty() }) + zeros(k - nd));
    }
    while k < room
        invariant
            nd <= k,
            k <= room || room < nd,
            room < nd ==> k == nd,
            s@ == (if neg { seq!['-'] } else { Seq::<char>::empty() }) + zeros(k - nd),
        decreases room - k,
    {
        s.append("0");
        proof {
            reveal_strlit("0");
            assert(zeros(k + 1 - nd) =~= zeros(k - nd).push('0'));
        }
        k = k + 1;
    }
    let body = if neg {
        crate::text::string_of(dv.as_slice(), 1, dv.len())
    } else {
        crate::text::string_of(dv.as_slice(), 0, dv.len())
    };
    s.append(body.as_str());
    proof {
        reveal_strlit("-");
        if neg {
            assert(dv@.subrange(1, dv@.len() as int) =~= digits_of((-n) as nat));
            assert(zeros(k - nd) =~= zeros(width - 1 - digits_of((-n) as nat).len()));
        } else {
            assert(dv@ == digits_of(n as nat));
            assert(dv@.subrange(0, dv@.len() as int) =~= digits_of(n as nat));
            assert(zeros(k - nd) =~= zeros(width - digits_of(n as nat).len()));
        }
        assert(s@ =~= padded(n as int, width as int));
    }
    s
}

impl DateTime {
    /// The date and time as `YYYY-MM-DD hh:mm:ss.mmm` (what `Display`
    /// writes).
    pub fn to_text(&self) -> (s: String)
        ensures
            s@ == date_time_text(*self),
    {
        let mut s = padded_text(self.year as i64, 4);
        s.append("-");
        s.append(padded_text(self.month as i64, 2).as_str());
        s.append("-");
        s.append(padded_text(self.day as i64, 2).as_str());
        s.append(" ");
        s.append(padded_text(self.hour as i64, 2).as_str());
        s.append(":");
        s.append(padded_text(self.minute as i64, 2).as_str());
        s.append(":");
        s.append(padded_text(self.second as i64, 2).as_str());
        s.append(".");
        s.append(padded_text(self.millisecond as i64, 3).as_str());
        s
    }
}

} // verus!
