//! Calendar dates in three notations, and how they are written out.

use crate::decimal::{decimal, push_decimal};
use vstd::prelude::*;
use vstd::string::StringExecFns;

verus! {

/// A calendar date, kept in the order of the notation that it came in.
#[derive(Debug, Clone, Copy, PartialEq, Eq)]
pub enum Date {
    /// Day, month, year.
    French(u8, u8, u16),
    /// Year, month, day.
    Us(u16, u8, u8),
    /// Year, month and day by name, with a time zone.
    Generic { year: u16, month: u8, day: u8, tz: &'static str },
}

impl Date {
    /// The year of the date.
    pub open spec fn year_of(self) -> u16 {
        match self {
            Date::French(_, _, y) => y,
            Date::Us(y, _, _) => y,
            Date::Generic { year, .. } => year,
        }
    }

    /// The month of the date.
    pub open spec fn month_of(self) -> u8 {
        match self {
            Date::French(_, m, _) => m,
            Date::Us(_, m, _) => m,
            Date::Generic { month, .. } => month,
        }
    }

    /// The day of the date.
    pub open spec fn day_of(self) -> u8 {
        match self {
            Date::French(d, _, _) => d,
            Date::Us(_, _, d) => d,
            Date::Generic { day, .. } => day,
        }
    }

    /// What [`Date::to_str`] returns: the three numbers in decimal, in the
    /// order of the date's own notation, with a slash between them; a generic
    /// date is written year first and is followed by a space and its time
    /// zone.
    pub open spec fn written(self) -> Seq<char> {
        match self {
            Date::French(d, m, y) => decimal(d as nat) + "/"@ + decimal(m as nat) + "/"@ + decimal(
                y as nat,
            ),
            Date::Us(y, m, d) => decimal(y as nat) + "/"@ + decimal(m as nat) + "/"@ + decimal(
                d as nat,
            ),
            Date::Generic { year, month, day, tz } => decimal(year as nat) + "/"@ + decimal(
                month as nat,
            ) + "/"@ + decimal(day as nat) + " "@ + tz@,
        }
    }

    /// What [`Date::iso`] returns: year, month and day in decimal, one after
    /// the other, with nothing between them and no padding.
    pub open spec fn iso_of(self) -> Seq<char> {
        decimal(self.year_of() as nat) + decimal(self.month_of() as nat) + decimal(
            self.day_of() as nat,
        )
    }

    /// The date in its own notation.
    pub fn to_str(&self) -> (text: String)
        ensures
            text@ == self.written(),
    {
        let mut text = String::new();
        match self {
            Date::French(d, m, y) => {
                push_decimal(&mut text, *d as u16);
                text.append("/");
                push_decimal(&mut text, *m as u16);
                text.append("/");
                push_decimal(&mut text, *y);
            },
            Date::Us(y, m, d) => {
                push_decimal(&mut text, *y);
                text.append("/");
                push_decimal(&mut text, *m as u16);
                text.append("/");
                push_decimal(&mut text, *d as u16);
            },
            Date::Generic { year: y, month: m, day: d, tz } => {
                push_decimal(&mut text, *y);
                text.append("/");
                push_decimal(&mut text, *m as u16);
                text.append("/");
                push_decimal(&mut text, *d as u16);
                text.append(" ");
                text.append(tz);
            },
        }
        text
    }

    /// The date with year, month and day run together.
    pub fn iso(&self) -> (text: String)
        ensures
            text@ == self.iso_of(),
    {
        let data: (u16, u8, u8) = match self {
            Date::French(d, m, y) => (*y, *m, *d),
            Date::Us(y, m, d) => (*y, *m, *d),
            Date::Generic { year: y, month: m, day: d, tz: _ } => (*y, *m, *d),
        };
        let mut text = String::new();
        push_decimal(&mut text, data.0);
        push_decimal(&mut text, data.1 as u16);
        push_decimal(&mut text, data.2 as u16);
        text
    }
}

} // verus!
