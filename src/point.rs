//! Points of the plane and days of the week.
use vstd::prelude::*;

verus! {

pub struct Point {
    pub x: i32,
    pub y: i32,
}

impl Point {
    /// The coordinate-wise sum of two points.
    pub fn add(&self, other: &Point) -> (r: Point)
        requires
            i32::MIN <= self.x + other.x <= i32::MAX,
            i32::MIN <= self.y + other.y <= i32::MAX,
        ensures
            r.x == self.x + other.x,
            r.y == self.y + other.y,
    {
        Point { x: self.x + other.x, y: self.y + other.y }
    }
}

#[derive(Debug, Clone, Copy, PartialEq, Eq, Structural)]
pub enum Day {
    Monday,
    Tuesday,
    Wednesday,
    Thursday,
    Friday,
    Saturday,
    Sunday,
}

/// The English name of a day of the week.
pub open spec fn is_day_name(s: Seq<char>) -> bool {
    s == "Monday"@ || s == "Tuesday"@ || s == "Wednesday"@ || s == "Thursday"@ || s == "Friday"@
        || s == "Saturday"@ || s == "Sunday"@
}

/// The name of the day after the day named `s`.
pub open spec fn next_day_name(s: Seq<char>) -> Seq<char> {
    if s == "Monday"@ {
        "Tuesday"@
    } else if s == "Tuesday"@ {
        "Wednesday"@
    } else if s == "Wednesday"@ {
        "Thursday"@
    } else if s == "Thursday"@ {
        "Friday"@
    } else if s == "Friday"@ {
        "Saturday"@
    } else if s == "Saturday"@ {
        "Sunday"@
    } else {
        "Monday"@
    }
}

fn is_name(s: &String, name: &str) -> (r: bool)
    ensures
        r == (s@ == name@),
{
    *s == name.to_owned()
}

/// The name of the day after the day named `today`.
pub fn day_after(today: String) -> (r: String)
    requires
        is_day_name(today@),
    ensures
        r@ == next_day_name(today@),
{
    if is_name(&today, "Monday") {
        "Tuesday".to_owned()
    } else if is_name(&today, "Tuesday") {
        "Wednesday".to_owned()
    } else if is_name(&today, "Wednesday") {
        "Thursday".to_owned()
    } else if is_name(&today, "Thursday") {
        "Friday".to_owned()
    } else if is_name(&today, "Friday") {
        "Saturday".to_owned()
    } else if is_name(&today, "Saturday") {
        "Sunday".to_owned()
    } else {
        "Monday".to_owned()
    }
}

/// The day after `today`.
pub fn day_after2(today: &Day) -> (r: Day)
    ensures
        r == (match *today {
            Day::Monday => Day::Tuesday,
            Day::Tuesday => Day::Wednesday,
            Day::Wednesday => Day::Thursday,
            Day::Thursday => Day::Friday,
            Day::Friday => Day::Saturday,
            Day::Saturday => Day::Sunday,
            Day::Sunday => Day::Monday,
        }),
{
    match today {
        Day::Monday => Day::Tuesday,
        Day::Tuesday => Day::Wednesday,
        Day::Wednesday => Day::Thursday,
        Day::Thursday => Day::Friday,
        Day::Friday => Day::Saturday,
        Day::Saturday => Day::Sunday,
        Day::Sunday => Day::Monday,
    }
}

} // verus!
