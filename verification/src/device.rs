//! Attached devices, and parsing the bridge tool's device listing.
//!
//! The listing is newline-delimited, tab-separated records of the form
//! `<serial>\t<state>`; a line that does not split into exactly two
//! tab-separated fields is skipped.

use vstd::prelude::*;

verus! {

/// A device attached to the bridge tool, identified by its serial number.
#[derive(Debug, Eq, PartialEq)]
pub struct AndroidDevice {
    pub serial: String,
}

impl AndroidDevice {
    /// The serial number shown to the user for this device.
    pub fn display_string(&self) -> (r: String)
        ensures
            r@ == self.serial@,
    {
        self.serial.clone()
    }
}

/// How many times `c` occurs in `s`.
pub open spec fn count_char(s: Seq<char>, c: char) -> int
    decreases s.len(),
{
    if s.len() == 0 {
        0
    } else {
        count_char(s.drop_last(), c) + if s.last() == c {
            1int
        } else {
            0int
        }
    }
}

/// Read one line of the device listing.
///
/// Returns the device exactly when the line splits into exactly two
/// tab-separated fields, and then its serial is the first field; any other
/// line is skipped.
pub fn parse_device_line(line: &str) -> (r: Option<AndroidDevice>)
    ensures
        r is Some <==> count_char(line@, '\t') == 1,
        r matches Some(d) ==> exists|k: int|
            0 <= k < line@.len() && line@[k] == '\t' && (forall|j: int|
                0 <= j < k ==> #[trigger] line@[j] != '\t') && d.serial@ == line@.subrange(0, k),
{
    let n = line.unicode_len();
    let mut tabs: usize = 0;
    let mut first: usize = 0;
    let mut i: usize = 0;
    while i < n
        invariant
            n == line@.len(),
            0 <= i <= n,
            tabs <= i,
            tabs as int == count_char(line@.subrange(0, i as int), '\t'),
            tabs > 0 ==> first < i && line@[first as int] == '\t' && (forall|j: int|
                0 <= j < first ==> #[trigger] line@[j] != '\t'),
            tabs == 0 ==> forall|j: int| 0 <= j < i ==> #[trigger] line@[j] != '\t',
        decreases n - i,
    {
        let c = line.get_char(i);
        proof {
            assert(line@.subrange(0, i + 1).drop_last() =~= line@.subrange(0, i as int));
            assert(line@.subrange(0, i + 1).last() == line@[i as int]);
        }
        if c == '\t' {
            if tabs == 0 {
                first = i;
            }
            tabs = tabs + 1;
        }
        i = i + 1;
    }
    proof {
        assert(line@.subrange(0, n as int) =~= line@);
    }
    if tabs == 1 {
        let serial_part = line.substring_char(0, first);
        Some(AndroidDevice { serial: String::from_str(serial_part) })
    } else {
        None
    }
}

} // verus!
