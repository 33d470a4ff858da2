//! The battery whose charge thresholds are read and changed.

use vstd::prelude::*;
use vstd::string::*;
use crate::decimal::{chars_of, digit_char, gstring_to_u8, law_parse_of_decimal, decimal_digits, parse_u8, spec_parse_u8, u8_to_decimal, U8ParseError};
use crate::listing::{bat_lines, contains_bat, has_bat, lemma_last_line, lemma_next_line, lines_of, strip_cr};

verus! {

/// A laptop battery as seen under `/sys/class/power_supply/`: the batteries
/// found there, the chosen one, and its charge thresholds (the percentages at
/// which charging starts and stops), both as read and as wanted.
#[derive(Debug)]
pub struct Battery {
    pub bat_list: Vec<String>,
    pub bat_name: String,
    pub bat_start_thrs_init: u8,
    pub bat_end_thrs_init: u8,
    pub bat_start_thrs: u8,
    pub bat_end_thrs: u8,
    pub bat_status: String,
    pub bat_capacity: String,
}

/// One of the two kernel files that hold a charge threshold.
#[derive(Debug, Clone, Copy, PartialEq, Eq, Structural)]
pub enum ThresholdFile {
    /// `charge_control_start_threshold`: charging starts below this percentage.
    Start,
    /// `charge_control_end_threshold`: charging stops at this percentage.
    End,
}

/// The name of the file that holds the threshold.
pub open spec fn threshold_property(file: ThresholdFile) -> Seq<char> {
    match file {
        ThresholdFile::Start => "charge_control_start_threshold"@,
        ThresholdFile::End => "charge_control_end_threshold"@,
    }
}

impl ThresholdFile {
    /// The name of the file under the battery's directory.
    pub fn property_name(&self) -> (r: &'static str)
        ensures
            r@ == threshold_property(*self),
    {
        match self {
            ThresholdFile::Start => "charge_control_start_threshold",
            ThresholdFile::End => "charge_control_end_threshold",
        }
    }
}

/// The path of the property file `property` of the power supply `bat_name`.
pub open spec fn power_supply_path(bat_name: Seq<char>, property: Seq<char>) -> Seq<char> {
    "/sys/class/power_supply/"@ + bat_name + "/"@ + property
}

/// The shell command that writes `value` into the property file `property`
/// of the power supply `bat_name` with root rights.
pub open spec fn tee_command(value: Seq<char>, bat_name: Seq<char>, property: Seq<char>) -> Seq<char> {
    "echo "@ + value + " | sudo tee "@ + power_supply_path(bat_name, property)
}

/// The wanted threshold of `file`.
pub open spec fn wanted_threshold(b: Battery, file: ThresholdFile) -> u8 {
    match file {
        ThresholdFile::Start => b.bat_start_thrs,
        ThresholdFile::End => b.bat_end_thrs,
    }
}

/// The order in which the two threshold files are written: the start file
/// first when the wanted end lies below the start read from the kernel, the
/// end file first otherwise.
pub open spec fn spec_write_order(b: Battery) -> (ThresholdFile, ThresholdFile) {
    if b.bat_end_thrs < b.bat_start_thrs_init {
        (ThresholdFile::Start, ThresholdFile::End)
    } else {
        (ThresholdFile::End, ThresholdFile::Start)
    }
}

/// The kernel's (start, end) thresholds after `value` is written into `file`.
pub open spec fn after_write(state: (u8, u8), file: ThresholdFile, value: u8) -> (u8, u8) {
    match file {
        ThresholdFile::Start => (value, state.1),
        ThresholdFile::End => (state.0, value),
    }
}

/// The kernel's thresholds after the first, and after both, of the writes
/// that change the thresholds read into the wanted ones.
pub open spec fn thresholds_after_first_write(b: Battery) -> (u8, u8) {
    let first = spec_write_order(b).0;
    after_write((b.bat_start_thrs_init, b.bat_end_thrs_init), first, wanted_threshold(b, first))
}

pub open spec fn thresholds_after_both_writes(b: Battery) -> (u8, u8) {
    let (first, last) = spec_write_order(b);
    after_write(thresholds_after_first_write(b), last, wanted_threshold(b, last))
}

/// Writing the two threshold files in the library's order never leaves the
/// kernel with a start above the end on the way, when both the thresholds
/// read and the thresholds wanted have the start at most the end; and the
/// two writes together give the wanted thresholds.
pub proof fn law_write_order_keeps_start_le_end(b: Battery)
    requires
        b.bat_start_thrs_init <= b.bat_end_thrs_init,
        b.bat_start_thrs <= b.bat_end_thrs,
    ensures
        thresholds_after_first_write(b).0 <= thresholds_after_first_write(b).1,
        thresholds_after_both_writes(b) == (b.bat_start_thrs, b.bat_end_thrs),
{
}

impl Battery {
    /// The battery state for a power-supply directory listing: every listed
    /// entry that holds `BAT`, the first of them chosen (none when there is
    /// none), thresholds zero and status and capacity empty.
    pub fn new(listing: &str) -> (r: Self)
        ensures
            r.bat_list.deep_view() == bat_lines(listing@),
            r.bat_name@ == (if bat_lines(listing@).len() > 0 {
                bat_lines(listing@)[0]
            } else {
                Seq::<char>::empty()
            }),
            r.bat_start_thrs_init == 0,
            r.bat_end_thrs_init == 0,
            r.bat_start_thrs == 0,
            r.bat_end_thrs == 0,
            r.bat_status@ == Seq::<char>::empty(),
            r.bat_capacity@ == Seq::<char>::empty(),
    {
        let mut battery_list: Vec<String> = Vec::new();
        Self::get_bat_list(&mut battery_list, listing);
        let bat_name = if battery_list.len() > 0 {
            let first = battery_list[0].clone();
            assert(battery_list.deep_view()[0] == battery_list@[0]@);
            first
        } else {
            String::new()
        };
        Battery {
            bat_list: battery_list,
            bat_name,
            bat_end_thrs_init: 0,
            bat_start_thrs_init: 0,
            bat_start_thrs: 0,
            bat_end_thrs: 0,
            bat_status: String::new(),
            bat_capacity: String::new(),
        }
    }

    /// The names of the batteries found, as string slices, in order.
    pub fn get_bat_name_strings(&self) -> (r: Vec<&str>)
        ensures
            r.deep_view() == self.bat_list.deep_view(),
    {
        let mut r: Vec<&str> = Vec::new();
        let n = self.bat_list.len();
        for i in 0..n
            invariant
                n == self.bat_list.len(),
                r.len() == i,
                forall|j: int| 0 <= j < i ==> #[trigger] r@[j]@ == self.bat_list@[j]@,
        {
            r.push(self.bat_list[i].as_str());
        }
        assert(r.deep_view() =~= self.bat_list.deep_view());
        r
    }

    /// Chooses the battery named `name`; nothing else changes.
    pub fn change_bat_name(&mut self, name: String)
        ensures
            final(self).bat_name == name,
            final(self).bat_list == old(self).bat_list,
            final(self).bat_start_thrs_init == old(self).bat_start_thrs_init,
            final(self).bat_end_thrs_init == old(self).bat_end_thrs_init,
            final(self).bat_start_thrs == old(self).bat_start_thrs,
            final(self).bat_end_thrs == old(self).bat_end_thrs,
            final(self).bat_status == old(self).bat_status,
            final(self).bat_capacity == old(self).bat_capacity,
    {
        self.bat_name = name;
    }

    /// Replaces the contents of `bat_list` with the lines of the
    /// power-supply directory listing `listing` that hold `BAT`, in order.
    pub fn get_bat_list(bat_list: &mut Vec<String>, listing: &str)
        ensures
            final(bat_list).deep_view() == bat_lines(listing@),
    {
        bat_list.clear();
        let v = chars_of(listing);
        let n = v.len();
        let ghost s = listing@;
        let ghost p = |x: Seq<char>| contains_bat(x);
        let mut start: usize = 0;
        let mut i: usize = 0;
        assert(s.skip(0) =~= s);
        assert(bat_list.deep_view() =~= Seq::<Seq<char>>::empty());
        while i < n
            invariant
                start <= i <= n,
                n == v@.len(),
                v@ == s,
                s == listing@,
                p == |x: Seq<char>| contains_bat(x),
                forall|t: int| start <= t < i ==> s[t] != '\n',
                bat_list.deep_view() + lines_of(s.skip(start as int)).filter(p) == lines_of(s).filter(p),
            decreases n - i,
        {
            if v[i] == '\n' {
                let end: usize = if i > start && v[i - 1] == '\r' { i - 1 } else { i };
                let ghost line = strip_cr(s.subrange(start as int, i as int));
                proof {
                    lemma_next_line(s, start as int, i as int);
                    assert(line =~= v@.subrange(start as int, end as int));
                }
                let ghost before = bat_list.deep_view();
                if has_bat(&v, start, end) {
                    let l = String::from_str(listing.substring_char(start, end));
                    bat_list.push(l);
                    assert(bat_list.deep_view() =~= before + seq![line]);
                    assert(bat_list.deep_view() + lines_of(s.skip(i + 1)).filter(p) =~= before + lines_of(s.skip(start as int)).filter(p));
                } else {
                    assert(before + lines_of(s.skip(i + 1)).filter(p) =~= before + lines_of(s.skip(start as int)).filter(p));
                }
                start = i + 1;
            }
            i = i + 1;
        }
        let ghost before = bat_list.deep_view();
        if start < n {
            proof {
                lemma_last_line(s, start as int);
            }
            if has_bat(&v, start, n) {
                let l = String::from_str(listing.substring_char(start, n));
                bat_list.push(l);
                assert(bat_list.deep_view() =~= before + lines_of(s.skip(start as int)).filter(p));
            } else {
                assert(before =~= before + lines_of(s.skip(start as int)).filter(p));
            }
        } else {
            assert(s.skip(start as int) =~= Seq::<char>::empty());
            reveal(Seq::filter);
            assert(before =~= before + lines_of(s.skip(start as int)).filter(p));
        }
    }

    /// The path of the property file `property_name` of the chosen battery.
    pub fn property_path(&self, property_name: &str) -> (r: String)
        ensures
            r@ == power_supply_path(self.bat_name@, property_name@),
    {
        let mut r = String::from_str("/sys/class/power_supply/");
        r.append(self.bat_name.as_str());
        r.append("/");
        r.append(property_name);
        r
    }

    /// The path of one of the chosen battery's threshold files.
    pub fn threshold_file_path(&self, file: ThresholdFile) -> (r: String)
        ensures
            r@ == power_supply_path(self.bat_name@, threshold_property(file)),
    {
        self.property_path(file.property_name())
    }

    /// The command that writes `new_value` into the property file
    /// `property_name` of the chosen battery.
    pub fn bat_property_command(&self, property_name: &str, new_value: &str) -> (r: String)
        ensures
            r@ == tee_command(new_value@, self.bat_name@, property_name@),
            r@ == "echo "@ + new_value@ + " | sudo tee "@ + "/sys/class/power_supply/"@
                + self.bat_name@ + "/"@ + property_name@,
    {
        let mut r = String::from_str("echo ");
        r.append(new_value);
        r.append(" | sudo tee ");
        let path = self.property_path(property_name);
        r.append(path.as_str());
        assert(r@ =~= tee_command(new_value@, self.bat_name@, property_name@));
        r
    }

    /// Which threshold file is written first and which last.
    pub fn threshold_write_order(&self) -> (r: (ThresholdFile, ThresholdFile))
        ensures
            r == spec_write_order(*self),
    {
        if self.bat_end_thrs < self.bat_start_thrs_init {
            (ThresholdFile::Start, ThresholdFile::End)
        } else {
            (ThresholdFile::End, ThresholdFile::Start)
        }
    }

    /// The command that writes the wanted threshold into `file`.
    pub fn threshold_command(&self, file: ThresholdFile) -> (r: String)
        ensures
            r@ == tee_command(
                decimal_digits(wanted_threshold(*self, file) as nat),
                self.bat_name@,
                threshold_property(file),
            ),
            spec_parse_u8(
                r@.subrange(5, 5 + decimal_digits(wanted_threshold(*self, file) as nat).len() as int),
            ) == Ok::<u8, U8ParseError>(wanted_threshold(*self, file)),
    {
        proof {
            law_threshold_command_value(wanted_threshold(*self, file), self.bat_name@, file);
        }
        let value = match file {
            ThresholdFile::Start => u8_to_decimal(self.bat_start_thrs),
            ThresholdFile::End => u8_to_decimal(self.bat_end_thrs),
        };
        self.bat_property_command(file.property_name(), value.as_str())
    }

    /// The two commands that set the kernel's thresholds to the wanted ones,
    /// the one to run first and the one to run last.
    pub fn threshold_commands(&self) -> (r: (String, String))
        ensures
            r.0@ == tee_command(
                decimal_digits(wanted_threshold(*self, spec_write_order(*self).0) as nat),
                self.bat_name@,
                threshold_property(spec_write_order(*self).0),
            ),
            r.1@ == tee_command(
                decimal_digits(wanted_threshold(*self, spec_write_order(*self).1) as nat),
                self.bat_name@,
                threshold_property(spec_write_order(*self).1),
            ),
    {
        let (first, last) = self.threshold_write_order();
        (self.threshold_command(first), self.threshold_command(last))
    }

    /// Reads the kernel's stop-charging threshold from the text of its file,
    /// without its trailing line feed (if any). When the rest is a
    /// `u8`, both the wanted and the read end threshold become it; otherwise
    /// nothing changes.
    pub fn get_bat_end_threshold(&mut self, contents: &str) -> (r: Result<u8, U8ParseError>)
        requires
            contents@.len() > 0,
        ensures
            r == spec_parse_u8(strip_line_feed(contents@)),
            contents@.last() == '\n' ==> r == spec_parse_u8(contents@.drop_last()),
            contents@.last() != '\n' ==> r == spec_parse_u8(contents@),
            r matches Ok(v) ==> final(self).bat_end_thrs == v && final(self).bat_end_thrs_init == v,
            r is Err ==> final(self).bat_end_thrs == old(self).bat_end_thrs
                && final(self).bat_end_thrs_init == old(self).bat_end_thrs_init,
            final(self).bat_start_thrs == old(self).bat_start_thrs,
            final(self).bat_start_thrs_init == old(self).bat_start_thrs_init,
            final(self).bat_list == old(self).bat_list,
            final(self).bat_name == old(self).bat_name,
            final(self).bat_status == old(self).bat_status,
            final(self).bat_capacity == old(self).bat_capacity,
    {
        let r = parse_u8(without_line_feed(contents));
        if let Ok(value) = r {
            self.bat_end_thrs = value;
            self.bat_end_thrs_init = value;
        }
        r
    }

    /// Reads the kernel's start-charging threshold from the text of its file,
    /// without its trailing line feed (if any). When the rest is a
    /// `u8`, both the wanted and the read start threshold become it;
    /// otherwise nothing changes.
    pub fn get_bat_start_threshold(&mut self, contents: &str) -> (r: Result<u8, U8ParseError>)
        requires
            contents@.len() > 0,
        ensures
            r == spec_parse_u8(strip_line_feed(contents@)),
            contents@.last() == '\n' ==> r == spec_parse_u8(contents@.drop_last()),
            contents@.last() != '\n' ==> r == spec_parse_u8(contents@),
            r matches Ok(v) ==> final(self).bat_start_thrs == v && final(self).bat_start_thrs_init == v,
            r is Err ==> final(self).bat_start_thrs == old(self).bat_start_thrs
                && final(self).bat_start_thrs_init == old(self).bat_start_thrs_init,
            final(self).bat_end_thrs == old(self).bat_end_thrs,
            final(self).bat_end_thrs_init == old(self).bat_end_thrs_init,
            final(self).bat_list == old(self).bat_list,
            final(self).bat_name == old(self).bat_name,
            final(self).bat_status == old(self).bat_status,
            final(self).bat_capacity == old(self).bat_capacity,
    {
        let r = parse_u8(without_line_feed(contents));
        if let Ok(value) = r {
            self.bat_start_thrs = value;
            self.bat_start_thrs_init = value;
        }
        r
    }
}

/// `s` without one trailing line feed, when it ends with one.
pub open spec fn strip_line_feed(s: Seq<char>) -> Seq<char> {
    if s.len() > 0 && s.last() == '\n' {
        s.drop_last()
    } else {
        s
    }
}

/// `s` without one trailing line feed, when it ends with one.
pub fn without_line_feed(s: &str) -> (r: &str)
    ensures
        r@ == strip_line_feed(s@),
        s@.len() > 0 && s@.last() == '\n' ==> r@ == s@.drop_last(),
        s@.len() == 0 || s@.last() != '\n' ==> r@ == s@,
{
    let n = s.unicode_len();
    if n > 0 && s.get_char(n - 1) == '\n' {
        s.substring_char(0, n - 1)
    } else {
        s
    }
}

/// `b` with the wanted threshold of `file` set to `v`.
pub open spec fn spec_set_wanted(b: Battery, file: ThresholdFile, v: u8) -> Battery {
    match file {
        ThresholdFile::Start => Battery { bat_start_thrs: v, ..b },
        ThresholdFile::End => Battery { bat_end_thrs: v, ..b },
    }
}

impl Battery {
    /// Sets the wanted threshold of `file` from the text of its entry field.
    /// When the text is a `u8` that threshold becomes it; otherwise nothing
    /// changes and the error names the text.
    pub fn set_wanted_threshold(&mut self, file: ThresholdFile, text: &str) -> (r: Result<u8, String>)
        ensures
            match spec_parse_u8(text@) {
                Ok(v) => r == Ok::<u8, String>(v) && *final(self) == spec_set_wanted(*old(self), file, v),
                Err(_) => (r matches Err(m) && m@ == "Failed to convert '"@ + text@ + "' to u8"@)
                    && *final(self) == *old(self),
            },
            r matches Ok(v) ==> wanted_threshold(*final(self), file) == v,
            r matches Ok(v) ==> match file {
                ThresholdFile::Start => final(self).bat_start_thrs == v && final(self).bat_end_thrs
                    == old(self).bat_end_thrs,
                ThresholdFile::End => final(self).bat_end_thrs == v && final(self).bat_start_thrs
                    == old(self).bat_start_thrs,
            },
            final(self).bat_start_thrs_init == old(self).bat_start_thrs_init,
            final(self).bat_end_thrs_init == old(self).bat_end_thrs_init,
            final(self).bat_name == old(self).bat_name,
            final(self).bat_list == old(self).bat_list,
    {
        proof {
            law_set_wanted_stores(*old(self), file, 0);
        }
        let r = gstring_to_u8(text);
        if let Ok(value) = r {
            match file {
                ThresholdFile::Start => self.bat_start_thrs = value,
                ThresholdFile::End => self.bat_end_thrs = value,
            }
        }
        r
    }
}

/// A threshold command is `echo `, the value unchanged, then ` | sudo tee `
/// and the property file's path: the value can be read back from it whole.
pub proof fn law_command_carries_value(value: Seq<char>, bat_name: Seq<char>, property: Seq<char>)
    ensures
        tee_command(value, bat_name, property).subrange(0, 5) == "echo "@,
        tee_command(value, bat_name, property).subrange(5, 5 + value.len() as int) == value,
        tee_command(value, bat_name, property).skip(5 + value.len() as int) == " | sudo tee /sys/class/power_supply/"@
            + bat_name + "/"@ + property,
{
    reveal_strlit("echo ");
    reveal_strlit(" | sudo tee ");
    reveal_strlit("/sys/class/power_supply/");
    reveal_strlit(" | sudo tee /sys/class/power_supply/");
    let c = tee_command(value, bat_name, property);
    assert(c =~= "echo "@ + value + (" | sudo tee /sys/class/power_supply/"@ + bat_name + "/"@ + property));
    assert(c.subrange(0, 5) =~= "echo "@);
    assert(c.subrange(5, 5 + value.len() as int) =~= value);
    assert(c.skip(5 + value.len() as int) =~= " | sudo tee /sys/class/power_supply/"@ + bat_name + "/"@ + property);
}

/// The value in the command that writes a threshold `w` reads back as `w`.
pub proof fn law_threshold_command_value(w: u8, bat_name: Seq<char>, file: ThresholdFile)
    ensures
        spec_parse_u8(
            tee_command(decimal_digits(w as nat), bat_name, threshold_property(file)).subrange(
                5,
                5 + decimal_digits(w as nat).len() as int,
            ),
        ) == Ok::<u8, U8ParseError>(w),
{
    law_command_carries_value(decimal_digits(w as nat), bat_name, threshold_property(file));
    law_parse_of_decimal(w);
}

/// Only one final line feed is removed from a threshold file's text; every
/// other character is kept.
pub proof fn law_strip_line_feed(s: Seq<char>)
    ensures
        strip_line_feed(s.push('\n')) == s,
        s.len() == 0 || s.last() != '\n' ==> strip_line_feed(s) == s,
        strip_line_feed(s).len() + 1 >= s.len(),
        strip_line_feed(s) == s.take(strip_line_feed(s).len() as int),
{
    assert(s.push('\n').drop_last() =~= s);
    assert(s.take(s.len() as int) =~= s);
    if s.len() > 0 && s.last() == '\n' {
        assert(s.drop_last() =~= s.take(s.len() - 1));
    }
}

/// A threshold file holding the decimal text of `n`, with or without a final
/// line feed, reads as `n`.
pub proof fn law_threshold_file_of_value(n: u8)
    ensures
        spec_parse_u8(strip_line_feed(decimal_digits(n as nat).push('\n'))) == Ok::<u8, U8ParseError>(n),
        spec_parse_u8(strip_line_feed(decimal_digits(n as nat))) == Ok::<u8, U8ParseError>(n),
{
    law_strip_line_feed(decimal_digits(n as nat));
    law_parse_of_decimal(n);
    let d = decimal_digits(n as nat);
    assert(d.len() > 0 && d.last() != '\n') by {
        reveal_with_fuel(decimal_digits, 2);
        if n < 10 {
            assert(d.last() == digit_char(n as nat));
        } else {
            assert(d.last() == digit_char(n as nat % 10));
        }
    }
}

/// Setting a wanted threshold stores exactly the given value in that
/// threshold, whatever the battery's state; the other wanted threshold, the
/// thresholds read and the battery's name and list stay as they were.
pub proof fn law_set_wanted_stores(b: Battery, file: ThresholdFile, v: u8)
    ensures
        wanted_threshold(spec_set_wanted(b, file, v), file) == v,
        file == ThresholdFile::Start ==> spec_set_wanted(b, file, v).bat_end_thrs == b.bat_end_thrs,
        file == ThresholdFile::End ==> spec_set_wanted(b, file, v).bat_start_thrs == b.bat_start_thrs,
        spec_set_wanted(b, file, v).bat_start_thrs_init == b.bat_start_thrs_init,
        spec_set_wanted(b, file, v).bat_end_thrs_init == b.bat_end_thrs_init,
        spec_set_wanted(b, file, v).bat_name == b.bat_name,
        spec_set_wanted(b, file, v).bat_list == b.bat_list,
{
}

} // verus!
