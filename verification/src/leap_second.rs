//! Leap seconds and the TAI-UTC offset table.
//!
//! The table is the IERS `leap-seconds.list`: each row gives the NTP timestamp (seconds since
//! 1900-01-01) at which `DTAI = TAI - UTC` takes a new value, and the calendar day of that
//! instant. A leap second 23:59:60 is inserted at the end of the day before each row's day.
use vstd::prelude::*;
use crate::text::{
    chars_of, parse_unsigned, parsed_unsigned, split_chars, split_on, split_words, starts_with_digit,
    visible_digit_first, words,
};
use crate::util::{day_before, is_calendar_date, month_abbreviation, month_number, previous_day};

verus! {

/// One row of the leap second table.
#[derive(Debug, Clone, Copy, PartialEq, Eq, Structural)]
pub struct LeapEntry {
    /// Seconds since 1900-01-01T00:00:00Z at which the offset takes effect.
    pub ntp: u64,
    /// The TAI-UTC offset in seconds from that instant on.
    pub offset: u32,
    /// Calendar day of the instant.
    pub day: u32,
    pub month: u32,
    pub year: u32,
}

/// The leap second table, in chronological order.
pub open spec fn leap_table() -> Seq<LeapEntry> {
    seq![
        LeapEntry { ntp: 2272060800, offset: 10, day: 1, month: 1, year: 1972 },
        LeapEntry { ntp: 2287785600, offset: 11, day: 1, month: 7, year: 1972 },
        LeapEntry { ntp: 2303683200, offset: 12, day: 1, month: 1, year: 1973 },
        LeapEntry { ntp: 2335219200, offset: 13, day: 1, month: 1, year: 1974 },
        LeapEntry { ntp: 2366755200, offset: 14, day: 1, month: 1, year: 1975 },
        LeapEntry { ntp: 2398291200, offset: 15, day: 1, month: 1, year: 1976 },
        LeapEntry { ntp: 2429913600, offset: 16, day: 1, month: 1, year: 1977 },
        LeapEntry { ntp: 2461449600, offset: 17, day: 1, month: 1, year: 1978 },
        LeapEntry { ntp: 2492985600, offset: 18, day: 1, month: 1, year: 1979 },
        LeapEntry { ntp: 2524521600, offset: 19, day: 1, month: 1, year: 1980 },
        LeapEntry { ntp: 2571782400, offset: 20, day: 1, month: 7, year: 1981 },
        LeapEntry { ntp: 2603318400, offset: 21, day: 1, month: 7, year: 1982 },
        LeapEntry { ntp: 2634854400, offset: 22, day: 1, month: 7, year: 1983 },
        LeapEntry { ntp: 2698012800, offset: 23, day: 1, month: 7, year: 1985 },
        LeapEntry { ntp: 2776982400, offset: 24, day: 1, month: 1, year: 1988 },
        LeapEntry { ntp: 2840140800, offset: 25, day: 1, month: 1, year: 1990 },
        LeapEntry { ntp: 2871676800, offset: 26, day: 1, month: 1, year: 1991 },
        LeapEntry { ntp: 2918937600, offset: 27, day: 1, month: 7, year: 1992 },
        LeapEntry { ntp: 2950473600, offset: 28, day: 1, month: 7, year: 1993 },
        LeapEntry { ntp: 2982009600, offset: 29, day: 1, month: 7, year: 1994 },
        LeapEntry { ntp: 3029443200, offset: 30, day: 1, month: 1, year: 1996 },
        LeapEntry { ntp: 3076704000, offset: 31, day: 1, month: 7, year: 1997 },
        LeapEntry { ntp: 3124137600, offset: 32, day: 1, month: 1, year: 1999 },
        LeapEntry { ntp: 3345062400, offset: 33, day: 1, month: 1, year: 2006 },
        LeapEntry { ntp: 3439756800, offset: 34, day: 1, month: 1, year: 2009 },
        LeapEntry { ntp: 3550089600, offset: 35, day: 1, month: 7, year: 2012 },
        LeapEntry { ntp: 3644697600, offset: 36, day: 1, month: 7, year: 2015 },
        LeapEntry { ntp: 3692217600, offset: 37, day: 1, month: 1, year: 2017 },
    ]
}

/// The day before a real calendar day after 0000-01-01.
pub open spec fn day_preceding(year: u32, month: u32, day: u32) -> Option<(u32, u32, u32)> {
    if is_calendar_date(year as int, month as int, day as int) && !(month == 1 && day == 1 && year
        == 0) {
        let (y, m, d) = day_before(year as int, month as int, day as int);
        Some((y as u32, m as u32, d as u32))
    } else {
        None
    }
}

/// The day whose last minute holds the leap second of a row: the day before the row's day.
pub open spec fn leap_day_of(e: LeapEntry) -> Option<(u32, u32, u32)> {
    day_preceding(e.year, e.month, e.day)
}

/// Whether the day of `year`, `month`, `day` ends with a leap second according to `table`.
pub open spec fn ends_with_leap_second_in(table: Seq<LeapEntry>, year: u32, month: u32, day: u32) -> bool {
    exists|i: int| 0 <= i < table.len() && #[trigger] leap_day_of(table[i]) == Some((year, month, day))
}

/// Whether the day ends with a leap second according to the built-in table.
pub open spec fn is_leap_day(year: u32, month: u32, day: u32) -> bool {
    ends_with_leap_second_in(leap_table(), year, month, day)
}

/// The built-in table.
pub fn leap_table_rows() -> (v: Vec<LeapEntry>)
    ensures
        v@ == leap_table(),
{
    let mut v: Vec<LeapEntry> = Vec::new();
    v.push(LeapEntry { ntp: 2272060800, offset: 10, day: 1, month: 1, year: 1972 });
    v.push(LeapEntry { ntp: 2287785600, offset: 11, day: 1, month: 7, year: 1972 });
    v.push(LeapEntry { ntp: 2303683200, offset: 12, day: 1, month: 1, year: 1973 });
    v.push(LeapEntry { ntp: 2335219200, offset: 13, day: 1, month: 1, year: 1974 });
    v.push(LeapEntry { ntp: 2366755200, offset: 14, day: 1, month: 1, year: 1975 });
    v.push(LeapEntry { ntp: 2398291200, offset: 15, day: 1, month: 1, year: 1976 });
    v.push(LeapEntry { ntp: 2429913600, offset: 16, day: 1, month: 1, year: 1977 });
    v.push(LeapEntry { ntp: 2461449600, offset: 17, day: 1, month: 1, year: 1978 });
    v.push(LeapEntry { ntp: 2492985600, offset: 18, day: 1, month: 1, year: 1979 });
    v.push(LeapEntry { ntp: 2524521600, offset: 19, day: 1, month: 1, year: 1980 });
    v.push(LeapEntry { ntp: 2571782400, offset: 20, day: 1, month: 7, year: 1981 });
    v.push(LeapEntry { ntp: 2603318400, offset: 21, day: 1, month: 7, year: 1982 });
    v.push(LeapEntry { ntp: 2634854400, offset: 22, day: 1, month: 7, year: 1983 });
    v.push(LeapEntry { ntp: 2698012800, offset: 23, day: 1, month: 7, year: 1985 });
    v.push(LeapEntry { ntp: 2776982400, offset: 24, day: 1, month: 1, year: 1988 });
    v.push(LeapEntry { ntp: 2840140800, offset: 25, day: 1, month: 1, year: 1990 });
    v.push(LeapEntry { ntp: 2871676800, offset: 26, day: 1, month: 1, year: 1991 });
    v.push(LeapEntry { ntp: 2918937600, offset: 27, day: 1, month: 7, year: 1992 });
    v.push(LeapEntry { ntp: 2950473600, offset: 28, day: 1, month: 7, year: 1993 });
    v.push(LeapEntry { ntp: 2982009600, offset: 29, day: 1, month: 7, year: 1994 });
    v.push(LeapEntry { ntp: 3029443200, offset: 30, day: 1, month: 1, year: 1996 });
    v.push(LeapEntry { ntp: 3076704000, offset: 31, day: 1, month: 7, year: 1997 });
    v.push(LeapEntry { ntp: 3124137600, offset: 32, day: 1, month: 1, year: 1999 });
    v.push(LeapEntry { ntp: 3345062400, offset: 33, day: 1, month: 1, year: 2006 });
    v.push(LeapEntry { ntp: 3439756800, offset: 34, day: 1, month: 1, year: 2009 });
    v.push(LeapEntry { ntp: 3550089600, offset: 35, day: 1, month: 7, year: 2012 });
    v.push(LeapEntry { ntp: 3644697600, offset: 36, day: 1, month: 7, year: 2015 });
    v.push(LeapEntry { ntp: 3692217600, offset: 37, day: 1, month: 1, year: 2017 });
    v
}

/// The day before a real calendar day after 0000-01-01.
pub fn preceding_day(year: u32, month: u32, day: u32) -> (r: Option<(u32, u32, u32)>)
    ensures
        r == day_preceding(year, month, day),
{
    if month == 1 && day == 1 && year == 0 {
        return None;
    }
    match previous_day(year, month, day) {
        Ok(d) => Some(d),
        Err(_) => None,
    }
}

/// The day of a row's leap second.
pub fn leap_day_of_entry(e: LeapEntry) -> (r: Option<(u32, u32, u32)>)
    ensures
        r == leap_day_of(e),
{
    preceding_day(e.year, e.month, e.day)
}

/// Whether `(year, month, day)` ends with a leap second according to `table`.
pub fn table_has_leap_day(table: &Vec<LeapEntry>, year: u32, month: u32, day: u32) -> (r: bool)
    ensures
        r == ends_with_leap_second_in(table@, year, month, day),
{
    let mut i: usize = 0;
    while i < table.len()
        invariant
            i <= table.len(),
            forall|k: int| 0 <= k < i ==> leap_day_of(#[trigger] table@[k]) != Some((year, month, day)),
        decreases table.len() - i,
    {
        if leap_day_of_entry(table[i]) == Some((year, month, day)) {
            return true;
        }
        i = i + 1;
    }
    false
}

/// Whether the day of `year`, `month`, `day` ends with a leap second according to the
/// built-in table.
pub fn is_built_in_leap_second(year: u32, month: u32, day: u32) -> (r: bool)
    ensures
        r == is_leap_day(year, month, day),
{
    let table = leap_table_rows();
    table_has_leap_day(&table, year, month, day)
}

/// The (NTP timestamp, TAI-UTC offset) entries of the built-in table, in chronological order.
pub fn built_in_leap_second_entries() -> (v: Vec<(u64, u32)>)
    ensures
        v@.len() == leap_table().len(),
        forall|i: int| 0 <= i < v@.len() ==> #[trigger] v@[i] == (leap_table()[i].ntp, leap_table()[i].offset),
{
    let table = leap_table_rows();
    let mut v: Vec<(u64, u32)> = Vec::new();
    let mut i: usize = 0;
    while i < table.len()
        invariant
            i <= table.len(),
            table@ == leap_table(),
            v@.len() == i,
            forall|k: int| 0 <= k < i ==> #[trigger] v@[k] == (table@[k].ntp, table@[k].offset),
        decreases table.len() - i,
    {
        v.push((table[i].ntp, table[i].offset));
        i = i + 1;
    }
    v
}

/// Adds a day to a collection of days unless it is already there.
pub fn insert_day(days: &mut Vec<(u32, u32, u32)>, day: (u32, u32, u32))
    ensures
        final(days)@ == (if old(days)@.contains(day) {
            old(days)@
        } else {
            old(days)@.push(day)
        }),
        forall|e: (u32, u32, u32)| #[trigger] final(days)@.contains(e) <==> (old(days)@.contains(e) || e == day),
        old(days)@.no_duplicates() ==> final(days)@.no_duplicates(),
{
    let ghost before = days@;
    let mut i: usize = 0;
    while i < days.len()
        invariant
            i <= days.len(),
            days@ == old(days)@,
            forall|k: int| 0 <= k < i ==> days@[k] != day,
        decreases days.len() - i,
    {
        let (y, m, d) = days[i];
        if y == day.0 && m == day.1 && d == day.2 {
            assert(days@.contains(day));
            return;
        }
        i = i + 1;
    }
    assert(!days@.contains(day));
    days.push(day);
    proof {
        assert forall|e: (u32, u32, u32)| #[trigger] days@.contains(e) <==> (before.contains(e) || e == day) by {
            if days@.contains(e) && e != day {
                let j = choose|j: int| 0 <= j < days@.len() && days@[j] == e;
                assert(j < before.len());
                assert(before[j] == e);
            }
            if before.contains(e) {
                let j = choose|j: int| 0 <= j < before.len() && before[j] == e;
                assert(days@[j] == e);
            }
            if e == day {
                assert(days@[days@.len() - 1] == e);
            }
        }
        if before.no_duplicates() {
            assert forall|a: int, b: int| 0 <= a < days@.len() && 0 <= b < days@.len() && a != b implies days@[a] != days@[b] by {
                if a == before.len() as int {
                    assert(days@[b] == before[b]);
                } else if b == before.len() as int {
                    assert(days@[a] == before[a]);
                } else {
                    assert(days@[a] == before[a] && days@[b] == before[b]);
                }
            }
        }
    }
}

/// The days that end with a leap second according to the built-in table, each listed once.
pub fn built_in_leap_days() -> (v: Vec<(u32, u32, u32)>)
    ensures
        v@.no_duplicates(),
        forall|year: u32, month: u32, day: u32|
            v@.contains((year, month, day)) <==> #[trigger] is_leap_day(year, month, day),
{
    let table = leap_table_rows();
    let mut v: Vec<(u32, u32, u32)> = Vec::new();
    let mut i: usize = 0;
    while i < table.len()
        invariant
            i <= table.len(),
            table@ == leap_table(),
            v@.no_duplicates(),
            forall|d: (u32, u32, u32)|
                v@.contains(d) <==> exists|k: int| 0 <= k < i && #[trigger] leap_day_of(table@[k]) == Some(d),
        decreases table.len() - i,
    {
        match leap_day_of_entry(table[i]) {
            Some(d) => {
                insert_day(&mut v, d);
            },
            None => {},
        }
        assert forall|e: (u32, u32, u32)|
            v@.contains(e) <==> exists|k: int| 0 <= k < i + 1 && #[trigger] leap_day_of(table@[k]) == Some(e) by {
            if exists|k: int| 0 <= k < i + 1 && #[trigger] leap_day_of(table@[k]) == Some(e) {
                let k = choose|k: int| 0 <= k < i + 1 && #[trigger] leap_day_of(table@[k]) == Some(e);
                if k < i {
                    assert(exists|k2: int| 0 <= k2 < i && #[trigger] leap_day_of(table@[k2]) == Some(e));
                }
            }
            if v@.contains(e) && leap_day_of(table@[i as int]) != Some(e) {
                assert(exists|k: int| 0 <= k < i && #[trigger] leap_day_of(table@[k]) == Some(e));
            }
        }
        i = i + 1;
    }
    v
}

/// The leap day that a line of the table names in its comment `# d Mon yyyy`: the day before
/// the one written. Only lines whose first visible character is a digit are read, and the
/// comment must hold exactly three words.
pub open spec fn line_leap_day(line: Seq<char>) -> Option<(u32, u32, u32)> {
    let pieces = split_on(line, '#');
    if !starts_with_digit(line) || pieces.len() < 2 {
        None
    } else {
        let w = words(pieces[1]);
        if w.len() != 3 {
            None
        } else {
            match (
                parsed_unsigned(w[0], u32::MAX as int),
                month_abbreviation(w[1]),
                parsed_unsigned(w[2], u32::MAX as int),
            ) {
                (Some(d), Some(m), Some(y)) => day_preceding(y as u32, m, d as u32),
                _ => None,
            }
        }
    }
}

/// The (NTP timestamp, offset) pair at the head of a line of the table: its first two words,
/// for a line whose first visible character is a digit.
pub open spec fn line_entry(line: Seq<char>) -> Option<(u64, u32)> {
    let w = words(line);
    if !starts_with_digit(line) || w.len() < 2 {
        None
    } else {
        match (parsed_unsigned(w[0], u64::MAX as int), parsed_unsigned(w[1], u32::MAX as int)) {
            (Some(ntp), Some(offset)) => Some((ntp as u64, offset as u32)),
            _ => None,
        }
    }
}

/// The entries of the lines that hold one, in the order of the lines.
pub open spec fn entries_in(lines: Seq<Seq<char>>) -> Seq<(u64, u32)>
    decreases lines.len(),
{
    if lines.len() == 0 {
        Seq::<(u64, u32)>::empty()
    } else {
        let init = entries_in(lines.drop_last());
        match line_entry(lines.last()) {
            Some(e) => init.push(e),
            None => init,
        }
    }
}

/// The lines of a text: the pieces between line feeds. A carriage return before a line feed
/// stays in its line, where it is white space like any other.
pub open spec fn text_lines(data: Seq<char>) -> Seq<Seq<char>> {
    split_on(data, '\n')
}

fn leap_day_in_line(line: &Vec<char>) -> (r: Option<(u32, u32, u32)>)
    ensures
        r == line_leap_day(line@),
{
    let pieces = split_chars(line, '#');
    if !visible_digit_first(line) || pieces.len() < 2 {
        return None;
    }
    let w = split_words(&pieces[1]);
    if w.len() != 3 {
        return None;
    }
    let day = parse_unsigned(&w[0], 4294967295);
    let month = month_number(&w[1]);
    let year = parse_unsigned(&w[2], 4294967295);
    match day {
        Some(d) => match month {
            Some(m) => match year {
                Some(y) => preceding_day(y as u32, m, d as u32),
                None => None,
            },
            None => None,
        },
        None => None,
    }
}

fn entry_in_line(line: &Vec<char>) -> (r: Option<(u64, u32)>)
    ensures
        r == line_entry(line@),
{
    let w = split_words(line);
    if !visible_digit_first(line) || w.len() < 2 {
        return None;
    }
    match parse_unsigned(&w[0], 18446744073709551615) {
        Some(ntp) => match parse_unsigned(&w[1], 4294967295) {
            Some(offset) => Some((ntp, offset as u32)),
            None => None,
        },
        None => None,
    }
}

/// The (NTP timestamp, TAI-UTC offset) pairs of a `leap-seconds.list` text, in the order of
/// its lines. Comment lines, blank lines and lines whose first two words are not numbers are
/// skipped.
pub fn parse_leap_second_entries(data: &str) -> (v: Vec<(u64, u32)>)
    ensures
        v@ == entries_in(text_lines(data@)),
{
    let chars = chars_of(data);
    let lines = split_chars(&chars, '\n');
    let ghost all = text_lines(data@);
    let mut entries: Vec<(u64, u32)> = Vec::new();
    let mut i: usize = 0;
    proof {
        assert(all.subrange(0, 0) =~= Seq::<Seq<char>>::empty());
    }
    while i < lines.len()
        invariant
            i <= lines.len(),
            lines.len() == all.len(),
            forall|k: int| 0 <= k < lines.len() ==> (#[trigger] lines[k])@ == all[k],
            entries@ == entries_in(all.subrange(0, i as int)),
        decreases lines.len() - i,
    {
        proof {
            assert(all.subrange(0, i + 1).drop_last() =~= all.subrange(0, i as int));
        }
        match entry_in_line(&lines[i]) {
            Some(e) => entries.push(e),
            None => {},
        }
        i = i + 1;
    }
    proof {
        assert(all.subrange(0, all.len() as int) =~= all);
    }
    entries
}

/// The days that end with a leap second according to the comments `# d Mon yyyy` of a
/// `leap-seconds.list` text, each listed once.
pub fn parse_leap_seconds(data: &str) -> (v: Vec<(u32, u32, u32)>)
    ensures
        v@.no_duplicates(),
        forall|d: (u32, u32, u32)|
            #[trigger] v@.contains(d) <==> exists|k: int|
                0 <= k < text_lines(data@).len() && line_leap_day(#[trigger] text_lines(data@)[k])
                    == Some(d),
{
    let chars = chars_of(data);
    let lines = split_chars(&chars, '\n');
    let ghost all = text_lines(data@);
    let mut days: Vec<(u32, u32, u32)> = Vec::new();
    let mut i: usize = 0;
    while i < lines.len()
        invariant
            i <= lines.len(),
            lines.len() == all.len(),
            forall|k: int| 0 <= k < lines.len() ==> (#[trigger] lines[k])@ == all[k],
            days@.no_duplicates(),
            forall|d: (u32, u32, u32)|
                #[trigger] days@.contains(d) <==> exists|k: int| 0 <= k < i && line_leap_day(#[trigger] all[k]) == Some(d),
        decreases lines.len() - i,
    {
        match leap_day_in_line(&lines[i]) {
            Some(d) => insert_day(&mut days, d),
            None => {},
        }
        assert forall|e: (u32, u32, u32)|
            #[trigger] days@.contains(e) <==> exists|k: int| 0 <= k < i + 1 && line_leap_day(#[trigger] all[k]) == Some(e) by {
            if exists|k: int| 0 <= k < i + 1 && line_leap_day(#[trigger] all[k]) == Some(e) {
                let k = choose|k: int| 0 <= k < i + 1 && line_leap_day(#[trigger] all[k]) == Some(e);
                if k < i {
                    assert(exists|k2: int| 0 <= k2 < i && line_leap_day(#[trigger] all[k2]) == Some(e));
                }
            }
            if days@.contains(e) && line_leap_day(all[i as int]) != Some(e) {
                assert(exists|k: int| 0 <= k < i && line_leap_day(#[trigger] all[k]) == Some(e));
            }
        }
        i = i + 1;
    }
    days
}

/// `sorted` with `e` placed after every entry whose timestamp is at or before its own.
pub open spec fn insert_in_time_order(sorted: Seq<(u64, u32)>, e: (u64, u32)) -> Seq<(u64, u32)>
    decreases sorted.len(),
{
    if sorted.len() == 0 {
        seq![e]
    } else if sorted.last().0 <= e.0 {
        sorted.push(e)
    } else {
        insert_in_time_order(sorted.drop_last(), e).push(sorted.last())
    }
}

/// The entries ordered by timestamp, entries with equal timestamps in their given order: what
/// a stable sort by timestamp gives.
pub open spec fn in_time_order(entries: Seq<(u64, u32)>) -> Seq<(u64, u32)>
    decreases entries.len(),
{
    if entries.len() == 0 {
        Seq::<(u64, u32)>::empty()
    } else {
        insert_in_time_order(in_time_order(entries.drop_last()), entries.last())
    }
}

/// Whether the timestamps never decrease.
pub open spec fn time_ordered(s: Seq<(u64, u32)>) -> bool {
    forall|i: int, j: int| 0 <= i < j < s.len() ==> s[i].0 <= s[j].0
}

/// Inserting at the place after the last entry at or before the new one's timestamp is the
/// insertion of the order; it keeps the entries ordered and adds exactly the new one.
proof fn lemma_insert_at(s: Seq<(u64, u32)>, e: (u64, u32), j: int)
    requires
        0 <= j <= s.len(),
        j == 0 || s[j - 1].0 <= e.0,
        forall|k: int| j <= k < s.len() ==> s[k].0 > e.0,
        time_ordered(s),
    ensures
        insert_in_time_order(s, e) == s.insert(j, e),
        time_ordered(s.insert(j, e)),
    decreases s.len(),
{
    if s.len() == j {
        assert(s.insert(j, e) =~= s.push(e));
    } else {
        lemma_insert_at(s.drop_last(), e, j);
        assert(s.insert(j, e) =~= s.drop_last().insert(j, e).push(s.last()));
    }
    let r = s.insert(j, e);
    assert forall|a: int, b: int| 0 <= a < b < r.len() implies r[a].0 <= r[b].0 by {
        if a < j && b < j {
            assert(r[a] == s[a] && r[b] == s[b]);
        } else if a < j && b == j {
            assert(r[a] == s[a]);
        } else if a < j {
            assert(r[a] == s[a] && r[b] == s[b - 1]);
        } else if a == j {
            assert(r[b] == s[b - 1]);
        } else {
            assert(r[a] == s[a - 1] && r[b] == s[b - 1]);
        }
    }
}

/// The entries in time order: ordered by timestamp, entries with equal timestamps kept in their
/// given order, and nothing added or lost.
pub fn entries_in_time_order(entries: Vec<(u64, u32)>) -> (r: Vec<(u64, u32)>)
    ensures
        r@ == in_time_order(entries@),
        time_ordered(r@),
        r@.to_multiset() == entries@.to_multiset(),
{
    let mut sorted: Vec<(u64, u32)> = Vec::new();
    let mut i: usize = 0;
    proof {
        assert(entries@.subrange(0, 0) =~= Seq::<(u64, u32)>::empty());
    }
    while i < entries.len()
        invariant
            i <= entries.len(),
            sorted@ == in_time_order(entries@.subrange(0, i as int)),
            time_ordered(sorted@),
            sorted@.to_multiset() == entries@.subrange(0, i as int).to_multiset(),
        decreases entries.len() - i,
    {
        let e = entries[i];
        let mut j: usize = sorted.len();
        while j > 0 && sorted[j - 1].0 > e.0
            invariant
                j <= sorted.len(),
                forall|k: int| j <= k < sorted.len() ==> sorted@[k].0 > e.0,
            decreases j,
        {
            j = j - 1;
        }
        proof {
            lemma_insert_at(sorted@, e, j as int);
            assert(entries@.subrange(0, i + 1).drop_last() =~= entries@.subrange(0, i as int));
            assert(entries@.subrange(0, i + 1) =~= entries@.subrange(0, i as int).push(e));
            vstd::seq_lib::to_multiset_insert(sorted@, j as int, e);
            vstd::seq_lib::to_multiset_build(entries@.subrange(0, i as int), e);
        }
        sorted.insert(j, e);
        i = i + 1;
    }
    proof {
        assert(entries@.subrange(0, entries.len() as int) =~= entries@);
    }
    sorted
}

/// A leap-second list as read from the text of a `leap-seconds.list`: its (NTP timestamp,
/// TAI-UTC offset) entries in time order, and the days that end with a leap second.
pub struct LeapSeconds {
    entries: Vec<(u64, u32)>,
    days: Vec<(u32, u32, u32)>,
}

impl LeapSeconds {
    /// Each leap day is listed once.
    #[verifier::type_invariant]
    spec fn days_listed_once(self) -> bool {
        self.days@.no_duplicates()
    }

    /// The (NTP timestamp, offset) entries, in time order.
    pub closed spec fn entry_seq(&self) -> Seq<(u64, u32)> {
        self.entries@
    }

    /// The days that end with a leap second, each listed once.
    pub closed spec fn leap_days(&self) -> Seq<(u32, u32, u32)> {
        self.days@
    }

    /// The list that the text `data` holds: the entries of its lines put in time order
    /// (entries at the same timestamp keep the order of their lines), and the day before each
    /// date that a line's comment names.
    pub fn from_text(data: &str) -> (r: Self)
        ensures
            r.entry_seq() == in_time_order(entries_in(text_lines(data@))),
            time_ordered(r.entry_seq()),
            r.entry_seq().to_multiset() == entries_in(text_lines(data@)).to_multiset(),
            r.leap_days().no_duplicates(),
            forall|d: (u32, u32, u32)|
                #[trigger] r.leap_days().contains(d) <==> exists|k: int|
                    0 <= k < text_lines(data@).len() && line_leap_day(#[trigger] text_lines(data@)[k])
                        == Some(d),
    {
        let entries = entries_in_time_order(parse_leap_second_entries(data));
        let days = parse_leap_seconds(data);
        LeapSeconds { entries, days }
    }

    /// The built-in list.
    pub fn built_in() -> (r: Self)
        ensures
            r.entry_seq().len() == leap_table().len(),
            forall|i: int|
                0 <= i < r.entry_seq().len() ==> #[trigger] r.entry_seq()[i] == (
                    leap_table()[i].ntp,
                    leap_table()[i].offset,
                ),
            r.leap_days().no_duplicates(),
            forall|year: u32, month: u32, day: u32|
                r.leap_days().contains((year, month, day)) <==> #[trigger] is_leap_day(year, month, day),
    {
        LeapSeconds { entries: built_in_leap_second_entries(), days: built_in_leap_days() }
    }

    /// Whether the day of `year`, `month`, `day` ends with a leap second in this list.
    pub fn is_leap_second(&self, year: u32, month: u32, day: u32) -> (r: bool)
        ensures
            r == self.leap_days().contains((year, month, day)),
    {
        let mut i: usize = 0;
        while i < self.days.len()
            invariant
                i <= self.days@.len(),
                forall|k: int| 0 <= k < i ==> self.days@[k] != (year, month, day),
            decreases self.days.len() - i,
        {
            let (y, m, d) = self.days[i];
            if y == year && m == month && d == day {
                assert(self.days@[i as int] == (year, month, day));
                return true;
            }
            i = i + 1;
        }
        false
    }

    /// The days that end with a leap second, as a new collection.
    pub fn leap_days_vec(&self) -> (r: Vec<(u32, u32, u32)>)
        ensures
            r@ == self.leap_days(),
            r@.no_duplicates(),
    {
        proof { use_type_invariant(self); }
        let mut v: Vec<(u32, u32, u32)> = Vec::new();
        let mut i: usize = 0;
        while i < self.days.len()
            invariant
                i <= self.days@.len(),
                v@ == self.days@.subrange(0, i as int),
            decreases self.days.len() - i,
        {
            v.push(self.days[i]);
            i = i + 1;
            assert(v@ =~= self.days@.subrange(0, i as int));
        }
        assert(v@ =~= self.days@);
        v
    }

    /// The (NTP timestamp, offset) entries, in time order.
    pub fn entries(&self) -> (r: &Vec<(u64, u32)>)
        ensures
            r@ == self.entry_seq(),
    {
        &self.entries
    }
}

/// Whether the day of `year`, `month`, `day` ends with a leap second according to the list.
pub fn is_leap_second(list: &LeapSeconds, year: u32, month: u32, day: u32) -> (r: bool)
    ensures
        r == list.leap_days().contains((year, month, day)),
{
    list.is_leap_second(year, month, day)
}

/// The (NTP timestamp, TAI-UTC offset) entries of the list in chronological order.
///
/// Each entry marks the UTC instant at which `DTAI = TAI - UTC` takes the
/// listed value. NTP timestamps count seconds since 1900-01-01.
pub fn leap_second_entries(list: &LeapSeconds) -> (v: Vec<(u64, u32)>)
    ensures
        v@ == list.entry_seq(),
{
    let entries = list.entries();
    let mut v: Vec<(u64, u32)> = Vec::new();
    let mut i: usize = 0;
    while i < entries.len()
        invariant
            i <= entries@.len(),
            v@ == entries@.subrange(0, i as int),
        decreases entries.len() - i,
    {
        v.push(entries[i]);
        i = i + 1;
        assert(v@ =~= entries@.subrange(0, i as int));
    }
    assert(v@ =~= entries@);
    v
}

/// The days that end with a leap second according to the list, each listed once.
pub fn get_leap_seconds_data(list: &LeapSeconds) -> (v: Vec<(u32, u32, u32)>)
    ensures
        v@ == list.leap_days(),
        v@.no_duplicates(),
{
    list.leap_days_vec()
}

} // verus!
