//! Reading a point from text such as `2024-02-29-13-45-30-250`.
use vstd::prelude::*;
use crate::text::{chars_of, owned, parse_unsigned, parsed_unsigned, split_chars, split_on};
use crate::time_point::{constructed, constructor_result, TimePoint};
use crate::time_zone::TimeZone;

verus! {

/// Whether every field reads as an unsigned 32-bit number.
pub open spec fn fields_read(fields: Seq<Seq<char>>) -> bool {
    forall|i: int| 0 <= i < fields.len() ==> (#[trigger] parsed_unsigned(fields[i], u32::MAX as int)) is Some
}

/// The numbers the fields read as.
pub open spec fn field_values(fields: Seq<Seq<char>>) -> Seq<u32> {
    fields.map_values(|f: Seq<char>| parsed_unsigned(f, u32::MAX as int)->Some_0 as u32)
}

/// The `k`-th number, when there is one.
pub open spec fn nth_field(v: Seq<u32>, k: int) -> Option<u32> {
    if k < v.len() {
        Some(v[k])
    } else {
        None
    }
}

/// The point that one to seven numbers name, from the year down to the millisecond, or the
/// text of the reason there is none.
pub open spec fn point_of_fields(v: Seq<u32>) -> Result<TimePoint, Seq<char>> {
    if 1 <= v.len() <= 7 {
        constructed(
            v[0],
            nth_field(v, 1),
            nth_field(v, 2),
            nth_field(v, 3),
            nth_field(v, 4),
            nth_field(v, 5),
            nth_field(v, 6),
            TimeZone::UTC,
        )
    } else {
        Err("Invalid date format"@)
    }
}

/// What `time_point` gives for a text.
pub open spec fn point_of_text(s: Seq<char>) -> Result<TimePoint, Seq<char>> {
    if s.len() == 0 {
        Err("No args"@)
    } else if !fields_read(split_on(s, '-')) {
        Err("Invalid number format"@)
    } else {
        point_of_fields(field_values(split_on(s, '-')))
    }
}

/// Reads the dash-separated fields of `input` as unsigned 32-bit numbers.
pub fn parse_date_time_point(input: &str) -> (r: Result<Vec<u32>, String>)
    ensures
        match r {
            Ok(v) => fields_read(split_on(input@, '-')) && v@ == field_values(split_on(input@, '-')),
            Err(e) => !fields_read(split_on(input@, '-')) && e@ == "Invalid number format"@,
        },
{
    let chars = chars_of(input);
    let parts = split_chars(&chars, '-');
    let ghost fields = split_on(input@, '-');
    let mut values: Vec<u32> = Vec::new();
    let mut i: usize = 0;
    while i < parts.len()
        invariant
            i <= parts.len(),
            parts.len() == fields.len(),
            fields == split_on(input@, '-'),
            forall|k: int| 0 <= k < parts.len() ==> (#[trigger] parts[k])@ == fields[k],
            values@ == field_values(fields.subrange(0, i as int)),
            fields_read(fields.subrange(0, i as int)),
        decreases parts.len() - i,
    {
        let ghost before = fields.subrange(0, i as int);
        let ghost after = fields.subrange(0, i + 1);
        match parse_unsigned(&parts[i], 4294967295) {
            Some(v) => {
                assert(after =~= before.push(fields[i as int]));
                assert(after[i as int] == fields[i as int]);
                assert(fields_read(after)) by {
                    assert forall|k: int| 0 <= k < after.len() implies (#[trigger] parsed_unsigned(
                        after[k],
                        u32::MAX as int,
                    )) is Some by {
                        if k < before.len() {
                            assert(after[k] == before[k]);
                        }
                    }
                }
                values.push(v as u32);
                assert(values@ =~= field_values(after));
            },
            None => {
                assert(!fields_read(fields)) by {
                    assert(parsed_unsigned(fields[i as int], u32::MAX as int) is None);
                }
                return Err(owned("Invalid number format"));
            },
        }
        i = i + 1;
    }
    assert(fields.subrange(0, fields.len() as int) =~= fields);
    Ok(values)
}

/// The `k`-th number, when there is one.
fn field_at(v: &Vec<u32>, k: usize) -> (r: Option<u32>)
    ensures
        r == nth_field(v@, k as int),
{
    if k < v.len() {
        Some(v[k])
    } else {
        None
    }
}

/// Reads a UTC point from dash-separated numbers: a year, then optionally the month, day,
/// hour, minute, second and millisecond. The precision is that of the last field given.
pub fn time_point(input: &str) -> (r: Result<TimePoint, String>)
    ensures
        constructor_result(r, point_of_text(input@)),
{
    if input.is_empty() {
        return Err(owned("No args"));
    }
    let parsed = match parse_date_time_point(input) {
        Ok(v) => v,
        Err(e) => return Err(e),
    };
    if parsed.len() == 0 || parsed.len() > 7 {
        return Err(owned("Invalid date format"));
    }
    TimePoint::new(
        parsed[0],
        field_at(&parsed, 1),
        field_at(&parsed, 2),
        field_at(&parsed, 3),
        field_at(&parsed, 4),
        field_at(&parsed, 5),
        field_at(&parsed, 6),
    )
}

} // verus!
