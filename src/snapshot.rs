//! Choosing the most recent snapshot among directory entries: dated
//! directories are named by year, month and day numbers, and among the
//! Parquet files of a day the last modified one wins.
use vstd::prelude::*;
use crate::price::{digits_value, push_digit, saturate};
use crate::text::is_ascii_digit;
use crate::filter::text_equals;

verus! {

/// The directory, relative to the working directory, under which snapshots
/// are kept as `processed/<source>/<year>/<month>/<day>/<file>.parquet`.
pub const DATA_ROOT: &'static str = "housing_data";

/// The directory between the data root and the per-source directories.
pub const PROCESSED_DIR: &'static str = "processed";

pub open spec fn all_digits(s: Seq<char>) -> bool {
    forall|k: int| 0 <= k < s.len() ==> is_ascii_digit(#[trigger] s[k])
}

/// The integer that a text spells: an optional sign and one or more ASCII
/// digits, as `str::parse` reads integers.
pub open spec fn integer_text_value(s: Seq<char>) -> Option<int> {
    if s.len() > 1 && s[0] == '-' && all_digits(s.drop_first()) {
        Some(-(digits_value(s.drop_first()) as int))
    } else if s.len() > 1 && s[0] == '+' && all_digits(s.drop_first()) {
        Some(digits_value(s.drop_first()) as int)
    } else if s.len() > 0 && all_digits(s) {
        Some(digits_value(s) as int)
    } else {
        None
    }
}

/// The 32-bit integer that a text spells, if it spells one in range.
pub open spec fn i32_of_text(s: Seq<char>) -> Option<i32> {
    match integer_text_value(s) {
        Some(v) => if i32::MIN <= v <= i32::MAX { Some(v as i32) } else { None },
        None => None,
    }
}

/// Reads a 32-bit integer from a text, as `str::parse::<i32>` does.
pub fn parse_i32(s: &str) -> (r: Option<i32>)
    ensures
        r == i32_of_text(s@),
{
    let n = s.unicode_len();
    if n == 0 {
        return None;
    }
    let first = s.get_char(0);
    let negative = first == '-';
    let start: usize = if first == '-' || first == '+' { 1 } else { 0 };
    if start == n {
        return None;
    }
    let ghost body = s@.skip(start as int);
    let mut acc: u64 = 0;
    let mut i: usize = start;
    while i < n
        invariant
            n == s@.len(),
            start <= i <= n,
            start <= 1,
            n >= 1,
            start == 1 <==> (s@[0] == '-' || s@[0] == '+'),
            negative == (s@[0] == '-'),
            body == s@.skip(start as int),
            all_digits(s@.subrange(start as int, i as int)),
            acc == saturate(digits_value(s@.subrange(start as int, i as int))),
        decreases n - i,
    {
        let ch = s.get_char(i);
        if !crate::text::char_is_ascii_digit(ch) {
            proof {
                assert(!all_digits(body)) by {
                    assert(body[i - start] == ch);
                }
                if start == 0 {
                    assert(body =~= s@);
                } else {
                    assert(s@.drop_first() =~= body);
                    assert(!is_ascii_digit(s@[0]));
                }
            }
            return None;
        }
        acc = push_digit(acc, ch, Ghost(s@.subrange(start as int, i as int)));
        proof {
            assert(s@.subrange(start as int, i as int).push(ch) =~= s@.subrange(
                start as int,
                i + 1,
            ));
        }
        i = i + 1;
    }
    proof {
        assert(s@.subrange(start as int, n as int) =~= body);
        if start == 0 {
            assert(body =~= s@);
        } else {
            assert(s@.drop_first() =~= body);
        }
    }
    if negative {
        if acc > 2147483648 {
            None
        } else {
            Some((0 - (acc as i64)) as i32)
        }
    } else {
        if acc > 2147483647 {
            None
        } else {
            Some(acc as i32)
        }
    }
}

/// Whether entry `i` is the one whose name spells the greatest number (the
/// last such entry where several do).
pub open spec fn is_latest_numbered(names: Seq<String>, i: int) -> bool {
    &&& 0 <= i < names.len()
    &&& i32_of_text(names[i]@) is Some
    &&& forall|j: int|
        0 <= j < names.len() && (#[trigger] i32_of_text(names[j]@)) is Some ==> i32_of_text(
            names[j]@,
        )->0 <= i32_of_text(names[i]@)->0
    &&& forall|j: int|
        i < j < names.len() && (#[trigger] i32_of_text(names[j]@)) is Some ==> i32_of_text(
            names[j]@,
        )->0 < i32_of_text(names[i]@)->0
}

/// Picks the entry named by the greatest number, such as the latest year,
/// month or day directory.
pub fn latest_numbered(names: &Vec<String>) -> (r: Option<usize>)
    ensures
        r matches Some(i) ==> is_latest_numbered(names@, i as int),
        r is None ==> forall|j: int| 0 <= j < names@.len() ==> (#[trigger] i32_of_text(names@[j]@)) is None,
{
    let mut best: Option<usize> = None;
    let mut best_value: i32 = 0;
    let mut k: usize = 0;
    while k < names.len()
        invariant
            k <= names.len(),
            best matches Some(i) ==> ({
                &&& i < k
                &&& i32_of_text(names@[i as int]@) == Some(best_value)
                &&& forall|j: int|
                    0 <= j < k && (#[trigger] i32_of_text(names@[j]@)) is Some ==> i32_of_text(
                        names@[j]@,
                    )->0 <= best_value
                &&& forall|j: int|
                    i < j < k && (#[trigger] i32_of_text(names@[j]@)) is Some ==> i32_of_text(
                        names@[j]@,
                    )->0 < best_value
            }),
            best is None ==> forall|j: int| 0 <= j < k ==> (#[trigger] i32_of_text(names@[j]@)) is None,
        decreases names.len() - k,
    {
        match parse_i32(names[k].as_str()) {
            Some(v) => {
                if best.is_none() || v >= best_value {
                    best = Some(k);
                    best_value = v;
                }
            },
            None => {},
        }
        k = k + 1;
    }
    best
}

/// A file name whose extension, as `Path::extension` reads it, is `parquet`.
pub open spec fn is_parquet_name(name: Seq<char>) -> bool {
    name.len() > 8 && name.skip(name.len() - 8) == ".parquet"@
}

pub fn has_parquet_extension(name: &str) -> (r: bool)
    ensures
        r == is_parquet_name(name@),
{
    let n = name.unicode_len();
    if n <= 8 {
        return false;
    }
    let tail = name.substring_char(n - 8, n);
    assert(tail@ =~= name@.skip(n - 8));
    text_equals(tail, ".parquet")
}

/// A file of a day directory with its modification time, where known, in
/// nanoseconds since the Unix epoch.
pub struct SnapshotFile {
    pub name: String,
    pub modified_nanos: Option<u128>,
}

/// Orders unknown modification times before every known one.
pub open spec fn time_key(t: Option<u128>) -> int {
    match t {
        Some(v) => v as int,
        None => -1,
    }
}

/// The last modified Parquet file (the last such file where several tie).
pub open spec fn is_latest_parquet(files: Seq<SnapshotFile>, i: int) -> bool {
    &&& 0 <= i < files.len()
    &&& is_parquet_name(files[i].name@)
    &&& forall|j: int|
        0 <= j < files.len() && is_parquet_name(#[trigger] files[j].name@) ==> time_key(
            files[j].modified_nanos,
        ) <= time_key(files[i].modified_nanos)
    &&& forall|j: int|
        i < j < files.len() && is_parquet_name(#[trigger] files[j].name@) ==> time_key(
            files[j].modified_nanos,
        ) < time_key(files[i].modified_nanos)
}

/// Picks the most recently modified Parquet file of a day directory.
pub fn latest_parquet(files: &Vec<SnapshotFile>) -> (r: Option<usize>)
    ensures
        r matches Some(i) ==> is_latest_parquet(files@, i as int),
        r is None ==> forall|j: int| 0 <= j < files@.len() ==> !is_parquet_name(#[trigger] files@[j].name@),
{
    let mut best: Option<usize> = None;
    let mut k: usize = 0;
    while k < files.len()
        invariant
            k <= files.len(),
            best matches Some(i) ==> ({
                &&& i < k
                &&& is_parquet_name(files@[i as int].name@)
                &&& forall|j: int|
                    0 <= j < k && is_parquet_name(#[trigger] files@[j].name@) ==> time_key(
                        files@[j].modified_nanos,
                    ) <= time_key(files@[i as int].modified_nanos)
                &&& forall|j: int|
                    i < j < k && is_parquet_name(#[trigger] files@[j].name@) ==> time_key(
                        files@[j].modified_nanos,
                    ) < time_key(files@[i as int].modified_nanos)
            }),
            best is None ==> forall|j: int| 0 <= j < k ==> !is_parquet_name(#[trigger] files@[j].name@),
        decreases files.len() - k,
    {
        if has_parquet_extension(files[k].name.as_str()) {
            let newer = match best {
                None => true,
                Some(b) => match (files[k].modified_nanos, files[b].modified_nanos) {
                    (_, None) => true,
                    (None, Some(_)) => false,
                    (Some(x), Some(y)) => x >= y,
                },
            };
            if newer {
                best = Some(k);
            }
        }
        k = k + 1;
    }
    best
}

} // verus!
