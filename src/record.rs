//! Tree-shaped raw records and total accessors over them.
//!
//! A record is a row of positional fields; a field is a scalar, a nested group
//! (itself a record) or a repeated list. Every accessor returns `None` where the
//! position is out of range or holds a value of another kind.
use vstd::prelude::*;

verus! {

/// One field of a raw record.
#[derive(Debug)]
pub enum Value {
    Null,
    Bool(bool),
    Int(i32),
    Long(i64),
    /// A double-precision number, kept as its IEEE-754 bit pattern.
    Double(u64),
    Str(String),
    Group(Record),
    List(Vec<Value>),
    /// A value of a kind that no source parser reads (bytes, dates, decimals).
    Other,
}

/// A row of positional fields.
#[derive(Debug)]
pub struct Record {
    pub fields: Vec<Value>,
}

pub open spec fn string_at(fs: Seq<Value>, i: int) -> Option<Seq<char>> {
    if 0 <= i < fs.len() && fs[i] is Str {
        Some(fs[i]->Str_0@)
    } else {
        None
    }
}

pub open spec fn long_at(fs: Seq<Value>, i: int) -> Option<i64> {
    if 0 <= i < fs.len() && fs[i] is Long {
        Some(fs[i]->Long_0)
    } else {
        None
    }
}

pub open spec fn bool_at(fs: Seq<Value>, i: int) -> Option<bool> {
    if 0 <= i < fs.len() && fs[i] is Bool {
        Some(fs[i]->Bool_0)
    } else {
        None
    }
}

pub open spec fn double_at(fs: Seq<Value>, i: int) -> Option<u64> {
    if 0 <= i < fs.len() && fs[i] is Double {
        Some(fs[i]->Double_0)
    } else {
        None
    }
}

pub open spec fn group_at(fs: Seq<Value>, i: int) -> Option<Record> {
    if 0 <= i < fs.len() && fs[i] is Group {
        Some(fs[i]->Group_0)
    } else {
        None
    }
}

pub open spec fn list_at(fs: Seq<Value>, i: int) -> Option<Seq<Value>> {
    if 0 <= i < fs.len() && fs[i] is List {
        Some(fs[i]->List_0@)
    } else {
        None
    }
}

/// The text at position `i`, if that field is a string.
pub fn get_string(fs: &Vec<Value>, i: usize) -> (r: Option<String>)
    ensures
        r matches Some(s) ==> string_at(fs@, i as int) == Some(s@),
        r is None ==> string_at(fs@, i as int) is None,
{
    if i < fs.len() {
        match &fs[i] {
            Value::Str(s) => Some(s.clone()),
            _ => None,
        }
    } else {
        None
    }
}

/// The 64-bit integer at position `i`, if that field is one.
pub fn get_long(fs: &Vec<Value>, i: usize) -> (r: Option<i64>)
    ensures
        r == long_at(fs@, i as int),
{
    if i < fs.len() {
        match &fs[i] {
            Value::Long(v) => Some(*v),
            _ => None,
        }
    } else {
        None
    }
}

/// The boolean at position `i`, if that field is one.
pub fn get_bool(fs: &Vec<Value>, i: usize) -> (r: Option<bool>)
    ensures
        r == bool_at(fs@, i as int),
{
    if i < fs.len() {
        match &fs[i] {
            Value::Bool(v) => Some(*v),
            _ => None,
        }
    } else {
        None
    }
}

/// The bit pattern of the double at position `i`, if that field is one.
pub fn get_double(fs: &Vec<Value>, i: usize) -> (r: Option<u64>)
    ensures
        r == double_at(fs@, i as int),
{
    if i < fs.len() {
        match &fs[i] {
            Value::Double(v) => Some(*v),
            _ => None,
        }
    } else {
        None
    }
}

/// The nested group at position `i`, if that field is one.
pub fn get_group(fs: &Vec<Value>, i: usize) -> (r: Option<&Record>)
    ensures
        r matches Some(g) ==> group_at(fs@, i as int) == Some(*g),
        r is None ==> group_at(fs@, i as int) is None,
{
    if i < fs.len() {
        match &fs[i] {
            Value::Group(g) => Some(g),
            _ => None,
        }
    } else {
        None
    }
}

/// The repeated list at position `i`, if that field is one.
pub fn get_list(fs: &Vec<Value>, i: usize) -> (r: Option<&Vec<Value>>)
    ensures
        r matches Some(l) ==> list_at(fs@, i as int) == Some(l@),
        r is None ==> list_at(fs@, i as int) is None,
{
    if i < fs.len() {
        match &fs[i] {
            Value::List(l) => Some(l),
            _ => None,
        }
    } else {
        None
    }
}

} // verus!
