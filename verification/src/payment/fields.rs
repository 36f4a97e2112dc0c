//! The fields of a structure: what its records say of each type.

use vstd::prelude::*;

use super::tlv::{
    be_bytes, be_number, be_value, be_vec, records, struct_bytes, struct_records, Record,
    RecordView,
};
use crate::primitives::{is_public_key, PublicKey};

verus! {

/// The value of the first record of a type.
pub open spec fn lookup(list: Seq<RecordView>, typ: u64) -> Option<Seq<u8>>
    decreases list.len(),
{
    if list.len() == 0 {
        None
    } else if list[0].typ == typ {
        Some(list[0].value)
    } else {
        lookup(list.drop_first(), typ)
    }
}

/// The value of the first record of a type.
pub fn find(list: &Vec<Record>, typ: u64) -> (res: Option<&Vec<u8>>)
    ensures
        match res {
            Some(value) => lookup(records(list@), typ) == Some(value@),
            None => lookup(records(list@), typ) is None,
        },
{
    let ghost held = records(list@);
    let mut i: usize = 0;
    assert(held.skip(0) =~= held);
    while i < list.len()
        invariant
            i <= list.len(),
            held == records(list@),
            lookup(held, typ) == lookup(held.skip(i as int), typ),
        decreases list.len() - i,
    {
        assert(held.skip(i as int)[0] == list[i as int]@);
        assert(held.skip(i as int).drop_first() =~= held.skip(i + 1));
        if list[i].typ == typ {
            return Some(&list[i].value);
        }
        i += 1;
    }
    None
}

/// The records of an optional 64-bit field: one if there is a value, and none otherwise.
pub open spec fn opt_u64_record(typ: u64, n: Option<u64>) -> Seq<RecordView> {
    match n {
        Some(n) => seq![RecordView { typ, value: be_bytes(n as nat, 8) }],
        None => Seq::empty(),
    }
}

/// Appends the record of an optional 64-bit field, if there is a value.
pub fn push_opt_u64(list: &mut Vec<Record>, typ: u64, n: Option<u64>)
    ensures
        records(final(list)@) == records(old(list)@) + opt_u64_record(typ, n),
{
    if let Some(n) = n {
        list.push(Record { typ, value: be_vec(n, 8) });
    }
    assert(records(list@) =~= records(old(list)@) + opt_u64_record(typ, n));
}

/// What an optional 64-bit field holds: nothing if it has no record, and `None` overall if its
/// record does not have eight bytes.
pub open spec fn opt_u64_field(list: Seq<RecordView>, typ: u64) -> Option<Option<u64>> {
    match lookup(list, typ) {
        Some(value) => if value.len() == 8 {
            Some(Some(be_value(value) as u64))
        } else {
            None
        },
        None => Some(None),
    }
}

/// Reads an optional 64-bit field.
pub fn read_opt_u64(list: &Vec<Record>, typ: u64) -> (res: Option<Option<u64>>)
    ensures
        res == opt_u64_field(records(list@), typ),
{
    match find(list, typ) {
        Some(value) => {
            if value.len() == 8 {
                Some(Some(be_number(value)))
            } else {
                None
            }
        },
        None => Some(None),
    }
}

/// What a mandatory field of `width` bytes holds, or `None` if it has no record or one of another
/// length.
pub open spec fn number_field(list: Seq<RecordView>, typ: u64, width: nat) -> Option<nat> {
    match lookup(list, typ) {
        Some(value) => if value.len() == width {
            Some(be_value(value))
        } else {
            None
        },
        None => None,
    }
}

/// Reads a mandatory field of `width` bytes.
pub fn read_number(list: &Vec<Record>, typ: u64, width: usize) -> (res: Option<u64>)
    requires
        width <= 8,
    ensures
        match res {
            Some(n) => number_field(records(list@), typ, width as nat) == Some(n as nat),
            None => number_field(records(list@), typ, width as nat) is None,
        },
{
    match find(list, typ) {
        Some(value) => {
            if value.len() == width {
                Some(be_number(value))
            } else {
                None
            }
        },
        None => None,
    }
}

/// What a mandatory public key field holds, or `None` if it has no record or one that does not hold
/// a key.
pub open spec fn key_field(list: Seq<RecordView>, typ: u64) -> Option<Seq<u8>> {
    match lookup(list, typ) {
        Some(value) => if value.len() == 33 && is_public_key(value) {
            Some(value)
        } else {
            None
        },
        None => None,
    }
}

/// Reads a mandatory public key field.
pub fn read_key(list: &Vec<Record>, typ: u64) -> (res: Option<PublicKey>)
    ensures
        match res {
            Some(key) => key_field(records(list@), typ) == Some(key@),
            None => key_field(records(list@), typ) is None,
        },
{
    let value = match find(list, typ) {
        Some(value) => value,
        None => {
            return None;
        },
    };
    if value.len() != 33 {
        return None;
    }
    let mut bytes: [u8; 33] = [0; 33];
    let mut i: usize = 0;
    while i < 33
        invariant
            i <= 33,
            value.len() == 33,
            forall|j: int| 0 <= j < i ==> bytes[j] == value[j],
        decreases 33 - i,
    {
        bytes[i] = value[i];
        i += 1;
    }
    assert(bytes@ =~= value@);
    PublicKey::from_bytes(bytes)
}

/// The bytes of a key as a list.
pub fn key_vec(key: &PublicKey) -> (res: Vec<u8>)
    ensures
        res@ == key@,
        key.valid(),
{
    let bytes = key.serialize();
    let mut out: Vec<u8> = Vec::new();
    let mut i: usize = 0;
    while i < 33
        invariant
            i <= 33,
            out@ == bytes@.take(i as int),
        decreases 33 - i,
    {
        out.push(bytes[i]);
        i += 1;
        assert(out@ =~= bytes@.take(i as int));
    }
    assert(out@ =~= bytes@);
    out
}

/// Whether the bytes are those of one structure, with nothing behind it.
pub open spec fn exactly_struct(bytes: Seq<u8>) -> bool {
    struct_records(bytes) matches Some(list) && struct_bytes(list).len() == bytes.len()
}

} // verus!
