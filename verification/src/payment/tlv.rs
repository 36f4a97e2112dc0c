//! Structures as streams of type-length-value records.
//!
//! A record is a type, the length of its value and the value. Types and lengths are variable-length
//! integers. A structure is a list of records in ascending order of their types, behind the
//! number of bytes that they take up.

use vstd::prelude::*;

verus! {

/// The number of values that `width` bytes can hold.
pub open spec fn pow256(width: nat) -> nat
    decreases width,
{
    if width == 0 {
        1
    } else {
        256 * pow256((width - 1) as nat)
    }
}

/// The last `width` bytes of a number, the most significant first.
pub open spec fn be_bytes(n: nat, width: nat) -> Seq<u8>
    decreases width,
{
    if width == 0 {
        Seq::empty()
    } else {
        be_bytes(n / 256, (width - 1) as nat).push((n % 256) as u8)
    }
}

/// The number that the bytes stand for, the most significant first.
pub open spec fn be_value(bytes: Seq<u8>) -> nat
    decreases bytes.len(),
{
    if bytes.len() == 0 {
        0
    } else {
        be_value(bytes.drop_last()) * 256 + bytes.last() as nat
    }
}

/// A number in as many bytes as it needs: one byte below `0xFD`, and otherwise two, four or eight
/// bytes behind a byte that says how many.
pub open spec fn bigsize(n: nat) -> Seq<u8> {
    if n < 0xFD {
        be_bytes(n, 1)
    } else if n < 0x1_0000 {
        seq![0xFDu8] + be_bytes(n, 2)
    } else if n < 0x1_0000_0000 {
        seq![0xFEu8] + be_bytes(n, 4)
    } else {
        seq![0xFFu8] + be_bytes(n, 8)
    }
}

/// The bytes are as many as the width asks for.
pub proof fn lemma_be_bytes_len(n: nat, width: nat)
    ensures
        be_bytes(n, width).len() == width,
    decreases width,
{
    if width > 0 {
        lemma_be_bytes_len(n / 256, (width - 1) as nat);
    }
}

/// The bytes of a number that fits stand for it.
pub proof fn lemma_be_value_of_bytes(n: nat, width: nat)
    requires
        n < pow256(width),
    ensures
        be_value(be_bytes(n, width)) == n,
    decreases width,
{
    if width > 0 {
        let upper = be_bytes(n / 256, (width - 1) as nat);
        lemma_be_value_of_bytes(n / 256, (width - 1) as nat);
        assert(be_bytes(n, width).drop_last() =~= upper);
    }
}

/// What bytes stand for fits into them, and has these very bytes.
pub proof fn lemma_be_bytes_of_value(bytes: Seq<u8>)
    ensures
        be_value(bytes) < pow256(bytes.len()),
        be_bytes(be_value(bytes), bytes.len()) == bytes,
    decreases bytes.len(),
{
    if bytes.len() > 0 {
        lemma_be_bytes_of_value(bytes.drop_last());
        let upper = be_value(bytes.drop_last());
        assert((upper * 256 + bytes.last() as nat) / 256 == upper);
        assert(be_bytes(be_value(bytes), bytes.len()) =~= bytes);
    }
}

/// A variable-length integer takes one to nine bytes, and its first byte says how many.
proof fn lemma_bigsize_shape(n: nat)
    ensures
        1 <= bigsize(n).len() <= 9,
        n < 0xFD ==> bigsize(n).len() == 1 && bigsize(n)[0] == n,
        0xFD <= n < 0x1_0000 ==> bigsize(n).len() == 3 && bigsize(n)[0] == 0xFD,
        0x1_0000 <= n < 0x1_0000_0000 ==> bigsize(n).len() == 5 && bigsize(n)[0] == 0xFE,
        0x1_0000_0000 <= n ==> bigsize(n).len() == 9 && bigsize(n)[0] == 0xFF,
{
    lemma_be_bytes_len(n, 1);
    lemma_be_bytes_len(n, 2);
    lemma_be_bytes_len(n, 4);
    lemma_be_bytes_len(n, 8);
    reveal_with_fuel(be_bytes, 2);
}

/// The widths that the format uses.
proof fn lemma_pow256_values()
    ensures
        pow256(1) == 0x100,
        pow256(2) == 0x1_0000,
        pow256(4) == 0x1_0000_0000,
        pow256(8) == 0x1_0000_0000_0000_0000,
{
    reveal_with_fuel(pow256, 9);
}

/// No variable-length integer starts another one: what bytes begin with is determined.
pub proof fn lemma_bigsize_prefix_free(a: nat, b: nat, bytes: Seq<u8>)
    requires
        a <= u64::MAX,
        b <= u64::MAX,
        bigsize(a).is_prefix_of(bytes),
        bigsize(b).is_prefix_of(bytes),
    ensures
        a == b,
{
    lemma_bigsize_shape(a);
    lemma_bigsize_shape(b);
    lemma_pow256_values();
    assert(bigsize(a)[0] == bytes[0]);
    assert(bigsize(b)[0] == bytes[0]);
    if a >= 0xFD {
        let width: nat = if a < 0x1_0000 {
            2
        } else if a < 0x1_0000_0000 {
            4
        } else {
            8
        };
        assert(bigsize(a) =~= bigsize(b));
        assert(bigsize(a).drop_first() =~= be_bytes(a, width));
        assert(bigsize(b).drop_first() =~= be_bytes(b, width));
        lemma_be_value_of_bytes(a, width);
        lemma_be_value_of_bytes(b, width);
    }
}

/// A record of a stream: a type and a value.
#[derive(Debug, PartialEq, Eq)]
pub struct Record {
    /// The type. Readers skip a record whose type they do not know if the type is odd, and refuse
    /// the stream if it is even.
    pub typ: u64,
    /// The bytes of the value.
    pub value: Vec<u8>,
}

/// What a [`Record`] holds.
#[verifier::ext_equal]
pub struct RecordView {
    pub typ: u64,
    pub value: Seq<u8>,
}

impl View for Record {
    type V = RecordView;

    open spec fn view(&self) -> RecordView {
        RecordView { typ: self.typ, value: self.value@ }
    }
}

/// What a list of records holds, in order.
pub open spec fn records(list: Seq<Record>) -> Seq<RecordView> {
    list.map_values(|record: Record| record@)
}

/// The bytes of a record.
pub open spec fn record_bytes(record: RecordView) -> Seq<u8> {
    bigsize(record.typ as nat) + bigsize(record.value.len()) + record.value
}

/// The bytes of a list of records.
pub open spec fn stream_bytes(list: Seq<RecordView>) -> Seq<u8>
    decreases list.len(),
{
    if list.len() == 0 {
        Seq::empty()
    } else {
        record_bytes(list[0]) + stream_bytes(list.drop_first())
    }
}

/// The bytes of a structure with these records: how long they are, and the records.
pub open spec fn struct_bytes(list: Seq<RecordView>) -> Seq<u8> {
    bigsize(stream_bytes(list).len()) + stream_bytes(list)
}

/// Whether the bytes are those of some list of records.
pub open spec fn is_stream(bytes: Seq<u8>) -> bool {
    exists|list: Seq<RecordView>| stream_bytes(list) == bytes
}

/// Whether the bytes begin with a structure with these records.
pub open spec fn starts_with_struct(bytes: Seq<u8>, list: Seq<RecordView>) -> bool {
    struct_bytes(list).is_prefix_of(bytes)
}

/// The records of the structure that the bytes begin with, or `None` if they begin with none.
pub open spec fn struct_records(bytes: Seq<u8>) -> Option<Seq<RecordView>> {
    if exists|list: Seq<RecordView>| starts_with_struct(bytes, list) {
        Some(choose|list: Seq<RecordView>| starts_with_struct(bytes, list))
    } else {
        None
    }
}

/// Two records that begin the same bytes are the same record.
proof fn lemma_record_prefix_free(a: RecordView, b: RecordView, bytes: Seq<u8>)
    requires
        bytes.len() <= u64::MAX,
        record_bytes(a).is_prefix_of(bytes),
        record_bytes(b).is_prefix_of(bytes),
    ensures
        a == b,
{
    let typ_a = bigsize(a.typ as nat);
    let typ_b = bigsize(b.typ as nat);
    assert(typ_a =~= record_bytes(a).take(typ_a.len() as int));
    assert(typ_b =~= record_bytes(b).take(typ_b.len() as int));
    assert(typ_a.is_prefix_of(bytes));
    assert(typ_b.is_prefix_of(bytes));
    lemma_bigsize_prefix_free(a.typ as nat, b.typ as nat, bytes);
    let rest = bytes.skip(typ_a.len() as int);
    let len_a = bigsize(a.value.len());
    let len_b = bigsize(b.value.len());
    assert(len_a =~= record_bytes(a).subrange(typ_a.len() as int, (typ_a.len() + len_a.len()) as int));
    assert(len_b =~= record_bytes(b).subrange(typ_b.len() as int, (typ_b.len() + len_b.len()) as int));
    assert(len_a =~= rest.take(len_a.len() as int));
    assert(len_b =~= rest.take(len_b.len() as int));
    lemma_bigsize_prefix_free(a.value.len(), b.value.len(), rest);
    let start = (typ_a.len() + len_a.len()) as int;
    assert(a.value =~= record_bytes(a).skip(start));
    assert(b.value =~= record_bytes(b).skip(start));
    assert(a.value =~= bytes.subrange(start, start + a.value.len()));
    assert(b.value =~= bytes.subrange(start, start + b.value.len()));
}

/// A list of records is determined by its bytes.
pub proof fn lemma_stream_bytes_injective(a: Seq<RecordView>, b: Seq<RecordView>)
    requires
        stream_bytes(a) == stream_bytes(b),
        stream_bytes(a).len() <= u64::MAX,
    ensures
        a == b,
    decreases a.len(),
{
    let bytes = stream_bytes(a);
    if a.len() == 0 || b.len() == 0 {
        if a.len() > 0 {
            lemma_bigsize_shape(a[0].typ as nat);
        }
        if b.len() > 0 {
            lemma_bigsize_shape(b[0].typ as nat);
        }
        assert(a =~= b);
    } else {
        let first_a = record_bytes(a[0]);
        let first_b = record_bytes(b[0]);
        assert(first_a =~= bytes.take(first_a.len() as int));
        assert(first_b =~= bytes.take(first_b.len() as int));
        lemma_record_prefix_free(a[0], b[0], bytes);
        assert(stream_bytes(a.drop_first()) =~= bytes.skip(first_a.len() as int));
        assert(stream_bytes(b.drop_first()) =~= bytes.skip(first_b.len() as int));
        lemma_stream_bytes_injective(a.drop_first(), b.drop_first());
        assert(a =~= seq![a[0]] + a.drop_first());
        assert(b =~= seq![b[0]] + b.drop_first());
    }
}

/// The structure that bytes begin with is determined.
pub proof fn lemma_struct_determined(bytes: Seq<u8>, a: Seq<RecordView>, b: Seq<RecordView>)
    requires
        bytes.len() <= u64::MAX,
        starts_with_struct(bytes, a),
        starts_with_struct(bytes, b),
    ensures
        a == b,
{
    let len_a = bigsize(stream_bytes(a).len());
    let len_b = bigsize(stream_bytes(b).len());
    assert(len_a =~= struct_bytes(a).take(len_a.len() as int));
    assert(len_b =~= struct_bytes(b).take(len_b.len() as int));
    assert(len_a =~= bytes.take(len_a.len() as int));
    assert(len_b =~= bytes.take(len_b.len() as int));
    lemma_bigsize_prefix_free(stream_bytes(a).len(), stream_bytes(b).len(), bytes);
    let start = len_a.len() as int;
    assert(stream_bytes(a) =~= struct_bytes(a).skip(start));
    assert(stream_bytes(b) =~= struct_bytes(b).skip(start));
    assert(stream_bytes(a) =~= bytes.subrange(start, start + stream_bytes(a).len()));
    assert(stream_bytes(b) =~= bytes.subrange(start, start + stream_bytes(b).len()));
    lemma_stream_bytes_injective(a, b);
}

/// Bytes that begin with a structure are read as its records.
pub proof fn lemma_struct_records(bytes: Seq<u8>, list: Seq<RecordView>)
    requires
        bytes.len() <= u64::MAX,
        starts_with_struct(bytes, list),
    ensures
        struct_records(bytes) == Some(list),
{
    lemma_struct_determined(bytes, struct_records(bytes)->0, list);
}

/// The bytes of a list with one more record at its end.
proof fn lemma_stream_bytes_push(list: Seq<RecordView>, record: RecordView)
    ensures
        stream_bytes(list.push(record)) == stream_bytes(list) + record_bytes(record),
    decreases list.len(),
{
    let longer = list.push(record);
    if list.len() == 0 {
        assert(longer.drop_first() =~= Seq::<RecordView>::empty());
        assert(stream_bytes(longer.drop_first()) =~= Seq::<u8>::empty());
        assert(stream_bytes(longer) =~= record_bytes(record));
        assert(stream_bytes(list) + record_bytes(record) =~= record_bytes(record));
    } else {
        assert(longer.drop_first() =~= list.drop_first().push(record));
        lemma_stream_bytes_push(list.drop_first(), record);
        assert(stream_bytes(longer) =~= stream_bytes(list) + record_bytes(record));
    }
}

/// What follows a record in a stream is a stream.
proof fn lemma_stream_tail(bytes: Seq<u8>, record: RecordView)
    requires
        bytes.len() <= u64::MAX,
        is_stream(bytes),
        record_bytes(record).is_prefix_of(bytes),
    ensures
        is_stream(bytes.skip(record_bytes(record).len() as int)),
{
    let list = choose|list: Seq<RecordView>| stream_bytes(list) == bytes;
    lemma_bigsize_shape(record.typ as nat);
    assert(list.len() > 0);
    let first = record_bytes(list[0]);
    assert(first =~= bytes.take(first.len() as int));
    lemma_record_prefix_free(list[0], record, bytes);
    assert(stream_bytes(list.drop_first()) =~= bytes.skip(first.len() as int));
}

/// A stream that is not empty begins with a record.
proof fn lemma_stream_head(bytes: Seq<u8>) -> (record: RecordView)
    requires
        is_stream(bytes),
        bytes.len() > 0,
    ensures
        record_bytes(record).is_prefix_of(bytes),
{
    let list = choose|list: Seq<RecordView>| stream_bytes(list) == bytes;
    assert(list.len() > 0);
    let first = record_bytes(list[0]);
    assert(first =~= bytes.take(first.len() as int));
    list[0]
}

/// Appends the last `width` bytes of a number, the most significant first.
fn push_be(out: &mut Vec<u8>, n: u64, width: usize)
    ensures
        final(out)@ == old(out)@ + be_bytes(n as nat, width as nat),
    decreases width,
{
    if width > 0 {
        push_be(out, n / 256, width - 1);
        out.push((n % 256) as u8);
    }
    assert(out@ =~= old(out)@ + be_bytes(n as nat, width as nat));
}

/// Appends a variable-length integer.
fn push_bigsize(out: &mut Vec<u8>, n: u64)
    ensures
        final(out)@ == old(out)@ + bigsize(n as nat),
{
    if n < 0xFD {
        push_be(out, n, 1);
    } else if n < 0x1_0000 {
        out.push(0xFD);
        push_be(out, n, 2);
    } else if n < 0x1_0000_0000 {
        out.push(0xFE);
        push_be(out, n, 4);
    } else {
        out.push(0xFF);
        push_be(out, n, 8);
    }
    assert(out@ =~= old(out)@ + bigsize(n as nat));
}

/// The bytes of a number, the most significant first.
pub fn be_vec(n: u64, width: usize) -> (res: Vec<u8>)
    ensures
        res@ == be_bytes(n as nat, width as nat),
{
    let mut out: Vec<u8> = Vec::new();
    push_be(&mut out, n, width);
    assert(out@ =~= be_bytes(n as nat, width as nat));
    out
}

/// The number that the bytes from `start` up to `end` stand for, the most significant first.
fn read_be(bytes: &Vec<u8>, start: usize, end: usize) -> (res: u64)
    requires
        start <= end <= bytes.len(),
        end - start <= 8,
    ensures
        res == be_value(bytes@.subrange(start as int, end as int)),
{
    let mut n: u64 = 0;
    let mut i: usize = start;
    while i < end
        invariant
            start <= i <= end <= bytes.len(),
            end - start <= 8,
            n == be_value(bytes@.subrange(start as int, i as int)),
        decreases end - i,
    {
        let ghost so_far = bytes@.subrange(start as int, i as int);
        let ghost longer = bytes@.subrange(start as int, i + 1);
        assert(longer.drop_last() =~= so_far);
        assert(n * 256 + bytes@[i as int] < 0x1_0000_0000_0000_0000) by {
            lemma_be_bytes_of_value(so_far);
            reveal_with_fuel(pow256, 9);
        }
        n = n * 256 + bytes[i] as u64;
        i += 1;
    }
    n
}

/// The number that all of the bytes stand for, the most significant first.
pub fn be_number(bytes: &Vec<u8>) -> (res: u64)
    requires
        bytes.len() <= 8,
    ensures
        res == be_value(bytes@),
{
    assert(bytes@.subrange(0, bytes.len() as int) =~= bytes@);
    read_be(bytes, 0, bytes.len())
}

/// Reads the variable-length integer that the bytes from `start` up to `end` begin with, and
/// returns it and where it ends.
fn read_bigsize(bytes: &Vec<u8>, start: usize, end: usize) -> (res: Option<(u64, usize)>)
    requires
        start <= end <= bytes.len(),
    ensures
        match res {
            Some((n, next)) => {
                &&& start < next <= end
                &&& bytes@.subrange(start as int, next as int) == bigsize(n as nat)
            },
            None => forall|n: u64|
                !#[trigger] bigsize(n as nat).is_prefix_of(
                    bytes@.subrange(start as int, end as int),
                ),
        },
{
    let ghost given = bytes@.subrange(start as int, end as int);
    proof {
        lemma_pow256_values();
        assert forall|n: u64|
            #[trigger] bigsize(n as nat).is_prefix_of(given) implies given.len() >= bigsize(
            n as nat,
        ).len() && given[0] == bigsize(n as nat)[0] by {
            lemma_bigsize_shape(n as nat);
        }
        assert forall|n: u64| #[trigger] bigsize(n as nat).len() > 0 by {
            lemma_bigsize_shape(n as nat);
        }
    }
    if start == end {
        return None;
    }
    let first = bytes[start];
    assert(given[0] == first);
    if first < 0xFD {
        proof {
            reveal_with_fuel(be_bytes, 2);
            assert(bytes@.subrange(start as int, start + 1) =~= bigsize(first as nat));
        }
        return Some((first as u64, start + 1));
    }
    let width: usize = if first == 0xFD {
        2
    } else if first == 0xFE {
        4
    } else {
        8
    };
    let least: u64 = if first == 0xFD {
        0xFD
    } else if first == 0xFE {
        0x1_0000
    } else {
        0x1_0000_0000
    };
    proof {
        assert forall|n: u64| #[trigger] bigsize(n as nat).is_prefix_of(given) implies n >= least
            && given.len() >= 1 + width && be_value(given.subrange(1, 1 + width)) == n by {
            lemma_bigsize_shape(n as nat);
            assert(bigsize(n as nat).drop_first() =~= be_bytes(n as nat, width as nat));
            assert(given.subrange(1, 1 + width) =~= be_bytes(n as nat, width as nat));
            lemma_be_value_of_bytes(n as nat, width as nat);
        }
    }
    if end - start - 1 < width {
        return None;
    }
    let next: usize = start + 1 + width;
    let n = read_be(bytes, start + 1, next);
    let ghost read = bytes@.subrange(start + 1, next as int);
    assert(given.subrange(1, 1 + width) =~= read);
    if n < least {
        return None;
    }
    proof {
        lemma_be_bytes_of_value(read);
        assert(bytes@.subrange(start as int, next as int) =~= seq![first] + read);
    }
    Some((n, next))
}

/// Appends a record.
fn push_record(out: &mut Vec<u8>, record: &Record)
    ensures
        final(out)@ == old(out)@ + record_bytes(record@),
{
    push_bigsize(out, record.typ);
    push_bigsize(out, record.value.len() as u64);
    let mut i: usize = 0;
    while i < record.value.len()
        invariant
            i <= record.value.len(),
            out@ == old(out)@ + bigsize(record.typ as nat) + bigsize(record.value@.len())
                + record.value@.take(i as int),
        decreases record.value.len() - i,
    {
        out.push(record.value[i]);
        assert(record.value@.take(i + 1) =~= record.value@.take(i as int).push(
            record.value@[i as int],
        ));
        i += 1;
    }
    assert(record.value@.take(i as int) =~= record.value@);
    assert(out@ =~= old(out)@ + record_bytes(record@));
}

/// The bytes of a structure with these records.
pub fn write_struct(list: &Vec<Record>) -> (res: Vec<u8>)
    ensures
        res@ == struct_bytes(records(list@)),
{
    let mut body: Vec<u8> = Vec::new();
    let mut i: usize = 0;
    while i < list.len()
        invariant
            i <= list.len(),
            body@ == stream_bytes(records(list@).take(i as int)),
        decreases list.len() - i,
    {
        push_record(&mut body, &list[i]);
        proof {
            let done = records(list@).take(i as int);
            lemma_stream_bytes_push(done, list[i as int]@);
            assert(records(list@).take(i + 1) =~= done.push(list[i as int]@));
        }
        i += 1;
    }
    assert(records(list@).take(i as int) =~= records(list@));
    let mut out: Vec<u8> = Vec::new();
    push_bigsize(&mut out, body.len() as u64);
    let ghost stream = body@;
    out.append(&mut body);
    assert(out@ =~= bigsize(stream.len()) + stream);
    out
}

/// Reads the record that the bytes from `start` up to `end` begin with, and returns it and where it
/// ends.
fn read_record(bytes: &Vec<u8>, start: usize, end: usize) -> (res: Option<(Record, usize)>)
    requires
        start <= end <= bytes.len(),
    ensures
        match res {
            Some((record, next)) => {
                &&& start < next <= end
                &&& bytes@.subrange(start as int, next as int) == record_bytes(record@)
            },
            None => forall|record: RecordView|
                !#[trigger] record_bytes(record).is_prefix_of(
                    bytes@.subrange(start as int, end as int),
                ),
        },
{
    let ghost given = bytes@.subrange(start as int, end as int);
    proof {
        assert forall|record: RecordView|
            #[trigger] record_bytes(record).is_prefix_of(given) implies bigsize(
            record.typ as nat,
        ).is_prefix_of(given) by {
            let typ = bigsize(record.typ as nat);
            assert(typ =~= record_bytes(record).take(typ.len() as int));
        }
    }
    let (typ, after_typ) = match read_bigsize(bytes, start, end) {
        Some(read) => read,
        None => {
            return None;
        },
    };
    let ghost typ_bytes = bigsize(typ as nat);
    let ghost rest = bytes@.subrange(after_typ as int, end as int);
    proof {
        assert(rest =~= given.skip(typ_bytes.len() as int));
        assert(typ_bytes =~= given.take(typ_bytes.len() as int));
        assert forall|record: RecordView|
            #[trigger] record_bytes(record).is_prefix_of(given) implies record.typ == typ
            && bigsize(record.value.len()).is_prefix_of(rest) && record.value.len() <= u64::MAX by {
            lemma_bigsize_prefix_free(record.typ as nat, typ as nat, given);
            let len = bigsize(record.value.len());
            assert(len =~= record_bytes(record).subrange(
                typ_bytes.len() as int,
                (typ_bytes.len() + len.len()) as int,
            ));
            assert(len =~= rest.take(len.len() as int));
        }
    }
    let (len, after_len) = match read_bigsize(bytes, after_typ, end) {
        Some(read) => read,
        None => {
            proof {
                assert forall|record: RecordView|
                    !#[trigger] record_bytes(record).is_prefix_of(given) by {
                    if record_bytes(record).is_prefix_of(given) {
                        let len = record.value.len() as u64;
                        assert(!bigsize(len as nat).is_prefix_of(rest));
                    }
                }
            }
            return None;
        },
    };
    proof {
        assert(bigsize(len as nat) =~= rest.take(bigsize(len as nat).len() as int));
        assert forall|record: RecordView|
            #[trigger] record_bytes(record).is_prefix_of(given) implies record.value.len() == len by {
            lemma_bigsize_prefix_free(record.value.len(), len as nat, rest);
        }
    }
    if len > (end - after_len) as u64 {
        return None;
    }
    let next: usize = after_len + len as usize;
    let mut value: Vec<u8> = Vec::new();
    let mut i: usize = after_len;
    while i < next
        invariant
            after_len <= i <= next <= bytes.len(),
            value@ == bytes@.subrange(after_len as int, i as int),
        decreases next - i,
    {
        value.push(bytes[i]);
        i += 1;
        assert(value@ =~= bytes@.subrange(after_len as int, i as int));
    }
    let record = Record { typ, value };
    assert(bytes@.subrange(start as int, next as int) =~= record_bytes(record@)) by {
        assert(bytes@.subrange(start as int, next as int) =~= bytes@.subrange(
            start as int,
            after_typ as int,
        ) + bytes@.subrange(after_typ as int, after_len as int) + bytes@.subrange(
            after_len as int,
            next as int,
        ));
    }
    Some((record, next))
}

/// Reads the bytes from `start` up to `end` as a list of records.
fn read_stream(bytes: &Vec<u8>, start: usize, end: usize) -> (res: Option<Vec<Record>>)
    requires
        start <= end <= bytes.len(),
    ensures
        match res {
            Some(list) => stream_bytes(records(list@)) == bytes@.subrange(
                start as int,
                end as int,
            ),
            None => !is_stream(bytes@.subrange(start as int, end as int)),
        },
{
    let mut list: Vec<Record> = Vec::new();
    let mut pos: usize = start;
    assert(records(list@) =~= Seq::<RecordView>::empty());
    assert(bytes@.subrange(start as int, pos as int) =~= Seq::<u8>::empty());
    while pos < end
        invariant
            start <= pos <= end <= bytes.len(),
            stream_bytes(records(list@)) == bytes@.subrange(start as int, pos as int),
            is_stream(bytes@.subrange(start as int, end as int)) ==> is_stream(
                bytes@.subrange(pos as int, end as int),
            ),
        decreases end - pos,
    {
        let ghost rest = bytes@.subrange(pos as int, end as int);
        match read_record(bytes, pos, end) {
            Some((record, next)) => {
                proof {
                    let this = bytes@.subrange(pos as int, next as int);
                    assert(this =~= rest.take(this.len() as int));
                    assert(bytes@.subrange(next as int, end as int) =~= rest.skip(
                        this.len() as int,
                    ));
                    if is_stream(rest) {
                        lemma_stream_tail(rest, record@);
                    }
                    lemma_stream_bytes_push(records(list@), record@);
                    assert(bytes@.subrange(start as int, next as int) =~= bytes@.subrange(
                        start as int,
                        pos as int,
                    ) + this);
                    assert(records(list@.push(record)) =~= records(list@).push(record@));
                }
                list.push(record);
                pos = next;
            },
            None => {
                proof {
                    if is_stream(rest) {
                        let record = lemma_stream_head(rest);
                    }
                }
                return None;
            },
        }
    }
    Some(list)
}

/// Whether the types ascend, so that no two records share one.
pub open spec fn ordered(list: Seq<RecordView>) -> bool {
    forall|i: int, j: int| 0 <= i < j < list.len() ==> list[i].typ < list[j].typ
}

/// Whether a reader that knows these types understands the records: those of a type that it does
/// not know can be skipped.
pub open spec fn understood(list: Seq<RecordView>, known: Seq<u64>) -> bool {
    forall|i: int|
        0 <= i < list.len() ==> known.contains((#[trigger] list[i]).typ) || list[i].typ % 2 == 1
}

/// The records of the structure that the bytes begin with, as a reader that knows these types
/// takes them; `None` if it refuses them.
pub open spec fn struct_read(bytes: Seq<u8>, known: Seq<u64>) -> Option<Seq<RecordView>> {
    match struct_records(bytes) {
        Some(list) => if ordered(list) && understood(list, known) {
            Some(list)
        } else {
            None
        },
        None => None,
    }
}

/// Whether the records are in order and understood by a reader that knows these types.
fn accepts(list: &Vec<Record>, known: &Vec<u64>) -> (res: bool)
    ensures
        res == (ordered(records(list@)) && understood(records(list@), known@)),
{
    let ghost held = records(list@);
    let mut i: usize = 0;
    while i < list.len()
        invariant
            i <= list.len(),
            held == records(list@),
            ordered(held.take(i as int)),
            forall|j: int|
                0 <= j < i ==> known@.contains((#[trigger] held[j]).typ) || held[j].typ % 2 == 1,
        decreases list.len() - i,
    {
        if i > 0 && list[i].typ <= list[i - 1].typ {
            assert(held[i - 1].typ >= held[i as int].typ);
            return false;
        }
        let mut k: usize = 0;
        while k < known.len() && known[k] != list[i].typ
            invariant
                i < list.len(),
                k <= known.len(),
                forall|j: int| 0 <= j < k ==> known[j] != list[i as int].typ,
            decreases known.len() - k,
        {
            k += 1;
        }
        assert(known@.contains(list[i as int].typ) == (k < known.len()));
        if k == known.len() && list[i].typ % 2 == 0 {
            assert(held[i as int].typ % 2 == 0);
            return false;
        }
        assert(ordered(held.take(i + 1))) by {
            let longer = held.take(i + 1);
            assert forall|a: int, b: int| 0 <= a < b < longer.len() implies longer[a].typ
                < longer[b].typ by {
                if b == i {
                    assert(longer[i - 1].typ < longer[i as int].typ);
                    if a < i - 1 {
                        assert(held.take(i as int)[a].typ < held.take(i as int)[i - 1].typ);
                    }
                } else {
                    assert(held.take(i as int)[a].typ < held.take(i as int)[b].typ);
                }
            }
        }
        i += 1;
    }
    assert(held.take(i as int) =~= held);
    true
}

/// Reads the structure that the bytes begin with, as a reader that knows these types, and returns
/// its records and how many bytes it takes up.
pub fn read_struct(bytes: &Vec<u8>, known: &Vec<u64>) -> (res: Option<(Vec<Record>, usize)>)
    ensures
        match res {
            Some((list, len)) => {
                &&& struct_read(bytes@, known@) == Some(records(list@))
                &&& len == struct_bytes(records(list@)).len()
                &&& len <= bytes.len()
            },
            None => struct_read(bytes@, known@) is None,
        },
{
    let end = bytes.len();
    proof {
        assert(bytes@.subrange(0, end as int) =~= bytes@);
        assert forall|list: Seq<RecordView>| #[trigger]
            starts_with_struct(bytes@, list) implies bigsize(
            stream_bytes(list).len(),
        ).is_prefix_of(bytes@) && stream_bytes(list).len() <= bytes.len() by {
            let len = bigsize(stream_bytes(list).len());
            assert(len =~= struct_bytes(list).take(len.len() as int));
        }
    }
    let (len, after_len) = match read_bigsize(bytes, 0, end) {
        Some(read) => read,
        None => {
            proof {
                assert forall|list: Seq<RecordView>| !#[trigger] starts_with_struct(bytes@, list) by {
                    if starts_with_struct(bytes@, list) {
                        let n = stream_bytes(list).len() as u64;
                        assert(!bigsize(n as nat).is_prefix_of(bytes@));
                    }
                }
            }
            return None;
        },
    };
    proof {
        assert(bytes@.subrange(0, after_len as int) =~= bytes@.take(after_len as int));
        assert forall|list: Seq<RecordView>| #[trigger]
            starts_with_struct(bytes@, list) implies stream_bytes(list).len() == len
            && after_len + len <= end && stream_bytes(list) == bytes@.subrange(
            after_len as int,
            after_len + len,
        ) by {
            lemma_bigsize_prefix_free(stream_bytes(list).len(), len as nat, bytes@);
            assert(stream_bytes(list) =~= struct_bytes(list).skip(after_len as int));
            assert(stream_bytes(list) =~= bytes@.subrange(after_len as int, after_len + len));
        }
    }
    if len > (end - after_len) as u64 {
        return None;
    }
    let next: usize = after_len + len as usize;
    match read_stream(bytes, after_len, next) {
        Some(list) => {
            proof {
                let held = records(list@);
                assert(struct_bytes(held) =~= bytes@.take(next as int));
                lemma_struct_records(bytes@, held);
            }
            if accepts(&list, known) {
                Some((list, next))
            } else {
                None
            }
        },
        None => None,
    }
}

} // verus!
