//! MessagePack, the form in which the scripts take their packed arguments.
//!
//! The spec functions give the bytes of each kind of value; the functions below append them to
//! a buffer with the `rmp` crate.

use vstd::prelude::*;
use vstd::utf8::encode_utf8;

verus! {

/// The lowest `width` bytes of a number, the most significant first.
pub open spec fn big_endian(n: nat, width: nat) -> Seq<u8>
    decreases width,
{
    if width == 0 {
        Seq::empty()
    } else {
        big_endian(n / 256, (width - 1) as nat).push((n % 256) as u8)
    }
}

/// An unsigned integer, in the shortest form.
pub open spec fn packed_uint(n: nat) -> Seq<u8> {
    if n < 0x80 {
        seq![n as u8]
    } else if n < 0x100 {
        seq![0xccu8] + big_endian(n, 1)
    } else if n < 0x1_0000 {
        seq![0xcdu8] + big_endian(n, 2)
    } else if n < 0x1_0000_0000 {
        seq![0xceu8] + big_endian(n, 4)
    } else {
        seq![0xcfu8] + big_endian(n, 8)
    }
}

/// A signed integer, in the shortest form; a negative one in two's complement.
pub open spec fn packed_sint(n: int) -> Seq<u8> {
    if n >= 0 {
        packed_uint(n as nat)
    } else if n >= -0x20 {
        seq![(n + 0x100) as u8]
    } else if n >= -0x80 {
        seq![0xd0u8] + big_endian((n + 0x100) as nat, 1)
    } else if n >= -0x8000 {
        seq![0xd1u8] + big_endian((n + 0x1_0000) as nat, 2)
    } else if n >= -0x8000_0000 {
        seq![0xd2u8] + big_endian((n + 0x1_0000_0000) as nat, 4)
    } else {
        seq![0xd3u8] + big_endian((n + 0x1_0000_0000_0000_0000) as nat, 8)
    }
}

/// What stands before the bytes of a string of the given length.
pub open spec fn string_head(len: nat) -> Seq<u8> {
    if len < 0x20 {
        seq![(0xa0 + len) as u8]
    } else if len < 0x100 {
        seq![0xd9u8] + big_endian(len, 1)
    } else if len < 0x1_0000 {
        seq![0xdau8] + big_endian(len, 2)
    } else {
        seq![0xdbu8] + big_endian(len, 4)
    }
}

/// A string: its length in bytes, of which a head holds the lowest 32 bits, and its bytes in
/// UTF-8.
pub open spec fn packed_str(s: Seq<char>) -> Seq<u8> {
    string_head(encode_utf8(s).len() % 0x1_0000_0000) + encode_utf8(s)
}

/// What stands before the elements of an array.
pub open spec fn array_head(len: nat) -> Seq<u8> {
    if len < 0x10 {
        seq![(0x90 + len) as u8]
    } else if len < 0x1_0000 {
        seq![0xdcu8] + big_endian(len, 2)
    } else {
        seq![0xddu8] + big_endian(len, 4)
    }
}

/// What stands before the keys and values of a map.
pub open spec fn map_head(len: nat) -> Seq<u8> {
    if len < 0x10 {
        seq![(0x80 + len) as u8]
    } else if len < 0x1_0000 {
        seq![0xdeu8] + big_endian(len, 2)
    } else {
        seq![0xdfu8] + big_endian(len, 4)
    }
}

pub open spec fn packed_nil() -> Seq<u8> {
    seq![0xc0u8]
}

pub open spec fn packed_bool(b: bool) -> Seq<u8> {
    if b {
        seq![0xc3u8]
    } else {
        seq![0xc2u8]
    }
}

/// One if there is a value, else none.
pub open spec fn present<T>(value: Option<T>) -> nat {
    if value is Some {
        1
    } else {
        0
    }
}

/// An entry of a packed map: key and value, or nothing where there is no value.
pub open spec fn entry(key: Seq<char>, value: Option<Seq<u8>>) -> Seq<u8> {
    match value {
        Some(packed) => packed_str(key) + packed,
        None => Seq::empty(),
    }
}

/// `rmp::encode::write_uint` appends an unsigned integer in its shortest form. Writing to a
/// vector does not fail.
#[verifier::external_body]
pub(crate) fn write_uint(buf: &mut Vec<u8>, n: u64)
    ensures
        final(buf)@ == old(buf)@ + packed_uint(n as nat),
{
    rmp::encode::write_uint(buf, n).unwrap();
}

/// `rmp::encode::write_sint` appends a signed integer in its shortest form; one that is not
/// negative takes the unsigned form. Writing to a vector does not fail.
#[verifier::external_body]
pub(crate) fn write_sint(buf: &mut Vec<u8>, n: i64)
    ensures
        final(buf)@ == old(buf)@ + packed_sint(n as int),
{
    rmp::encode::write_sint(buf, n).unwrap();
}

/// `rmp::encode::write_str` appends a string head for the lowest 32 bits of the string's length
/// in bytes, and the bytes. Writing to a vector does not fail.
#[verifier::external_body]
pub(crate) fn write_str(buf: &mut Vec<u8>, s: &str)
    ensures
        final(buf)@ == old(buf)@ + packed_str(s@),
{
    rmp::encode::write_str(buf, s).unwrap();
}

/// `rmp::encode::write_array_len` appends the head of an array. Writing to a vector does not
/// fail.
#[verifier::external_body]
pub(crate) fn write_array_len(buf: &mut Vec<u8>, len: u32)
    ensures
        final(buf)@ == old(buf)@ + array_head(len as nat),
{
    rmp::encode::write_array_len(buf, len).unwrap();
}

/// `rmp::encode::write_map_len` appends the head of a map. Writing to a vector does not fail.
#[verifier::external_body]
pub(crate) fn write_map_len(buf: &mut Vec<u8>, len: u32)
    ensures
        final(buf)@ == old(buf)@ + map_head(len as nat),
{
    rmp::encode::write_map_len(buf, len).unwrap();
}

/// `rmp::encode::write_nil` appends the nil byte. Writing to a vector does not fail.
#[verifier::external_body]
pub(crate) fn write_nil(buf: &mut Vec<u8>)
    ensures
        final(buf)@ == old(buf)@ + packed_nil(),
{
    rmp::encode::write_nil(buf).unwrap();
}

/// `rmp::encode::write_bool` appends the byte of a truth value. Writing to a vector does not
/// fail.
#[verifier::external_body]
pub(crate) fn write_bool(buf: &mut Vec<u8>, b: bool)
    ensures
        final(buf)@ == old(buf)@ + packed_bool(b),
{
    rmp::encode::write_bool(buf, b).unwrap();
}

// What is packed can be told apart again: values of one kind are packed differently, and where
// one ends does not depend on what follows.

/// The number that bytes stand for, the most significant first.
pub open spec fn big_endian_value(bytes: Seq<u8>) -> nat
    decreases bytes.len(),
{
    if bytes.len() == 0 {
        0
    } else {
        big_endian_value(bytes.drop_last()) * 256 + bytes.last() as nat
    }
}

/// How many numbers fit into so many bytes.
pub open spec fn numbers_in(width: nat) -> nat
    decreases width,
{
    if width == 0 {
        1
    } else {
        256 * numbers_in((width - 1) as nat)
    }
}

/// A number that fits into its bytes is their value.
proof fn lemma_big_endian(n: nat, width: nat)
    ensures
        big_endian(n, width).len() == width,
        n < numbers_in(width) ==> big_endian_value(big_endian(n, width)) == n,
    decreases width,
{
    if width > 0 {
        lemma_big_endian(n / 256, (width - 1) as nat);
        let s = big_endian(n, width);
        assert(s.drop_last() =~= big_endian(n / 256, (width - 1) as nat));
        assert(s.last() as nat == n % 256);
    }
}

/// The widths that are used.
proof fn lemma_widths()
    ensures
        numbers_in(1) == 0x100,
        numbers_in(2) == 0x1_0000,
        numbers_in(4) == 0x1_0000_0000,
        numbers_in(8) == 0x1_0000_0000_0000_0000,
{
    reveal_with_fuel(numbers_in, 9);
}

/// Sequences that start with parts of equal length agree in those parts and in what follows.
pub(crate) proof fn lemma_cut(p: Seq<u8>, q: Seq<u8>, x: Seq<u8>, y: Seq<u8>)
    requires
        p + x == q + y,
        p.len() == q.len(),
    ensures
        p == q,
        x == y,
{
    assert(p =~= (p + x).take(p.len() as int));
    assert(q =~= (q + y).take(q.len() as int));
    assert(x =~= (p + x).skip(p.len() as int));
    assert(y =~= (q + y).skip(q.len() as int));
}

/// A marker and a number of a certain width: the number follows from the bytes.
proof fn lemma_marked(marker: u8, a: nat, b: nat, width: nat, x: Seq<u8>, y: Seq<u8>)
    requires
        (seq![marker] + big_endian(a, width)) + x == (seq![marker] + big_endian(b, width)) + y,
        a < numbers_in(width),
        b < numbers_in(width),
    ensures
        a == b,
        x == y,
{
    lemma_big_endian(a, width);
    lemma_big_endian(b, width);
    let (p, q) = (seq![marker] + big_endian(a, width), seq![marker] + big_endian(b, width));
    lemma_cut(p, q, x, y);
    assert(big_endian(a, width) =~= p.skip(1));
    assert(big_endian(b, width) =~= q.skip(1));
}

/// Unsigned integers of 64 bits are packed differently, and end where they end.
pub proof fn law_uint_unambiguous(a: nat, b: nat, x: Seq<u8>, y: Seq<u8>)
    requires
        a <= u64::MAX,
        b <= u64::MAX,
        packed_uint(a) + x == packed_uint(b) + y,
    ensures
        a == b,
        x == y,
{
    lemma_widths();
    let (p, q) = (packed_uint(a), packed_uint(b));
    lemma_uint_first(a);
    lemma_uint_first(b);
    assert(p[0] == (p + x)[0]);
    assert(q[0] == (q + y)[0]);
    if a < 0x80 {
        lemma_cut(p, q, x, y);
    } else if a < 0x100 {
        lemma_marked(0xcc, a, b, 1, x, y);
    } else if a < 0x1_0000 {
        lemma_marked(0xcd, a, b, 2, x, y);
    } else if a < 0x1_0000_0000 {
        lemma_marked(0xce, a, b, 4, x, y);
    } else {
        lemma_marked(0xcf, a, b, 8, x, y);
    }
}

/// The first byte of an unsigned integer.
proof fn lemma_uint_first(n: nat)
    ensures
        packed_uint(n).len() > 0,
        packed_uint(n)[0] == if n < 0x80 {
            n as u8
        } else if n < 0x100 {
            0xccu8
        } else if n < 0x1_0000 {
            0xcdu8
        } else if n < 0x1_0000_0000 {
            0xceu8
        } else {
            0xcfu8
        },
{
}

/// Signed integers of 64 bits are packed differently, and end where they end.
pub proof fn law_sint_unambiguous(a: int, b: int, x: Seq<u8>, y: Seq<u8>)
    requires
        i64::MIN <= a <= i64::MAX,
        i64::MIN <= b <= i64::MAX,
        packed_sint(a) + x == packed_sint(b) + y,
    ensures
        a == b,
        x == y,
{
    lemma_widths();
    let (p, q) = (packed_sint(a), packed_sint(b));
    lemma_sint_first(a);
    lemma_sint_first(b);
    assert(p[0] == (p + x)[0]);
    assert(q[0] == (q + y)[0]);
    if a >= 0 {
        law_uint_unambiguous(a as nat, b as nat, x, y);
    } else if a >= -0x20 {
        lemma_cut(p, q, x, y);
    } else if a >= -0x80 {
        lemma_marked(0xd0, (a + 0x100) as nat, (b + 0x100) as nat, 1, x, y);
    } else if a >= -0x8000 {
        lemma_marked(0xd1, (a + 0x1_0000) as nat, (b + 0x1_0000) as nat, 2, x, y);
    } else if a >= -0x8000_0000 {
        lemma_marked(0xd2, (a + 0x1_0000_0000) as nat, (b + 0x1_0000_0000) as nat, 4, x, y);
    } else {
        lemma_marked(
            0xd3,
            (a + 0x1_0000_0000_0000_0000) as nat,
            (b + 0x1_0000_0000_0000_0000) as nat,
            8,
            x,
            y,
        );
    }
}

/// The first byte of a signed integer.
pub(crate) proof fn lemma_sint_first(n: int)
    requires
        i64::MIN <= n <= i64::MAX,
    ensures
        packed_sint(n).len() > 0,
        n >= 0 ==> packed_sint(n)[0] < 0x80 || 0xcc <= packed_sint(n)[0] <= 0xcf,
        n < 0 ==> packed_sint(n)[0] == if n >= -0x20 {
            (n + 0x100) as u8
        } else if n >= -0x80 {
            0xd0u8
        } else if n >= -0x8000 {
            0xd1u8
        } else if n >= -0x8000_0000 {
            0xd2u8
        } else {
            0xd3u8
        },
{
    if n >= 0 {
        lemma_uint_first(n as nat);
    }
}

/// Texts of less than four gigabytes are packed differently, and end where they end.
pub proof fn law_str_unambiguous(a: Seq<char>, b: Seq<char>, x: Seq<u8>, y: Seq<u8>)
    requires
        encode_utf8(a).len() < 0x1_0000_0000,
        encode_utf8(b).len() < 0x1_0000_0000,
        packed_str(a) + x == packed_str(b) + y,
    ensures
        a == b,
        x == y,
{
    lemma_widths();
    let (m, n) = (encode_utf8(a).len(), encode_utf8(b).len());
    let (u, v) = (encode_utf8(a) + x, encode_utf8(b) + y);
    let (p, q) = (string_head(m), string_head(n));
    assert(m % 0x1_0000_0000 == m && n % 0x1_0000_0000 == n);
    assert(packed_str(a) + x =~= p + u);
    assert(packed_str(b) + y =~= q + v);
    assert(p[0] == (p + u)[0]);
    assert(q[0] == (q + v)[0]);
    if m < 0x20 {
        lemma_cut(p, q, u, v);
    } else if m < 0x100 {
        lemma_marked(0xd9, m, n, 1, u, v);
    } else if m < 0x1_0000 {
        lemma_marked(0xda, m, n, 2, u, v);
    } else {
        lemma_marked(0xdb, m, n, 4, u, v);
    }
    assert(m == n);
    lemma_cut(encode_utf8(a), encode_utf8(b), x, y);
    vstd::utf8::encode_utf8_decode_utf8(a);
    vstd::utf8::encode_utf8_decode_utf8(b);
}

/// Truth values are packed differently, and end where they end.
pub proof fn law_bool_unambiguous(a: bool, b: bool, x: Seq<u8>, y: Seq<u8>)
    requires
        packed_bool(a) + x == packed_bool(b) + y,
    ensures
        a == b,
        x == y,
{
    lemma_cut(packed_bool(a), packed_bool(b), x, y);
    assert(packed_bool(a)[0] == packed_bool(b)[0]);
}

/// What follows the same start is the same.
pub(crate) proof fn lemma_same_rest(h: Seq<u8>, a: Seq<u8>, b: Seq<u8>)
    requires
        h + a == h + b,
    ensures
        a == b,
{
    lemma_cut(h, h, a, b);
}

/// Whether bytes do not start with the given key.
pub open spec fn without_key(bytes: Seq<u8>, key: Seq<char>) -> bool {
    forall|rest: Seq<u8>| bytes != #[trigger] (packed_str(key) + rest)
}

/// Where nothing follows, no key follows.
pub(crate) proof fn lemma_no_key_at_end(key: Seq<char>)
    ensures
        without_key(Seq::empty(), key),
{
    assert forall|rest: Seq<u8>| Seq::<u8>::empty() != #[trigger] (packed_str(key) + rest) by {
        assert((packed_str(key) + rest).len() > 0);
    }
}

/// An entry under another key keeps bytes free of a key.
pub(crate) proof fn lemma_entry_without(
    key: Seq<char>,
    other: Seq<char>,
    value: Option<Seq<u8>>,
    rest: Seq<u8>,
)
    requires
        key != other,
        encode_utf8(key).len() < 0x1_0000_0000,
        encode_utf8(other).len() < 0x1_0000_0000,
        without_key(rest, key),
    ensures
        without_key(entry(other, value) + rest, key),
{
    let bytes = entry(other, value) + rest;
    assert forall|tail: Seq<u8>| bytes != #[trigger] (packed_str(key) + tail) by {
        if bytes == packed_str(key) + tail {
            match value {
                Some(packed) => {
                    assert(bytes =~= packed_str(other) + (packed + rest));
                    law_str_unambiguous(other, key, packed + rest, tail);
                },
                None => {
                    assert(bytes =~= rest);
                },
            }
        }
    }
}

/// An entry that is there in one map is there in the other, and what follows the key is the same.
pub(crate) proof fn lemma_entry(
    key: Seq<char>,
    a: Option<Seq<u8>>,
    b: Option<Seq<u8>>,
    x: Seq<u8>,
    y: Seq<u8>,
)
    requires
        entry(key, a) + x == entry(key, b) + y,
        without_key(x, key),
        without_key(y, key),
    ensures
        a is Some <==> b is Some,
        a is None ==> x == y,
        a is Some ==> a->0 + x == b->0 + y,
{
    if a is Some {
        assert(entry(key, a) + x =~= packed_str(key) + (a->0 + x));
    } else {
        assert(entry(key, a) + x =~= x);
    }
    if b is Some {
        assert(entry(key, b) + y =~= packed_str(key) + (b->0 + y));
    } else {
        assert(entry(key, b) + y =~= y);
    }
    if a is Some && b is Some {
        lemma_same_rest(packed_str(key), a->0 + x, b->0 + y);
    }
}

// A map as the list of its entries.

/// Keys and values of a map one after the other. A value comes packed.
pub open spec fn packed_entries(entries: Seq<(Seq<char>, Seq<u8>)>) -> Seq<u8>
    decreases entries.len(),
{
    if entries.len() == 0 {
        Seq::empty()
    } else {
        packed_entries(entries.drop_last()) + packed_str(entries.last().0) + entries.last().1
    }
}

/// A map with the given entries: how many they are, and the entries.
pub open spec fn packed_map(entries: Seq<(Seq<char>, Seq<u8>)>) -> Seq<u8> {
    map_head(entries.len()) + packed_entries(entries)
}

/// The entries with one more where there is a value for it.
pub(crate) open spec fn with_entry(
    entries: Seq<(Seq<char>, Seq<u8>)>,
    key: Seq<char>,
    value: Option<Seq<u8>>,
) -> Seq<(Seq<char>, Seq<u8>)> {
    match value {
        Some(packed) => entries.push((key, packed)),
        None => entries,
    }
}

/// One more entry comes after the others.
pub(crate) proof fn lemma_with_entry(
    head: Seq<u8>,
    entries: Seq<(Seq<char>, Seq<u8>)>,
    key: Seq<char>,
    value: Option<Seq<u8>>,
)
    ensures
        with_entry(entries, key, value).len() == entries.len() + present(value),
        head + packed_entries(with_entry(entries, key, value)) == head + packed_entries(entries)
            + entry(key, value),
        value matches Some(packed) ==> head + packed_entries(with_entry(entries, key, value))
            == head + packed_entries(entries) + packed_str(key) + packed,
        forall|k: Seq<char>, v: Seq<u8>| #[trigger]
            with_entry(entries, key, value).contains((k, v)) <==> entries.contains((k, v)) || (k
                == key && value == Some(v)),
{
    let more = with_entry(entries, key, value);
    match value {
        Some(packed) => {
            assert(more.drop_last() =~= entries);
            let (before, name) = (packed_entries(entries), packed_str(key));
            assert(head + (before + name + packed) =~= head + before + (name + packed));
            assert(head + (before + name + packed) =~= head + before + name + packed);
            assert forall|k: Seq<char>, v: Seq<u8>| #[trigger]
                more.contains((k, v)) <==> entries.contains((k, v)) || (k == key && value == Some(
                    v,
                )) by {
                if entries.contains((k, v)) {
                    let i = choose|i: int| 0 <= i < entries.len() && entries[i] == (k, v);
                    assert(more[i] == (k, v));
                }
                if k == key && v == packed {
                    assert(more[entries.len() as int] == (k, v));
                }
            }
        },
        None => {
            assert(head + packed_entries(entries) + Seq::<u8>::empty() =~= head + packed_entries(
                entries,
            ));
        },
    }
}

/// No entries at all.
pub(crate) proof fn lemma_no_entries(head: Seq<u8>)
    ensures
        head + packed_entries(Seq::empty()) == head,
{
    assert(head + packed_entries(Seq::empty()) =~= head);
}

} // verus!
