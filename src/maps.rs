//! The wire format of header maps and property paths exchanged with the host.
//!
//! A map is the entry count as a little-endian `u32`, then a key length and a
//! value length (each a little-endian `u32`) per entry, then each key and each
//! value followed by a zero byte. An empty byte string is the empty map too.
use vstd::prelude::*;
use vstd::slice::slice_to_vec;
use vstd::string::*;
use vstd::utf8::*;

verus! {

/// The little-endian `u32` at `at`.
pub open spec fn le_u32(b: Seq<u8>, at: int) -> u32 {
    (b[at] as u32) | ((b[at + 1] as u32) << 8u32) | ((b[at + 2] as u32) << 16u32) | ((b[at + 3]
        as u32) << 24u32)
}

pub open spec fn u32_le_bytes(x: u32) -> Seq<u8> {
    seq![
        (x & 0xffu32) as u8,
        ((x >> 8u32) & 0xffu32) as u8,
        ((x >> 16u32) & 0xffu32) as u8,
        ((x >> 24u32) & 0xffu32) as u8,
    ]
}

/// The size fields of `pairs`, two per entry.
pub open spec fn encode_sizes(pairs: Seq<(Seq<u8>, Seq<u8>)>) -> Seq<u8>
    decreases pairs.len(),
{
    if pairs.len() == 0 {
        seq![]
    } else {
        let last = pairs.last();
        encode_sizes(pairs.drop_last()) + u32_le_bytes(last.0.len() as u32) + u32_le_bytes(
            last.1.len() as u32,
        )
    }
}

/// The keys and values of `pairs`, each followed by a zero byte.
pub open spec fn encode_data(pairs: Seq<(Seq<u8>, Seq<u8>)>) -> Seq<u8>
    decreases pairs.len(),
{
    if pairs.len() == 0 {
        seq![]
    } else {
        let last = pairs.last();
        encode_data(pairs.drop_last()) + last.0 + seq![0u8] + last.1 + seq![0u8]
    }
}

pub open spec fn encode_map(pairs: Seq<(Seq<u8>, Seq<u8>)>) -> Seq<u8> {
    u32_le_bytes(pairs.len() as u32) + encode_sizes(pairs) + encode_data(pairs)
}

/// Every count and length of `pairs` fits the format's `u32` fields.
pub open spec fn fits_format(pairs: Seq<(Seq<u8>, Seq<u8>)>) -> bool {
    pairs.len() <= u32::MAX && forall|i: int|
        0 <= i < pairs.len() ==> #[trigger] pairs[i].0.len() <= u32::MAX && pairs[i].1.len()
            <= u32::MAX
}

pub open spec fn text_pairs(map: Seq<(&str, &str)>) -> Seq<(Seq<u8>, Seq<u8>)> {
    map.map_values(|p: (&str, &str)| (p.0.spec_bytes(), p.1.spec_bytes()))
}

pub open spec fn byte_pairs(map: Seq<(&str, &[u8])>) -> Seq<(Seq<u8>, Seq<u8>)> {
    map.map_values(|p: (&str, &[u8])| (p.0.spec_bytes(), p.1@))
}

fn read_u32_le(b: &[u8], at: usize) -> (r: u32)
    requires
        at + 4 <= b@.len(),
    ensures
        r == le_u32(b@, at as int),
{
    (b[at] as u32) | ((b[at + 1] as u32) << 8u32) | ((b[at + 2] as u32) << 16u32) | ((b[at + 3]
        as u32) << 24u32)
}

fn push_u32_le(out: &mut Vec<u8>, x: u32)
    ensures
        final(out)@ == old(out)@ + u32_le_bytes(x),
{
    out.push((x & 0xffu32) as u8);
    out.push(((x >> 8u32) & 0xffu32) as u8);
    out.push(((x >> 16u32) & 0xffu32) as u8);
    out.push(((x >> 24u32) & 0xffu32) as u8);
    assert(final(out)@ =~= old(out)@ + u32_le_bytes(x));
}

fn push_all(out: &mut Vec<u8>, src: &[u8])
    ensures
        final(out)@ == old(out)@ + src@,
{
    let ghost start = out@;
    let mut i: usize = 0;
    while i < src.len()
        invariant
            i <= src@.len(),
            out@ == start + src@.subrange(0, i as int),
        decreases src@.len() - i,
    {
        out.push(src[i]);
        i = i + 1;
        assert(out@ =~= start + src@.subrange(0, i as int));
    }
    assert(src@.subrange(0, src@.len() as int) =~= src@);
}

/// Encodes `pairs` (given as byte slices) in the map format.
fn encode_pairs(keys: &Vec<&[u8]>, values: &Vec<&[u8]>) -> (r: Vec<u8>)
    requires
        keys@.len() == values@.len(),
        fits_format(Seq::new(keys@.len(), |i: int| (keys@[i]@, values@[i]@))),
    ensures
        r@ == encode_map(Seq::new(keys@.len(), |i: int| (keys@[i]@, values@[i]@))),
{
    let ghost pairs = Seq::new(keys@.len(), |i: int| (keys@[i]@, values@[i]@));
    let n = keys.len();
    let mut out: Vec<u8> = Vec::new();
    push_u32_le(&mut out, n as u32);
    let mut i: usize = 0;
    while i < n
        invariant
            n == keys@.len(),
            n == values@.len(),
            i <= n,
            fits_format(pairs),
            pairs == Seq::new(keys@.len(), |i: int| (keys@[i]@, values@[i]@)),
            out@ == u32_le_bytes(n as u32) + encode_sizes(pairs.take(i as int)),
        decreases n - i,
    {
        assert(pairs[i as int].0.len() <= u32::MAX);
        push_u32_le(&mut out, keys[i].len() as u32);
        push_u32_le(&mut out, values[i].len() as u32);
        i = i + 1;
        assert(pairs.take(i as int).drop_last() =~= pairs.take(i - 1));
    }
    assert(pairs.take(n as int) =~= pairs);
    let ghost head = out@;
    let mut j: usize = 0;
    while j < n
        invariant
            n == keys@.len(),
            n == values@.len(),
            j <= n,
            pairs == Seq::new(keys@.len(), |i: int| (keys@[i]@, values@[i]@)),
            head == u32_le_bytes(n as u32) + encode_sizes(pairs),
            out@ == head + encode_data(pairs.take(j as int)),
        decreases n - j,
    {
        push_all(&mut out, keys[j]);
        out.push(0u8);
        push_all(&mut out, values[j]);
        out.push(0u8);
        j = j + 1;
        assert(pairs.take(j as int).drop_last() =~= pairs.take(j - 1));
        assert(out@ =~= head + encode_data(pairs.take(j as int)));
    }
    assert(pairs.take(n as int) =~= pairs);
    out
}

/// Encodes a map of text values.
pub fn serialize_map(map: &[(&str, &str)]) -> (r: Vec<u8>)
    requires
        fits_format(text_pairs(map@)),
    ensures
        r@ == encode_map(text_pairs(map@)),
{
    let mut keys: Vec<&[u8]> = Vec::new();
    let mut values: Vec<&[u8]> = Vec::new();
    let mut i: usize = 0;
    while i < map.len()
        invariant
            i <= map@.len(),
            keys@.len() == i,
            values@.len() == i,
            forall|k: int|
                0 <= k < i ==> #[trigger] keys@[k]@ == map@[k].0.spec_bytes() && values@[k]@
                    == map@[k].1.spec_bytes(),
        decreases map@.len() - i,
    {
        keys.push(map[i].0.as_bytes());
        values.push(map[i].1.as_bytes());
        i = i + 1;
    }
    assert(Seq::new(keys@.len(), |k: int| (keys@[k]@, values@[k]@)) =~= text_pairs(map@));
    encode_pairs(&keys, &values)
}

/// Encodes a map of byte values.
pub fn serialize_map_bytes(map: &[(&str, &[u8])]) -> (r: Vec<u8>)
    requires
        fits_format(byte_pairs(map@)),
    ensures
        r@ == encode_map(byte_pairs(map@)),
{
    let mut keys: Vec<&[u8]> = Vec::new();
    let mut values: Vec<&[u8]> = Vec::new();
    let mut i: usize = 0;
    while i < map.len()
        invariant
            i <= map@.len(),
            keys@.len() == i,
            values@.len() == i,
            forall|k: int|
                0 <= k < i ==> #[trigger] keys@[k]@ == map@[k].0.spec_bytes() && values@[k]@
                    == map@[k].1@,
        decreases map@.len() - i,
    {
        keys.push(map[i].0.as_bytes());
        values.push(map[i].1);
        i = i + 1;
    }
    assert(Seq::new(keys@.len(), |k: int| (keys@[k]@, values@[k]@)) =~= byte_pairs(map@));
    encode_pairs(&keys, &values)
}

pub open spec fn entry_count(b: Seq<u8>) -> int {
    le_u32(b, 0) as int
}

pub open spec fn key_len(b: Seq<u8>, i: int) -> int {
    le_u32(b, 4 + 8 * i) as int
}

pub open spec fn value_len(b: Seq<u8>, i: int) -> int {
    le_u32(b, 8 + 8 * i) as int
}

/// Where the key of entry `i` starts.
pub open spec fn entry_start(b: Seq<u8>, i: nat) -> int
    decreases i,
{
    if i == 0 {
        4 + 8 * entry_count(b)
    } else {
        entry_start(b, (i - 1) as nat) + key_len(b, i - 1) + value_len(b, i - 1) + 2
    }
}

/// Every count, length and field the format describes lies inside `b`.
pub open spec fn well_laid_out(b: Seq<u8>) -> bool {
    b.len() == 0 || (b.len() >= 4 && 4 + 8 * entry_count(b) <= b.len() && forall|i: nat|
        i < entry_count(b) ==> #[trigger] entry_start(b, i) + key_len(b, i as int) + 1 + value_len(
            b,
            i as int,
        ) <= b.len())
}

pub open spec fn entry_key(b: Seq<u8>, i: nat) -> Seq<u8> {
    b.subrange(entry_start(b, i), entry_start(b, i) + key_len(b, i as int))
}

pub open spec fn entry_value(b: Seq<u8>, i: nat) -> Seq<u8> {
    b.subrange(
        entry_start(b, i) + key_len(b, i as int) + 1,
        entry_start(b, i) + key_len(b, i as int) + 1 + value_len(b, i as int),
    )
}

/// The key and value bytes of each entry of a well laid out `b`, in order.
pub open spec fn decode_map(b: Seq<u8>) -> Seq<(Seq<u8>, Seq<u8>)> {
    if b.len() == 0 {
        seq![]
    } else {
        Seq::new(entry_count(b) as nat, |i: int| (entry_key(b, i as nat), entry_value(b, i as nat)))
    }
}

/// Every key of the map in `b` is UTF-8, and every value too when `text`.
pub open spec fn valid_text(b: Seq<u8>, text: bool) -> bool {
    forall|i: int|
        0 <= i < decode_map(b).len() ==> valid_utf8(#[trigger] decode_map(b)[i].0) && (text
            ==> valid_utf8(decode_map(b)[i].1))
}

/// Relies on std's String::from_utf8: it accepts exactly the valid UTF-8 byte
/// sequences, and the string holds the characters they encode.
#[verifier::external_body]
fn string_from_utf8(bytes: Vec<u8>) -> (r: Option<String>)
    ensures
        r is Some <==> valid_utf8(bytes@),
        r matches Some(s) ==> s@ == decode_utf8(bytes@),
{
    String::from_utf8(bytes).ok()
}

fn copy_range(b: &[u8], from: usize, to: usize) -> (r: Vec<u8>)
    requires
        from <= to <= b@.len(),
    ensures
        r@ == b@.subrange(from as int, to as int),
{
    let mut out: Vec<u8> = Vec::new();
    let mut i: usize = from;
    while i < to
        invariant
            from <= i <= to <= b@.len(),
            out@ == b@.subrange(from as int, i as int),
        decreases to - i,
    {
        out.push(b[i]);
        i = i + 1;
        assert(out@ =~= b@.subrange(from as int, i as int));
    }
    out
}

/// Whether `bytes` is a map whose fields all lie inside it.
pub fn map_is_well_formed(bytes: &[u8]) -> (r: bool)
    ensures
        r == well_laid_out(bytes@),
{
    let ghost b = bytes@;
    let len = bytes.len();
    if len == 0 {
        return true;
    }
    if len < 4 {
        return false;
    }
    let n = read_u32_le(bytes, 0) as usize;
    if n > (len - 4) / 8 {
        return false;
    }
    let mut p: usize = 4 + 8 * n;
    let mut i: usize = 0;
    while i < n
        invariant
            len == b.len(),
            b == bytes@,
            n == entry_count(b),
            4 + 8 * n <= len,
            i <= n,
            i < n ==> p == entry_start(b, i as nat),
            p <= len,
            forall|j: nat| j < i ==> #[trigger] entry_start(b, j) + key_len(b, j as int) + 1
                + value_len(b, j as int) <= b.len(),
        decreases n - i,
    {
        let k = read_u32_le(bytes, 4 + 8 * i) as usize;
        let v = read_u32_le(bytes, 8 + 8 * i) as usize;
        if k > len - p || v > len - p - k || len - p - k - v < 1 {
            assert(!(entry_start(b, i as nat) + key_len(b, i as int) + 1 + value_len(b, i as int)
                <= b.len()));
            return false;
        }
        if i + 1 < n {
            if len - p - k - v < 2 {
                assert(entry_start(b, (i + 1) as nat) > b.len());
                assert(!(entry_start(b, (i + 1) as nat) + key_len(b, i + 1) + 1 + value_len(
                    b,
                    i + 1,
                ) <= b.len()));
                return false;
            }
            p = p + k + v + 2;
        }
        i = i + 1;
    }
    true
}

proof fn lemma_le_u32_of(b: Seq<u8>, at: int, x: u32)
    requires
        0 <= at,
        at + 4 <= b.len(),
        b[at] == u32_le_bytes(x)[0],
        b[at + 1] == u32_le_bytes(x)[1],
        b[at + 2] == u32_le_bytes(x)[2],
        b[at + 3] == u32_le_bytes(x)[3],
    ensures
        le_u32(b, at) == x,
{
    let b0 = b[at];
    let b1 = b[at + 1];
    let b2 = b[at + 2];
    let b3 = b[at + 3];
    assert((b0 as u32) | ((b1 as u32) << 8u32) | ((b2 as u32) << 16u32) | ((b3 as u32) << 24u32)
        == x) by (bit_vector)
        requires
            b0 == (x & 0xffu32) as u8,
            b1 == ((x >> 8u32) & 0xffu32) as u8,
            b2 == ((x >> 16u32) & 0xffu32) as u8,
            b3 == ((x >> 24u32) & 0xffu32) as u8,
    ;
}

proof fn lemma_sizes(pairs: Seq<(Seq<u8>, Seq<u8>)>, i: int)
    requires
        0 <= i < pairs.len(),
    ensures
        encode_sizes(pairs).len() == 8 * pairs.len(),
        forall|m: int|
            0 <= m < 4 ==> encode_sizes(pairs)[8 * i + m] == #[trigger] u32_le_bytes(
                pairs[i].0.len() as u32,
            )[m] && encode_sizes(pairs)[8 * i + 4 + m] == u32_le_bytes(pairs[i].1.len() as u32)[m],
    decreases pairs.len(),
{
    lemma_sizes_len(pairs);
    let init = pairs.drop_last();
    lemma_sizes_len(init);
    let a = u32_le_bytes(pairs.last().0.len() as u32);
    let c = u32_le_bytes(pairs.last().1.len() as u32);
    assert(encode_sizes(pairs) == encode_sizes(init) + a + c);
    if i < pairs.len() - 1 {
        lemma_sizes(init, i);
        assert(init[i] == pairs[i]);
        assert forall|m: int| 0 <= m < 4 implies encode_sizes(pairs)[8 * i + m]
            == #[trigger] u32_le_bytes(pairs[i].0.len() as u32)[m] && encode_sizes(pairs)[8 * i
            + 4 + m] == u32_le_bytes(pairs[i].1.len() as u32)[m] by {
            assert(encode_sizes(pairs)[8 * i + m] == encode_sizes(init)[8 * i + m]);
            assert(encode_sizes(pairs)[8 * i + 4 + m] == encode_sizes(init)[8 * i + 4 + m]);
        }
    } else {
        assert(pairs[i] == pairs.last());
        assert forall|m: int| 0 <= m < 4 implies encode_sizes(pairs)[8 * i + m]
            == #[trigger] u32_le_bytes(pairs[i].0.len() as u32)[m] && encode_sizes(pairs)[8 * i
            + 4 + m] == u32_le_bytes(pairs[i].1.len() as u32)[m] by {
            assert(encode_sizes(pairs)[8 * i + m] == a[m]);
            assert(encode_sizes(pairs)[8 * i + 4 + m] == c[m]);
        }
    }
}

proof fn lemma_sizes_len(pairs: Seq<(Seq<u8>, Seq<u8>)>)
    ensures
        encode_sizes(pairs).len() == 8 * pairs.len(),
    decreases pairs.len(),
{
    if pairs.len() > 0 {
        lemma_sizes_len(pairs.drop_last());
    }
}

/// Where entry `i`'s key starts within the data part.
spec fn data_offset(pairs: Seq<(Seq<u8>, Seq<u8>)>, i: int) -> int {
    encode_data(pairs.take(i)).len() as int
}

proof fn lemma_data(pairs: Seq<(Seq<u8>, Seq<u8>)>, i: int)
    requires
        0 <= i < pairs.len(),
    ensures
        data_offset(pairs, i + 1) == data_offset(pairs, i) + pairs[i].0.len() + pairs[i].1.len()
            + 2,
        data_offset(pairs, i + 1) <= encode_data(pairs).len(),
        forall|m: int|
            0 <= m < pairs[i].0.len() ==> encode_data(pairs)[data_offset(pairs, i) + m]
                == #[trigger] pairs[i].0[m],
        forall|m: int|
            0 <= m < pairs[i].1.len() ==> encode_data(pairs)[data_offset(pairs, i)
                + pairs[i].0.len() + 1 + m] == #[trigger] pairs[i].1[m],
    decreases pairs.len(),
{
    let init = pairs.drop_last();
    assert(pairs.take(i + 1).drop_last() =~= pairs.take(i));
    assert(pairs.take(i + 1).last() == pairs[i]);
    if i == pairs.len() - 1 {
        assert(pairs.take(i) =~= init);
        assert(pairs.take(i + 1) =~= pairs);
    } else {
        lemma_data(init, i);
        assert(init.take(i) =~= pairs.take(i));
        assert(init.take(i + 1) =~= pairs.take(i + 1));
        lemma_data_prefix(pairs);
    }
}

proof fn lemma_data_prefix(pairs: Seq<(Seq<u8>, Seq<u8>)>)
    requires
        pairs.len() > 0,
    ensures
        encode_data(pairs.drop_last()).len() <= encode_data(pairs).len(),
        forall|k: int|
            0 <= k < encode_data(pairs.drop_last()).len() ==> #[trigger] encode_data(pairs)[k]
                == encode_data(pairs.drop_last())[k],
{
}

proof fn lemma_map_parts(pairs: Seq<(Seq<u8>, Seq<u8>)>)
    ensures
        encode_map(pairs).len() == 4 + 8 * pairs.len() + encode_data(pairs).len(),
        forall|m: int|
            0 <= m < 4 ==> #[trigger] encode_map(pairs)[m] == u32_le_bytes(pairs.len() as u32)[m],
        forall|k: int|
            0 <= k < 8 * pairs.len() ==> #[trigger] encode_map(pairs)[4 + k]
                == encode_sizes(pairs)[k],
        forall|k: int|
            0 <= k < encode_data(pairs).len() ==> #[trigger] encode_map(pairs)[4 + 8
                * pairs.len() + k] == encode_data(pairs)[k],
{
    lemma_sizes_len(pairs);
}

proof fn lemma_entry_start(pairs: Seq<(Seq<u8>, Seq<u8>)>, i: int)
    requires
        fits_format(pairs),
        0 <= i <= pairs.len(),
    ensures
        entry_start(encode_map(pairs), i as nat) == 4 + 8 * pairs.len() + data_offset(pairs, i),
    decreases i,
{
    let b = encode_map(pairs);
    let n = pairs.len();
    lemma_map_parts(pairs);
    lemma_le_u32_of(b, 0, n as u32);
    if i == 0 {
        assert(pairs.take(0) =~= Seq::<(Seq<u8>, Seq<u8>)>::empty());
    } else {
        lemma_entry_start(pairs, i - 1);
        lemma_data(pairs, i - 1);
        lemma_entry_sizes(pairs, i - 1);
    }
}

/// The size fields of entry `i` hold its key and value lengths.
proof fn lemma_entry_sizes(pairs: Seq<(Seq<u8>, Seq<u8>)>, i: int)
    requires
        fits_format(pairs),
        0 <= i < pairs.len(),
    ensures
        key_len(encode_map(pairs), i) == pairs[i].0.len(),
        value_len(encode_map(pairs), i) == pairs[i].1.len(),
{
    let b = encode_map(pairs);
    lemma_map_parts(pairs);
    lemma_sizes(pairs, i);
    let k = pairs[i].0.len() as u32;
    let v = pairs[i].1.len() as u32;
    assert(b[4 + 8 * i] == encode_sizes(pairs)[8 * i + 0]);
    assert(b[4 + 8 * i + 1] == encode_sizes(pairs)[8 * i + 1]);
    assert(b[4 + 8 * i + 2] == encode_sizes(pairs)[8 * i + 2]);
    assert(b[4 + 8 * i + 3] == encode_sizes(pairs)[8 * i + 3]);
    assert(u32_le_bytes(k)[0] == encode_sizes(pairs)[8 * i + 0]);
    assert(u32_le_bytes(k)[1] == encode_sizes(pairs)[8 * i + 1]);
    assert(u32_le_bytes(k)[2] == encode_sizes(pairs)[8 * i + 2]);
    assert(u32_le_bytes(k)[3] == encode_sizes(pairs)[8 * i + 3]);
    lemma_le_u32_of(b, 4 + 8 * i, k);
    assert(b[8 + 8 * i] == encode_sizes(pairs)[8 * i + 4 + 0]);
    assert(b[8 + 8 * i + 1] == encode_sizes(pairs)[8 * i + 4 + 1]);
    assert(b[8 + 8 * i + 2] == encode_sizes(pairs)[8 * i + 4 + 2]);
    assert(b[8 + 8 * i + 3] == encode_sizes(pairs)[8 * i + 4 + 3]);
    assert(u32_le_bytes(v)[0] == encode_sizes(pairs)[8 * i + 4 + 0]);
    assert(u32_le_bytes(v)[1] == encode_sizes(pairs)[8 * i + 4 + 1]);
    assert(u32_le_bytes(v)[2] == encode_sizes(pairs)[8 * i + 4 + 2]);
    assert(u32_le_bytes(v)[3] == encode_sizes(pairs)[8 * i + 4 + 3]);
    lemma_le_u32_of(b, 8 + 8 * i, v);
}

/// Entry `i` of an encoded map lies inside it and holds the `i`-th pair.
proof fn lemma_entry(pairs: Seq<(Seq<u8>, Seq<u8>)>, i: nat)
    requires
        fits_format(pairs),
        i < pairs.len(),
    ensures
        entry_start(encode_map(pairs), i) + key_len(encode_map(pairs), i as int) + 1 + value_len(
            encode_map(pairs),
            i as int,
        ) <= encode_map(pairs).len(),
        entry_key(encode_map(pairs), i) == pairs[i as int].0,
        entry_value(encode_map(pairs), i) == pairs[i as int].1,
{
    let b = encode_map(pairs);
    lemma_map_parts(pairs);
    lemma_entry_start(pairs, i as int);
    lemma_data(pairs, i as int);
    lemma_entry_sizes(pairs, i as int);
    let base = 4 + 8 * pairs.len();
    let off = data_offset(pairs, i as int);
    assert forall|m: int| 0 <= m < pairs[i as int].0.len() implies #[trigger] entry_key(b, i)[m]
        == pairs[i as int].0[m] by {
        assert(b[base + off + m] == encode_data(pairs)[off + m]);
    }
    assert forall|m: int| 0 <= m < pairs[i as int].1.len() implies #[trigger] entry_value(b, i)[m]
        == pairs[i as int].1[m] by {
        assert(b[base + off + pairs[i as int].0.len() + 1 + m] == encode_data(pairs)[off
            + pairs[i as int].0.len() + 1 + m]);
    }
    assert(entry_key(b, i) =~= pairs[i as int].0);
    assert(entry_value(b, i) =~= pairs[i as int].1);
}

/// Decoding an encoded map gives the map back, and every encoded map is well
/// laid out.
pub proof fn lemma_decode_encode(pairs: Seq<(Seq<u8>, Seq<u8>)>)
    requires
        fits_format(pairs),
    ensures
        well_laid_out(encode_map(pairs)),
        decode_map(encode_map(pairs)) == pairs,
{
    let b = encode_map(pairs);
    let n = pairs.len();
    lemma_map_parts(pairs);
    lemma_le_u32_of(b, 0, n as u32);
    assert(entry_count(b) == n);
    assert forall|i: nat| i < entry_count(b) implies #[trigger] entry_start(b, i) + key_len(
        b,
        i as int,
    ) + 1 + value_len(b, i as int) <= b.len() by {
        lemma_entry(pairs, i);
    }
    assert forall|i: int| 0 <= i < n implies #[trigger] decode_map(b)[i] == pairs[i] by {
        lemma_entry(pairs, i as nat);
    }
    assert(decode_map(b) =~= pairs);
}

/// The key and value bytes of each entry of a well laid out `bytes`.
fn decode_raw(bytes: &[u8]) -> (r: Vec<(Vec<u8>, Vec<u8>)>)
    requires
        well_laid_out(bytes@),
    ensures
        r@.len() == decode_map(bytes@).len(),
        forall|i: int|
            0 <= i < r@.len() ==> (#[trigger] r@[i]).0@ == decode_map(bytes@)[i].0 && r@[i].1@
                == decode_map(bytes@)[i].1,
{
    let ghost b = bytes@;
    let mut out: Vec<(Vec<u8>, Vec<u8>)> = Vec::new();
    let len = bytes.len();
    if len == 0 {
        return out;
    }
    let n = read_u32_le(bytes, 0) as usize;
    let mut p: usize = 4 + 8 * n;
    let mut i: usize = 0;
    while i < n
        invariant
            len == b.len(),
            b == bytes@,
            well_laid_out(b),
            b.len() > 0,
            n == entry_count(b),
            i <= n,
            i < n ==> p == entry_start(b, i as nat),
            out@.len() == i,
            forall|j: int|
                0 <= j < i ==> (#[trigger] out@[j]).0@ == decode_map(b)[j].0 && out@[j].1@
                    == decode_map(b)[j].1,
        decreases n - i,
    {
        assert(entry_start(b, i as nat) + key_len(b, i as int) + 1 + value_len(b, i as int)
            <= b.len());
        let k = read_u32_le(bytes, 4 + 8 * i) as usize;
        let v = read_u32_le(bytes, 8 + 8 * i) as usize;
        let key = copy_range(bytes, p, p + k);
        let value = copy_range(bytes, p + k + 1, p + k + 1 + v);
        out.push((key, value));
        if i + 1 < n {
            assert(entry_start(b, (i + 1) as nat) + key_len(b, i + 1) + 1 + value_len(b, i + 1)
                <= b.len());
            p = p + k + v + 2;
        }
        i = i + 1;
    }
    out
}

/// Decodes a map of text values; `None` when `bytes` is not well laid out or
/// a key or value is not UTF-8.
pub fn try_deserialize_map(bytes: &[u8]) -> (r: Option<Vec<(String, String)>>)
    ensures
        r is Some <==> well_laid_out(bytes@) && valid_text(bytes@, true),
        r matches Some(m) ==> m@.len() == decode_map(bytes@).len() && forall|i: int|
            0 <= i < m@.len() ==> (#[trigger] m@[i]).0@ == decode_utf8(decode_map(bytes@)[i].0)
                && m@[i].1@ == decode_utf8(decode_map(bytes@)[i].1),
{
    if !map_is_well_formed(bytes) {
        return None;
    }
    let raw = decode_raw(bytes);
    let ghost d = decode_map(bytes@);
    let mut out: Vec<(String, String)> = Vec::new();
    let mut i: usize = 0;
    while i < raw.len()
        invariant
            well_laid_out(bytes@),
            raw@.len() == d.len(),
            forall|j: int|
                0 <= j < raw@.len() ==> (#[trigger] raw@[j]).0@ == d[j].0
                    && raw@[j].1@ == d[j].1,
            d == decode_map(bytes@),
            i <= raw@.len(),
            out@.len() == i,
            forall|j: int| 0 <= j < i ==> valid_utf8(#[trigger] d[j].0),
            forall|j: int| 0 <= j < i ==> valid_utf8(#[trigger] d[j].1),
            forall|j: int|
                0 <= j < i ==> (#[trigger] out@[j]).0@ == decode_utf8(d[j].0)
                    && out@[j].1@ == decode_utf8(d[j].1),
        decreases raw@.len() - i,
    {
        let key = string_from_utf8(slice_to_vec(raw[i].0.as_slice()));
        let value = string_from_utf8(slice_to_vec(raw[i].1.as_slice()));
        match (key, value) {
            (Some(k), Some(v)) => {
                assert(valid_utf8(d[i as int].0));
                assert(valid_utf8(d[i as int].1));
                out.push((k, v));
            },
            _ => {
                assert(!valid_text(bytes@, true));
                return None;
            },
        }
        i = i + 1;
    }
    Some(out)
}

/// Decodes a map of byte values; `None` when `bytes` is not well laid out or
/// a key is not UTF-8.
pub fn try_deserialize_map_bytes(bytes: &[u8]) -> (r: Option<Vec<(String, Vec<u8>)>>)
    ensures
        r is Some <==> well_laid_out(bytes@) && valid_text(bytes@, false),
        r matches Some(m) ==> m@.len() == decode_map(bytes@).len() && forall|i: int|
            0 <= i < m@.len() ==> (#[trigger] m@[i]).0@ == decode_utf8(decode_map(bytes@)[i].0)
                && m@[i].1@ == decode_map(bytes@)[i].1,
{
    if !map_is_well_formed(bytes) {
        return None;
    }
    let raw = decode_raw(bytes);
    let ghost d = decode_map(bytes@);
    let mut out: Vec<(String, Vec<u8>)> = Vec::new();
    let mut i: usize = 0;
    while i < raw.len()
        invariant
            well_laid_out(bytes@),
            raw@.len() == d.len(),
            forall|j: int|
                0 <= j < raw@.len() ==> (#[trigger] raw@[j]).0@ == d[j].0
                    && raw@[j].1@ == d[j].1,
            d == decode_map(bytes@),
            i <= raw@.len(),
            out@.len() == i,
            forall|j: int| 0 <= j < i ==> valid_utf8(#[trigger] d[j].0),
            forall|j: int|
                0 <= j < i ==> (#[trigger] out@[j]).0@ == decode_utf8(d[j].0)
                    && out@[j].1@ == d[j].1,
        decreases raw@.len() - i,
    {
        let key = string_from_utf8(slice_to_vec(raw[i].0.as_slice()));
        match key {
            Some(k) => out.push((k, slice_to_vec(raw[i].1.as_slice()))),
            None => {
                assert(!valid_text(bytes@, false));
                return None;
            },
        }
        i = i + 1;
    }
    Some(out)
}

/// Decodes a well laid out map of UTF-8 keys and values.
pub fn deserialize_map(bytes: &[u8]) -> (r: Vec<(String, String)>)
    requires
        well_laid_out(bytes@),
        valid_text(bytes@, true),
    ensures
        r@.len() == decode_map(bytes@).len(),
        forall|i: int|
            0 <= i < r@.len() ==> (#[trigger] r@[i]).0@ == decode_utf8(decode_map(bytes@)[i].0)
                && r@[i].1@ == decode_utf8(decode_map(bytes@)[i].1),
{
    match try_deserialize_map(bytes) {
        Some(m) => m,
        None => Vec::new(),
    }
}

/// Decodes a well laid out map of UTF-8 keys and byte values.
pub fn deserialize_map_bytes(bytes: &[u8]) -> (r: Vec<(String, Vec<u8>)>)
    requires
        well_laid_out(bytes@),
        valid_text(bytes@, false),
    ensures
        r@.len() == decode_map(bytes@).len(),
        forall|i: int|
            0 <= i < r@.len() ==> (#[trigger] r@[i]).0@ == decode_utf8(decode_map(bytes@)[i].0)
                && r@[i].1@ == decode_map(bytes@)[i].1,
{
    match try_deserialize_map_bytes(bytes) {
        Some(m) => m,
        None => Vec::new(),
    }
}

/// The parts of a property path joined by zero bytes.
pub open spec fn join_path(parts: Seq<Seq<u8>>) -> Seq<u8>
    decreases parts.len(),
{
    if parts.len() == 0 {
        seq![]
    } else if parts.len() == 1 {
        parts[0]
    } else {
        join_path(parts.drop_last()) + seq![0u8] + parts.last()
    }
}

/// Encodes a property path: its parts joined by zero bytes.
pub fn serialize_property_path(path: Vec<&str>) -> (r: Vec<u8>)
    ensures
        r@ == join_path(path@.map_values(|p: &str| p.spec_bytes())),
{
    let ghost parts = path@.map_values(|p: &str| p.spec_bytes());
    let mut out: Vec<u8> = Vec::new();
    let mut i: usize = 0;
    while i < path.len()
        invariant
            i <= path@.len(),
            parts == path@.map_values(|p: &str| p.spec_bytes()),
            out@ == join_path(parts.take(i as int)),
        decreases path@.len() - i,
    {
        if i > 0 {
            out.push(0u8);
        }
        push_all(&mut out, path[i].as_bytes());
        i = i + 1;
        assert(parts.take(i as int).drop_last() =~= parts.take(i - 1));
        assert(out@ =~= join_path(parts.take(i as int)));
    }
    assert(parts.take(path@.len() as int) =~= parts);
    out
}

} // verus!
