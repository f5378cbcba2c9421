use vstd::prelude::*;

use vstd::bytes::{spec_u32_from_le_bytes, spec_u32_to_le_bytes, u32_from_le_bytes, u32_to_le_bytes};
use vstd::string::StringSliceAdditionalSpecFns;

use crate::bytestring::ByteString;
use crate::error::DecodeError;

verus! {

/// The byte sequences of a list of key-value pairs.
pub open spec fn pairs_view(entries: Seq<(ByteString, ByteString)>) -> Seq<(Seq<u8>, Seq<u8>)> {
    entries.map_values(|p: (ByteString, ByteString)| (p.0@, p.1@))
}

/// Every pair count and entry length fits the 32-bit length fields of the
/// encoding.
pub open spec fn encodable_map(m: Seq<(Seq<u8>, Seq<u8>)>) -> bool {
    &&& m.len() < 0x1_0000_0000
    &&& (forall|i: int| #![auto]
        0 <= i < m.len() ==> m[i].0.len() < 0x1_0000_0000 && m[i].1.len() < 0x1_0000_0000)
}

/// The length table of the encoding: for each pair, the key length and the
/// value length, each as four little-endian bytes.
pub open spec fn encoded_lengths(m: Seq<(Seq<u8>, Seq<u8>)>) -> Seq<u8>
    decreases m.len(),
{
    if m.len() == 0 {
        Seq::empty()
    } else {
        encoded_lengths(m.drop_last()) + spec_u32_to_le_bytes(m.last().0.len() as u32)
            + spec_u32_to_le_bytes(m.last().1.len() as u32)
    }
}

/// The data area of the encoding: for each pair, the key bytes, a zero
/// byte, the value bytes, a zero byte.
pub open spec fn encoded_data(m: Seq<(Seq<u8>, Seq<u8>)>) -> Seq<u8>
    decreases m.len(),
{
    if m.len() == 0 {
        Seq::empty()
    } else {
        encoded_data(m.drop_last()) + m.last().0 + seq![0u8] + m.last().1 + seq![0u8]
    }
}

/// The wire form of a key-value map: the pair count as four little-endian
/// bytes, the length table, then the data area.
pub open spec fn encoded_map(m: Seq<(Seq<u8>, Seq<u8>)>) -> Seq<u8> {
    spec_u32_to_le_bytes(m.len() as u32) + encoded_lengths(m) + encoded_data(m)
}

/// The length table that a payload announces: entry `i` names its key and
/// value lengths at offsets `4 + 8 i` and `8 + 8 i`.
pub open spec fn announced_lengths(b: Seq<u8>, n: int) -> Seq<(int, int)> {
    Seq::new(
        n as nat,
        |i: int|
            (
                spec_u32_from_le_bytes(b.subrange(4 + 8 * i, 8 + 8 * i)) as int,
                spec_u32_from_le_bytes(b.subrange(8 + 8 * i, 12 + 8 * i)) as int,
            ),
    )
}

/// Reads the entries whose lengths are `lens` from the data area of `b`,
/// starting at offset `p`: each key is followed by one separator byte and
/// each value by one more, except that nothing is read past the last
/// value.  Yields nothing when a key or value would run past the payload.
pub open spec fn parse_entries(b: Seq<u8>, lens: Seq<(int, int)>, p: int) -> Option<
    Seq<(Seq<u8>, Seq<u8>)>,
>
    decreases lens.len(),
{
    if lens.len() == 0 {
        Some(Seq::empty())
    } else {
        let kl = lens.first().0;
        let vl = lens.first().1;
        if p + kl <= b.len() && p + kl + 1 + vl <= b.len() {
            match parse_entries(b, lens.drop_first(), p + kl + 1 + vl + 1) {
                Some(rest) => Some(
                    seq![(b.subrange(p, p + kl), b.subrange(p + kl + 1, p + kl + 1 + vl))] + rest,
                ),
                None => None,
            }
        } else {
            None
        }
    }
}

/// The key-value pairs a payload holds: an empty payload holds none; any
/// other payload opens with a pair count, continues with the length table,
/// and holds the announced keys and values in its data area.  Yields
/// nothing when the payload is shorter than what it announces.
pub open spec fn parse_map(b: Seq<u8>) -> Option<Seq<(Seq<u8>, Seq<u8>)>> {
    if b.len() == 0 {
        Some(Seq::empty())
    } else if b.len() < 4 {
        None
    } else {
        let n = spec_u32_from_le_bytes(b.subrange(0, 4)) as int;
        if b.len() < 4 + 8 * n {
            None
        } else {
            parse_entries(b, announced_lengths(b, n), 4 + 8 * n)
        }
    }
}


/// The length table takes exactly eight bytes per pair.
pub proof fn lemma_encoded_lengths_len(m: Seq<(Seq<u8>, Seq<u8>)>)
    ensures
        encoded_lengths(m).len() == 8 * m.len(),
    decreases m.len(),
{
    if m.len() > 0 {
        lemma_encoded_lengths_len(m.drop_last());
        vstd::bytes::lemma_auto_spec_u32_to_from_le_bytes();
    }
}

/// The length table of a concatenation is the concatenation of the length
/// tables.
proof fn lemma_encoded_lengths_concat(a: Seq<(Seq<u8>, Seq<u8>)>, b: Seq<(Seq<u8>, Seq<u8>)>)
    ensures
        encoded_lengths(a + b) == encoded_lengths(a) + encoded_lengths(b),
    decreases b.len(),
{
    if b.len() == 0 {
        assert(a + b =~= a);
        assert(encoded_lengths(a) + encoded_lengths(b) =~= encoded_lengths(a));
    } else {
        lemma_encoded_lengths_concat(a, b.drop_last());
        assert((a + b).drop_last() =~= a + b.drop_last());
        assert((a + b).last() == b.last());
        assert(encoded_lengths(a) + encoded_lengths(b) =~= encoded_lengths(a) + encoded_lengths(
            b.drop_last(),
        ) + spec_u32_to_le_bytes(b.last().0.len() as u32) + spec_u32_to_le_bytes(
            b.last().1.len() as u32,
        ));
    }
}

/// The data area of a concatenation is the concatenation of the data
/// areas.
proof fn lemma_encoded_data_concat(a: Seq<(Seq<u8>, Seq<u8>)>, b: Seq<(Seq<u8>, Seq<u8>)>)
    ensures
        encoded_data(a + b) == encoded_data(a) + encoded_data(b),
    decreases b.len(),
{
    if b.len() == 0 {
        assert(a + b =~= a);
        assert(encoded_data(a) + encoded_data(b) =~= encoded_data(a));
    } else {
        lemma_encoded_data_concat(a, b.drop_last());
        assert((a + b).drop_last() =~= a + b.drop_last());
        assert((a + b).last() == b.last());
        assert(encoded_data(a) + encoded_data(b) =~= encoded_data(a) + encoded_data(b.drop_last())
            + b.last().0 + seq![0u8] + b.last().1 + seq![0u8]);
    }
}

/// The data chunk of a single pair.
proof fn lemma_encoded_data_singleton(e: (Seq<u8>, Seq<u8>))
    ensures
        encoded_data(seq![e]) == e.0 + seq![0u8] + e.1 + seq![0u8],
{
    let s = seq![e];
    assert(s.len() == 1 && s.last() == e);
    assert(encoded_data(s.drop_last()) =~= Seq::<u8>::empty());
    assert(encoded_data(s) =~= e.0 + seq![0u8] + e.1 + seq![0u8]);
}

/// The length-table chunk of a single pair.
proof fn lemma_encoded_lengths_singleton(e: (Seq<u8>, Seq<u8>))
    ensures
        encoded_lengths(seq![e]) == spec_u32_to_le_bytes(e.0.len() as u32) + spec_u32_to_le_bytes(
            e.1.len() as u32,
        ),
{
    let s = seq![e];
    assert(s.len() == 1 && s.last() == e);
    assert(encoded_lengths(s.drop_last()) =~= Seq::<u8>::empty());
    assert(encoded_lengths(s) =~= spec_u32_to_le_bytes(e.0.len() as u32) + spec_u32_to_le_bytes(
        e.1.len() as u32,
    ));
}

/// When the bytes of `b` from `p` on hold exactly the data area of
/// `entries`, and `lens` announces the entries' true lengths, the parser
/// reads the entries back.
proof fn lemma_parse_entries_inverse(
    b: Seq<u8>,
    entries: Seq<(Seq<u8>, Seq<u8>)>,
    lens: Seq<(int, int)>,
    p: int,
)
    requires
        lens.len() == entries.len(),
        forall|i: int| #![auto]
            0 <= i < entries.len() ==> lens[i] == (
                entries[i].0.len() as int,
                entries[i].1.len() as int,
            ),
        0 <= p,
        p + encoded_data(entries).len() <= b.len(),
        b.subrange(p, p + encoded_data(entries).len() as int) == encoded_data(entries),
    ensures
        parse_entries(b, lens, p) == Some(entries),
    decreases entries.len(),
{
    if entries.len() == 0 {
        assert(parse_entries(b, lens, p) == Some(Seq::<(Seq<u8>, Seq<u8>)>::empty()));
        assert(entries =~= Seq::<(Seq<u8>, Seq<u8>)>::empty());
    } else {
        let e = entries.first();
        let kl = e.0.len() as int;
        let vl = e.1.len() as int;
        let head = seq![e];
        let tail = entries.skip(1);
        assert(head + tail =~= entries);
        lemma_encoded_data_concat(head, tail);
        lemma_encoded_data_singleton(e);
        let chunk = e.0 + seq![0u8] + e.1 + seq![0u8];
        assert(encoded_data(entries) == chunk + encoded_data(tail));
        assert(chunk.len() == kl + 1 + vl + 1);

        let whole = encoded_data(entries);
        assert forall|j: int| 0 <= j < whole.len() implies b[p + j] == whole[j] by {
            assert(b.subrange(p, p + whole.len() as int)[j] == b[p + j]);
        }
        assert forall|j: int| 0 <= j < kl implies whole[j] == e.0[j] by {
            assert(chunk[j] == ((e.0 + seq![0u8]) + e.1)[j]);
            assert(((e.0 + seq![0u8]) + e.1)[j] == (e.0 + seq![0u8])[j]);
        }
        assert(b.subrange(p, p + kl) =~= e.0);
        assert forall|j: int| 0 <= j < vl implies whole[kl + 1 + j] == e.1[j] by {
            assert(chunk[kl + 1 + j] == ((e.0 + seq![0u8]) + e.1)[kl + 1 + j]);
            assert(((e.0 + seq![0u8]) + e.1)[kl + 1 + j] == e.1[j]);
        }
        assert(b.subrange(p + kl + 1, p + kl + 1 + vl) =~= e.1);

        let p2 = p + kl + 1 + vl + 1;
        assert forall|j: int| 0 <= j < encoded_data(tail).len() implies whole[chunk.len() + j]
            == encoded_data(tail)[j] by {
            assert((chunk + encoded_data(tail))[chunk.len() + j] == encoded_data(tail)[j]);
        }
        assert(b.subrange(p2, p2 + encoded_data(tail).len() as int) =~= encoded_data(tail));
        assert(forall|i: int| #![auto]
            0 <= i < tail.len() ==> lens.skip(1)[i] == (
                tail[i].0.len() as int,
                tail[i].1.len() as int,
            ));
        lemma_parse_entries_inverse(b, tail, lens.skip(1), p2);
        assert(lens.drop_first() =~= lens.skip(1));
        assert(lens.first() == (kl, vl));
        assert(seq![(b.subrange(p, p + kl), b.subrange(p + kl + 1, p + kl + 1 + vl))] + tail
            =~= entries);
    }
}

/// What the serializer writes, the parser reads back: the wire form of any
/// encodable map deserializes to exactly the pairs that went in.
pub proof fn lemma_map_codec_round_trip(m: Seq<(Seq<u8>, Seq<u8>)>)
    requires
        encodable_map(m),
    ensures
        parse_map(encoded_map(m)) == Some(m),
{
    vstd::bytes::lemma_auto_spec_u32_to_from_le_bytes();
    let b = encoded_map(m);
    let n = m.len() as int;
    let count = spec_u32_to_le_bytes(m.len() as u32);
    let table = encoded_lengths(m);
    let data = encoded_data(m);
    lemma_encoded_lengths_len(m);
    assert(b.len() == 4 + 8 * n + data.len());

    assert(b.subrange(0, 4) =~= count);
    assert(spec_u32_from_le_bytes(b.subrange(0, 4)) == m.len() as u32);

    assert forall|i: int| 0 <= i < n implies #[trigger] announced_lengths(b, n)[i] == (
        m[i].0.len() as int,
        m[i].1.len() as int,
    ) by {
        let prefix = m.take(i);
        let suffix = m.skip(i);
        assert(prefix + suffix =~= m);
        lemma_encoded_lengths_concat(prefix, suffix);
        lemma_encoded_lengths_len(prefix);
        let head = seq![m[i]];
        let rest = suffix.skip(1);
        assert(head + rest =~= suffix);
        lemma_encoded_lengths_concat(head, rest);
        lemma_encoded_lengths_singleton(m[i]);
        assert(b.subrange(4 + 8 * i, 8 + 8 * i) =~= spec_u32_to_le_bytes(m[i].0.len() as u32));
        assert(b.subrange(8 + 8 * i, 12 + 8 * i) =~= spec_u32_to_le_bytes(m[i].1.len() as u32));
    }

    assert(b.subrange(4 + 8 * n, 4 + 8 * n + data.len() as int) =~= data);
    lemma_parse_entries_inverse(b, m, announced_lengths(b, n), 4 + 8 * n);
}

/// Appends all of `b` to `out`.
fn push_bytes(out: &mut Vec<u8>, b: &[u8])
    ensures
        final(out)@ == old(out)@ + b@,
{
    let mut i: usize = 0;
    while i < b.len()
        invariant
            i <= b@.len(),
            out@ == old(out)@ + b@.take(i as int),
        decreases b@.len() - i,
    {
        out.push(b[i]);
        proof {
            assert(old(out)@ + b@.take(i + 1 as int) =~= (old(out)@ + b@.take(i as int)).push(
                b@[i as int],
            ));
        }
        i = i + 1;
    }
    proof {
        assert(b@.take(b@.len() as int) =~= b@);
    }
}

/// Serializes a path of property-name parts: the parts' bytes, joined by
/// single zero bytes.
pub fn serialize_property_path(path: &[&str]) -> (r: Vec<u8>)
    ensures
        r@ == encoded_path(path@.map_values(|part: &str| part.spec_bytes())),
{
    let ghost parts = path@.map_values(|part: &str| part.spec_bytes());
    let mut out: Vec<u8> = Vec::new();
    let mut i: usize = 0;
    while i < path.len()
        invariant
            i <= path@.len(),
            parts == path@.map_values(|part: &str| part.spec_bytes()),
            out@ == encoded_path(parts.take(i as int)),
        decreases path@.len() - i,
    {
        if i > 0 {
            out.push(0);
        }
        push_bytes(&mut out, path[i].as_bytes());
        proof {
            assert(parts.take(i + 1 as int).drop_last() =~= parts.take(i as int));
            if i > 0 {
                assert(out@ =~= encoded_path(parts.take(i as int)) + seq![0u8] + parts[i as int]);
            } else {
                assert(out@ =~= parts[0]);
            }
        }
        i = i + 1;
    }
    proof {
        assert(parts.take(parts.len() as int) =~= parts);
    }
    out
}

/// The wire form of a property path: the parts joined by zero bytes.
pub open spec fn encoded_path(parts: Seq<Seq<u8>>) -> Seq<u8>
    decreases parts.len(),
{
    if parts.len() == 0 {
        Seq::empty()
    } else if parts.len() == 1 {
        parts[0]
    } else {
        encoded_path(parts.drop_last()) + seq![0u8] + parts.last()
    }
}

/// Serializes a key-value map into its wire form.
pub fn serialize_map(entries: &[(ByteString, ByteString)]) -> (r: Vec<u8>)
    requires
        encodable_map(pairs_view(entries@)),
    ensures
        r@ == encoded_map(pairs_view(entries@)),
{
    let ghost m = pairs_view(entries@);
    let count: u32 = entries.len() as u32;
    let mut out: Vec<u8> = u32_to_le_bytes(count);
    let mut i: usize = 0;
    while i < entries.len()
        invariant
            i <= entries@.len(),
            m == pairs_view(entries@),
            encodable_map(m),
            out@ == spec_u32_to_le_bytes(m.len() as u32) + encoded_lengths(m.take(i as int)),
        decreases entries@.len() - i,
    {
        let pair = &entries[i];
        let key_len: u32 = pair.0.len() as u32;
        let value_len: u32 = pair.1.len() as u32;
        let key_len_bytes = u32_to_le_bytes(key_len);
        push_bytes(&mut out, key_len_bytes.as_slice());
        let value_len_bytes = u32_to_le_bytes(value_len);
        push_bytes(&mut out, value_len_bytes.as_slice());
        proof {
            assert(m.take(i + 1 as int).drop_last() =~= m.take(i as int));
            assert(out@ =~= spec_u32_to_le_bytes(m.len() as u32) + encoded_lengths(
                m.take(i + 1 as int),
            ));
        }
        i = i + 1;
    }
    proof {
        assert(m.take(m.len() as int) =~= m);
    }
    let mut i: usize = 0;
    while i < entries.len()
        invariant
            i <= entries@.len(),
            m == pairs_view(entries@),
            encodable_map(m),
            out@ == spec_u32_to_le_bytes(m.len() as u32) + encoded_lengths(m) + encoded_data(
                m.take(i as int),
            ),
        decreases entries@.len() - i,
    {
        let pair = &entries[i];
        push_bytes(&mut out, pair.0.as_bytes());
        out.push(0);
        push_bytes(&mut out, pair.1.as_bytes());
        out.push(0);
        proof {
            assert(m.take(i + 1 as int).drop_last() =~= m.take(i as int));
            assert(out@ =~= spec_u32_to_le_bytes(m.len() as u32) + encoded_lengths(m)
                + encoded_data(m.take(i + 1 as int)));
        }
        i = i + 1;
    }
    proof {
        assert(m.take(m.len() as int) =~= m);
    }
    out
}

/// Deserializes the wire form of a key-value map.  Succeeds on exactly the
/// payloads that `parse_map` accepts and returns exactly the pairs it
/// names; any truncated payload is reported as such.
pub fn deserialize_map(bytes: &[u8]) -> (r: Result<Vec<(ByteString, ByteString)>, DecodeError>)
    ensures
        r is Ok <==> parse_map(bytes@) is Some,
        r matches Ok(v) ==> Some(pairs_view(v@)) == parse_map(bytes@),
        r is Err ==> r == Err::<Vec<(ByteString, ByteString)>, DecodeError>(DecodeError::Truncated),
{
    let len: usize = bytes.len();
    if len == 0 {
        return Ok(Vec::new());
    }
    if len < 4 {
        return Err(DecodeError::Truncated);
    }
    let header = &bytes[0..4];
    let n32 = u32_from_le_bytes(header);
    let n = n32 as usize;
    if (len as u64) < 4u64 + 8u64 * (n32 as u64) {
        return Err(DecodeError::Truncated);
    }
    let ghost lens = announced_lengths(bytes@, n as int);
    let mut out: Vec<(ByteString, ByteString)> = Vec::new();
    proof {
        assert(header@ =~= bytes@.subrange(0, 4));
        assert(bytes@.len() >= 4 + 8 * (n as int));
        assert(lens.skip(0) =~= lens);
        assert(pairs_view(out@) =~= Seq::<(Seq<u8>, Seq<u8>)>::empty());
        match parse_entries(bytes@, lens, 4 + 8 * (n as int)) {
            Some(rest) => {
                assert(Seq::<(Seq<u8>, Seq<u8>)>::empty() + rest =~= rest);
            },
            None => {},
        }
    }
    let mut p: usize = 4 + 8 * n;
    let ghost mut sp: int = 4 + 8 * (n as int);
    let mut i: usize = 0;
    while i < n
        invariant
            0 <= i <= n,
            len == bytes@.len(),
            lens == announced_lengths(bytes@, n as int),
            lens.len() == n,
            4 + 8 * (n as int) <= len,
            i < n ==> (p == sp && sp <= len),
            sp >= 0,
            match parse_entries(bytes@, lens.skip(i as int), sp) {
                Some(rest) => parse_map(bytes@) == Some(pairs_view(out@) + rest),
                None => parse_map(bytes@) is None,
            },
        decreases n - i,
    {
        proof {
            assert(lens.skip(i as int).len() == n - i);
            assert(lens.skip(i as int).first() == lens[i as int]);
            assert(lens.skip(i as int).drop_first() =~= lens.skip(i + 1 as int));
        }
        let header_at = 4 + 8 * i;
        let key_len_bytes = &bytes[header_at..header_at + 4];
        let kl32 = u32_from_le_bytes(key_len_bytes);
        let value_len_bytes = &bytes[header_at + 4..header_at + 8];
        let vl32 = u32_from_le_bytes(value_len_bytes);
        proof {
            assert(key_len_bytes@ =~= bytes@.subrange(4 + 8 * (i as int), 8 + 8 * (i as int)));
            assert(value_len_bytes@ =~= bytes@.subrange(8 + 8 * (i as int), 12 + 8 * (i as int)));
            assert(lens[i as int].0 == kl32 as int && lens[i as int].1 == vl32 as int);
        }
        if (len as u64) - (p as u64) < kl32 as u64 {
            return Err(DecodeError::Truncated);
        }
        let kl = kl32 as usize;
        let q = p + kl;
        if (len as u64) - (q as u64) < 1u64 + (vl32 as u64) {
            return Err(DecodeError::Truncated);
        }
        let vl = vl32 as usize;
        let value_end = q + 1 + vl;
        let ghost prev = out@;
        let key = ByteString::from(&bytes[p..q]);
        let value = ByteString::from(&bytes[q + 1..value_end]);
        out.push((key, value));
        proof {
            let entry = (
                bytes@.subrange(sp, sp + kl32 as int),
                bytes@.subrange(sp + kl32 as int + 1, sp + kl32 as int + 1 + vl32 as int),
            );
            assert(key@ =~= entry.0);
            assert(value@ =~= entry.1);
            assert(pairs_view(out@) =~= pairs_view(prev) + seq![(key@, value@)]);
            match parse_entries(bytes@, lens.skip(i + 1 as int), sp + kl32 as int + 1 + vl32 as int + 1) {
                Some(rest) => {
                    assert(parse_entries(bytes@, lens.skip(i as int), sp) == Some(
                        seq![entry] + rest,
                    ));
                    assert(pairs_view(prev) + (seq![entry] + rest) =~= pairs_view(out@) + rest);
                },
                None => {
                    assert(parse_entries(bytes@, lens.skip(i as int), sp) is None);
                },
            }
            sp = sp + kl32 as int + 1 + vl32 as int + 1;
        }
        if i + 1 < n {
            if value_end >= len {
                proof {
                    assert(lens.skip(i + 1 as int).len() > 0);
                    assert(sp > len);
                    assert(sp + lens.skip(i + 1 as int).first().0 > len);
                    assert(parse_entries(bytes@, lens.skip(i + 1 as int), sp) is None);
                }
                return Err(DecodeError::Truncated);
            }
            p = value_end + 1;
        }
        i = i + 1;
    }
    proof {
        assert(lens.skip(n as int) =~= Seq::<(int, int)>::empty());
        assert(parse_entries(bytes@, lens.skip(n as int), sp) == Some(
            Seq::<(Seq<u8>, Seq<u8>)>::empty(),
        ));
        assert(pairs_view(out@) + Seq::<(Seq<u8>, Seq<u8>)>::empty() =~= pairs_view(out@));
    }
    Ok(out)
}

} // verus!
