//! A small protobuf (proto3) wire-format reader and writer.
//!
//! The reader turns a byte string into a map from field numbers to the values
//! found for them, in the order in which they occur. The writer produces
//! varint and length-delimited fields. The laws at the end of this file state
//! that what the writer produces is read back as the values that were written.
use std::collections::HashMap;
use vstd::prelude::*;
use vstd::utf8::*;
use vstd::string::StringSliceAdditionalSpecFns;
use crate::text::decode_utf8_lossy;
use crate::text::utf8_lossy;

verus! {

broadcast use vstd::std_specs::hash::group_hash_axioms;

//=========================================#
//            PROTO TYPES & VALUES         #
//=========================================#

/// One value of a field, by its wire type.
#[derive(Debug, Clone, PartialEq)]
pub enum WireValue {
    Varint(u64),
    Bytes(Vec<u8>),
    Fixed64([u8; 8]),
    Fixed32([u8; 4]),
}

/// The mathematical value of a `WireValue`.
pub enum WireItem {
    Varint(u64),
    Bytes(Seq<u8>),
    Fixed64(Seq<u8>),
    Fixed32(Seq<u8>),
}

impl View for WireValue {
    type V = WireItem;

    open spec fn view(&self) -> WireItem {
        match self {
            WireValue::Varint(v) => WireItem::Varint(*v),
            WireValue::Bytes(b) => WireItem::Bytes(b@),
            WireValue::Fixed64(a) => WireItem::Fixed64(a@),
            WireValue::Fixed32(a) => WireItem::Fixed32(a@),
        }
    }
}

/// The fields of a message: each field number with its values in the order read.
pub type ProtoFields = HashMap<u32, Vec<WireValue>>;

/// The fields of a message as a map from field numbers to sequences of values.
pub open spec fn fields_view(f: ProtoFields) -> Map<u32, Seq<WireItem>> {
    f@.map_values(|vals: Vec<WireValue>| vals@.map_values(|w: WireValue| w@))
}

//=========================================#
//            VARINT ENCODING              #
//=========================================#

/// The payload of a varint byte: its low seven bits.
pub open spec fn payload(b: u8) -> u64 {
    (b & 0x7f) as u64
}

/// The encoding of `v` as a base-128 varint: seven bits per byte, least
/// significant group first, the high bit of every byte but the last set.
pub open spec fn varint_bytes(v: u64) -> Seq<u8>
    decreases v,
{
    if v >> 7 == 0 {
        seq![(v & 0x7f) as u8]
    } else {
        proof {
            lemma_shift_decreases(v);
        }
        seq![((v & 0x7f) as u8) | 0x80] + varint_bytes(v >> 7)
    }
}

pub proof fn lemma_shift_decreases(v: u64)
    ensures
        v >> 7 != 0 ==> v >> 7 < v,
{
    assert(v >> 7 != 0 ==> v >> 7 < v) by (bit_vector);
}

/// Reads a varint from `s` starting at index `k`, where `acc` holds the bits
/// read so far and `shift` is where the next seven bits go. A varint ends at
/// the first byte whose high bit is clear; it fails when the input ends first
/// or when a tenth byte still has the high bit set. Bits beyond the 64th are
/// dropped. The result is the index just past the varint and its value.
pub open spec fn varint_from(s: Seq<u8>, k: int, shift: u64, acc: u64) -> Option<(int, u64)>
    decreases s.len() - k,
{
    if 0 <= k < s.len() {
        let acc2 = acc | (payload(s[k]) << shift);
        if s[k] < 0x80 {
            Some((k + 1, acc2))
        } else if shift + 7 >= 64 {
            None
        } else {
            varint_from(s, k + 1, (shift + 7) as u64, acc2)
        }
    } else {
        None
    }
}

/// Reads a varint at the start of `s`: the number of bytes it takes and its value.
pub open spec fn read_varint(s: Seq<u8>) -> Option<(int, u64)> {
    varint_from(s, 0, 0, 0)
}

pub proof fn lemma_varint_from_bounds(s: Seq<u8>, k: int, shift: u64, acc: u64)
    requires
        0 <= k,
    ensures
        varint_from(s, k, shift, acc) matches Some((n, _)) ==> k < n <= s.len(),
    decreases s.len() - k,
{
    if 0 <= k < s.len() && s[k] >= 0x80 && shift + 7 < 64 {
        lemma_varint_from_bounds(s, k + 1, (shift + 7) as u64, acc | (payload(s[k]) << shift));
    }
}

//=========================================#
//            MESSAGE READING              #
//=========================================#

/// The field number of a tag-and-wire-type varint.
pub open spec fn tag_of(key: u64) -> u32 {
    (key >> 3) as u32
}

/// The wire type of a tag-and-wire-type varint.
pub open spec fn wire_of(key: u64) -> u64 {
    key & 7
}

/// The records of a message, in order: each is a field number and a value.
/// Reading stops, keeping what was read, at the end of the input, at a
/// truncated or overlong varint, at a length or fixed-width value that runs
/// past the end, and at a wire type other than 0, 1, 2 and 5.
pub open spec fn parse_records(s: Seq<u8>) -> Seq<(u32, WireItem)>
    decreases s.len(),
{
    match read_varint(s) {
        None => seq![],
        Some((n, key)) => {
            proof {
                lemma_varint_from_bounds(s, 0, 0, 0);
            }
            let tag = tag_of(key);
            let t = s.skip(n);
            if wire_of(key) == 0 {
                match read_varint(t) {
                    None => seq![],
                    Some((m, v)) => {
                        proof {
                            lemma_varint_from_bounds(t, 0, 0, 0);
                        }
                        seq![(tag, WireItem::Varint(v))] + parse_records(t.skip(m))
                    },
                }
            } else if wire_of(key) == 2 {
                match read_varint(t) {
                    None => seq![],
                    Some((m, len)) => {
                        proof {
                            lemma_varint_from_bounds(t, 0, 0, 0);
                        }
                        let u = t.skip(m);
                        if len > u.len() {
                            seq![]
                        } else {
                            seq![(tag, WireItem::Bytes(u.take(len as int)))] + parse_records(
                                u.skip(len as int),
                            )
                        }
                    },
                }
            } else if wire_of(key) == 1 {
                if t.len() < 8 {
                    seq![]
                } else {
                    seq![(tag, WireItem::Fixed64(t.take(8)))] + parse_records(t.skip(8))
                }
            } else if wire_of(key) == 5 {
                if t.len() < 4 {
                    seq![]
                } else {
                    seq![(tag, WireItem::Fixed32(t.take(4)))] + parse_records(t.skip(4))
                }
            } else {
                seq![]
            }
        },
    }
}

/// Collects records into a map: each record's value is appended to the
/// values of its field number.
pub open spec fn group_records(recs: Seq<(u32, WireItem)>) -> Map<u32, Seq<WireItem>>
    decreases recs.len(),
{
    if recs.len() == 0 {
        Map::empty()
    } else {
        let m = group_records(recs.drop_last());
        let (t, v) = recs.last();
        m.insert(t, if m.contains_key(t) { m[t].push(v) } else { seq![v] })
    }
}

/// The fields that a message holds.
pub open spec fn message_fields(s: Seq<u8>) -> Map<u32, Seq<WireItem>> {
    group_records(parse_records(s))
}

//=========================================#
//        VARINT READ-BACK (LEMMAS)        #
//=========================================#

proof fn lemma_last_group_bits(w: u64)
    by (bit_vector)
    requires
        w >> 7 == 0,
    ensures
        (((w & 0x7f) as u8) & 0x7f) as u64 == w,
        ((w & 0x7f) as u8) < 0x80,
{
}

proof fn lemma_continued_group_bits(w: u64)
    by (bit_vector)
    requires
        w >> 7 != 0,
    ensures
        ((((w & 0x7f) as u8) | 0x80) & 0x7f) as u64 == w & 0x7f,
        (((w & 0x7f) as u8) | 0x80) >= 0x80,
{
}

proof fn lemma_accumulate_group(acc: u64, w: u64, shift: u64)
    by (bit_vector)
    requires
        shift < 64,
        acc >> shift == 0,
        w <= (0xffff_ffff_ffff_ffffu64 >> shift),
        w >> 7 != 0,
    ensures
        shift + 7 < 64,
        (acc | ((w & 0x7f) << shift)) >> ((shift + 7) as u64) == 0,
        w >> 7 <= (0xffff_ffff_ffff_ffffu64 >> ((shift + 7) as u64)),
        (acc | ((w & 0x7f) << shift)) | ((w >> 7) << ((shift + 7) as u64)) == acc | (w << shift),
{
}

proof fn lemma_start_bits(w: u64)
    by (bit_vector)
    ensures
        (0u64 >> 0u64) == 0,
        w <= (0xffff_ffff_ffff_ffffu64 >> 0u64),
        (0u64 | (w << 0u64)) == w,
{
}

/// Reading at index `k` of `s`, where the encoding of `w` stands, with `acc`
/// holding only bits below `shift`, ends just past the encoding with the bits
/// of `w` placed at `shift`.
proof fn lemma_read_encoding_at(s: Seq<u8>, k: int, shift: u64, acc: u64, w: u64)
    requires
        0 <= k,
        k + varint_bytes(w).len() <= s.len(),
        s.subrange(k, k + varint_bytes(w).len()) == varint_bytes(w),
        shift < 64,
        acc >> shift == 0,
        w <= (0xffff_ffff_ffff_ffffu64 >> shift),
    ensures
        varint_from(s, k, shift, acc) == Some((k + varint_bytes(w).len(), acc | (w << shift))),
    decreases w,
{
    let e = varint_bytes(w);
    assert(s[k] == s.subrange(k, k + e.len())[0]);
    if w >> 7 == 0 {
        lemma_last_group_bits(w);
    } else {
        lemma_continued_group_bits(w);
        lemma_accumulate_group(acc, w, shift);
        lemma_shift_decreases(w);
        let e2 = varint_bytes(w >> 7);
        assert(e == seq![((w & 0x7f) as u8) | 0x80] + e2);
        assert(s.subrange(k + 1, k + 1 + e2.len()) =~= e2) by {
            assert forall|j: int| 0 <= j < e2.len() implies s.subrange(k + 1, k + 1 + e2.len())[j]
                == e2[j] by {
                assert(s.subrange(k, k + e.len())[j + 1] == e[j + 1]);
            }
        }
        lemma_read_encoding_at(
            s,
            k + 1,
            (shift + 7) as u64,
            acc | ((w & 0x7f) << shift),
            w >> 7,
        );
    }
}

/// A varint is read back as the value that was encoded, whatever follows it.
pub proof fn lemma_read_varint_bytes(w: u64, rest: Seq<u8>)
    ensures
        read_varint(varint_bytes(w) + rest) == Some((varint_bytes(w).len() as int, w)),
{
    let s = varint_bytes(w) + rest;
    assert(s.subrange(0, varint_bytes(w).len() as int) =~= varint_bytes(w));
    lemma_start_bits(w);
    lemma_read_encoding_at(s, 0, 0, 0, w);
}

//=========================================#
//            FIELD ENCODING               #
//=========================================#

/// The key that starts a field: its number shifted left by three, and the wire type.
pub open spec fn field_key(tag: u32, wire: u64) -> u64 {
    ((tag as u64) << 3) | wire
}

/// The encoding of a varint field.
pub open spec fn varint_field_bytes(tag: u32, v: u64) -> Seq<u8> {
    varint_bytes(field_key(tag, 0)) + varint_bytes(v)
}

/// The encoding of a length-delimited field.
pub open spec fn bytes_field_bytes(tag: u32, data: Seq<u8>) -> Seq<u8> {
    varint_bytes(field_key(tag, 2)) + varint_bytes(data.len() as u64) + data
}

proof fn lemma_field_key_bits(tag: u32, wire: u64)
    by (bit_vector)
    requires
        wire < 8,
    ensures
        (((((tag as u64) << 3) | wire) >> 3) as u32) == tag,
        ((((tag as u64) << 3) | wire) & 7) == wire,
{
}

/// A varint field is read back as one record of its number and value,
/// followed by the records of whatever comes after it.
pub proof fn lemma_parse_varint_field(tag: u32, v: u64, rest: Seq<u8>)
    ensures
        parse_records(varint_field_bytes(tag, v) + rest) == seq![(tag, WireItem::Varint(v))]
            + parse_records(rest),
{
    let key = field_key(tag, 0);
    let kb = varint_bytes(key);
    let vb = varint_bytes(v);
    let s = varint_field_bytes(tag, v) + rest;
    lemma_field_key_bits(tag, 0);
    assert(s =~= kb + (vb + rest));
    lemma_read_varint_bytes(key, vb + rest);
    let t = s.skip(kb.len() as int);
    assert(t =~= vb + rest);
    lemma_read_varint_bytes(v, rest);
    assert(t.skip(vb.len() as int) =~= rest);
}

/// A length-delimited field is read back as one record of its number and
/// bytes, followed by the records of whatever comes after it.
pub proof fn lemma_parse_bytes_field(tag: u32, data: Seq<u8>, rest: Seq<u8>)
    requires
        data.len() <= u64::MAX,
    ensures
        parse_records(bytes_field_bytes(tag, data) + rest) == seq![(tag, WireItem::Bytes(data))]
            + parse_records(rest),
{
    let key = field_key(tag, 2);
    let kb = varint_bytes(key);
    let lb = varint_bytes(data.len() as u64);
    let s = bytes_field_bytes(tag, data) + rest;
    lemma_field_key_bits(tag, 2);
    assert(s =~= kb + (lb + (data + rest)));
    lemma_read_varint_bytes(key, lb + (data + rest));
    let t = s.skip(kb.len() as int);
    assert(t =~= lb + (data + rest));
    lemma_read_varint_bytes(data.len() as u64, data + rest);
    let u = t.skip(lb.len() as int);
    assert(u =~= data + rest);
    assert(u.take(data.len() as int) =~= data);
    assert(u.skip(data.len() as int) =~= rest);
}

//=========================================#
//            ENCODING HELPERS             #
//=========================================#

/// Encodes `val` as a base-128 varint.
pub fn encode_varint(val: u64) -> (r: Vec<u8>)
    ensures
        r@ == varint_bytes(val),
{
    let mut res: Vec<u8> = Vec::new();
    let mut v: u64 = val;
    loop
        invariant_except_break
            res@ + varint_bytes(v) == varint_bytes(val),
        ensures
            res@ == varint_bytes(val),
        decreases v,
    {
        proof {
            assert(v & 0x7f <= 0x7f) by (bit_vector);
        }
        let b: u8 = (v & 0x7f) as u8;
        let next: u64 = v >> 7;
        if next != 0 {
            proof {
                lemma_shift_decreases(v);
                assert(res@.push(b | 0x80) + varint_bytes(next) =~= res@ + varint_bytes(v));
            }
            res.push(b | 0x80);
            v = next;
        } else {
            proof {
                assert(res@.push(b) =~= res@ + varint_bytes(v));
            }
            res.push(b);
            break;
        }
    }
    res
}

/// Encodes a varint field: its key (wire type 0), then the value.
pub fn encode_field_varint(tag: u32, val: u64) -> (r: Vec<u8>)
    ensures
        r@ == varint_field_bytes(tag, val),
{
    let mut res = encode_varint(((tag as u64) << 3) | 0);
    let mut value = encode_varint(val);
    res.append(&mut value);
    res
}

/// Encodes a length-delimited field: its key (wire type 2), the length, then the bytes.
pub fn encode_field_bytes(tag: u32, data: &[u8]) -> (r: Vec<u8>)
    ensures
        r@ == bytes_field_bytes(tag, data@),
{
    let mut res = encode_varint(((tag as u64) << 3) | 2);
    let mut len = encode_varint(data.len() as u64);
    res.append(&mut len);
    res.extend_from_slice(data);
    proof {
        assert(res@ =~= bytes_field_bytes(tag, data@));
    }
    res
}

//=========================================#
//            MESSAGE PARSING              #
//=========================================#

/// Reads the varint that starts at index `start` of `b`: the index just past
/// it and its value.
fn read_varint_at(b: &[u8], start: usize) -> (r: Option<(usize, u64)>)
    requires
        start <= b.len(),
    ensures
        match read_varint(b@.skip(start as int)) {
            None => r is None,
            Some((n, v)) => r == Some(((start + n) as usize, v)),
        },
{
    let ghost s = b@.skip(start as int);
    let mut i: usize = start;
    let mut shift: u64 = 0;
    let mut val: u64 = 0;
    loop
        invariant
            start <= i <= b.len(),
            shift < 64,
            s == b@.skip(start as int),
            read_varint(s) == varint_from(s, i - start, shift, val),
        decreases b.len() - i,
    {
        if i >= b.len() {
            return None;
        }
        let byte: u8 = b[i];
        assert(s[i - start] == byte);
        val = val | (((byte & 0x7f) as u64) << shift);
        i = i + 1;
        if byte < 0x80 {
            return Some((i, val));
        }
        if shift + 7 >= 64 {
            return None;
        }
        shift = shift + 7;
    }
}

/// Appends `val` to the values of field `tag`.
fn push_value(fields: &mut ProtoFields, tag: u32, val: WireValue)
    ensures
        fields_view(*final(fields)) == fields_view(*old(fields)).insert(
            tag,
            if fields_view(*old(fields)).contains_key(tag) {
                fields_view(*old(fields))[tag].push(val@)
            } else {
                seq![val@]
            },
        ),
{
    let ghost item = val@;
    let mut vals = match fields.remove(&tag) {
        Some(v) => v,
        None => Vec::new(),
    };
    let ghost before = vals@;
    vals.push(val);
    fields.insert(tag, vals);
    proof {
        let old_view = fields_view(*old(fields));
        let new_view = fields_view(*fields);
        let expect = old_view.insert(
            tag,
            if old_view.contains_key(tag) { old_view[tag].push(item) } else { seq![item] },
        );
        assert(new_view[tag] =~= expect[tag]);
        assert(new_view =~= expect);
    }
}

/// Parses raw protobuf bytes into the values of each field number.
/// Parsing stops at the first point where the input cannot be read further
/// (see `parse_records`); everything read up to there is kept.
#[verifier::spinoff_prover]
#[verifier::rlimit(40)]
pub fn parse_proto(b: &[u8]) -> (fields: ProtoFields)
    ensures
        fields_view(fields) == message_fields(b@),
{
    let mut fields: ProtoFields = HashMap::new();
    let mut i: usize = 0;
    let ghost mut done: Seq<(u32, WireItem)> = seq![];
    proof {
        assert(b@.skip(0) =~= b@);
        assert(fields_view(fields) =~= Map::empty());
    }
    while i < b.len()
        invariant
            i <= b.len(),
            parse_records(b@) == done + parse_records(b@.skip(i as int)),
            fields_view(fields) == group_records(done),
        decreases b.len() - i,
    {
        let ghost s = b@.skip(i as int);
        let (j, key) = match read_varint_at(b, i) {
            Some(x) => x,
            None => {
                assert(done + parse_records(s) =~= done);
                return fields;
            },
        };
        proof {
            lemma_varint_from_bounds(s, 0, 0, 0);
        }
        let ghost t = s.skip(j - i);
        assert(t =~= b@.skip(j as int));
        let tag: u32 = #[verifier::truncate] ((key >> 3) as u32);
        let wire: u64 = key & 7;
        if wire == 0 {
            match read_varint_at(b, j) {
                Some((k, v)) => {
                    proof {
                        lemma_varint_from_bounds(t, 0, 0, 0);
                    }
                    assert(t.skip(k - j) =~= b@.skip(k as int));
                    push_value(&mut fields, tag, WireValue::Varint(v));
                    proof {
                        let rec = (tag, WireItem::Varint(v));
                        assert(done.push(rec).drop_last() =~= done);
                        assert(done + parse_records(s) =~= done.push(rec) + parse_records(
                            b@.skip(k as int),
                        ));
                        done = done.push(rec);
                    }
                    i = k;
                },
                None => {
                    assert(done + parse_records(s) =~= done);
                    return fields;
                },
            }
        } else if wire == 2 {
            match read_varint_at(b, j) {
                Some((k, len)) => {
                    proof {
                        lemma_varint_from_bounds(t, 0, 0, 0);
                    }
                    let ghost u = t.skip(k - j);
                    assert(u =~= b@.skip(k as int));
                    if len > (b.len() - k) as u64 {
                        assert(done + parse_records(s) =~= done);
                        return fields;
                    }
                    let end: usize = k + len as usize;
                    let data: Vec<u8> = vstd::slice::slice_to_vec(&b[k..end]);
                    assert(data@ =~= u.take(len as int));
                    assert(u.skip(len as int) =~= b@.skip(end as int));
                    let ghost item = WireItem::Bytes(data@);
                    push_value(&mut fields, tag, WireValue::Bytes(data));
                    proof {
                        let rec = (tag, item);
                        assert(done.push(rec).drop_last() =~= done);
                        assert(done + parse_records(s) =~= done.push(rec) + parse_records(
                            b@.skip(end as int),
                        ));
                        done = done.push(rec);
                    }
                    i = end;
                },
                None => {
                    assert(done + parse_records(s) =~= done);
                    return fields;
                },
            }
        } else if wire == 1 {
            if b.len() - j < 8 {
                assert(done + parse_records(s) =~= done);
                return fields;
            }
            let arr: [u8; 8] = [b[j], b[j + 1], b[j + 2], b[j + 3], b[j + 4], b[j + 5], b[j + 6], b[j + 7]];
            assert(arr@ =~= t.take(8));
            assert(t.skip(8) =~= b@.skip(j + 8));
            push_value(&mut fields, tag, WireValue::Fixed64(arr));
            proof {
                let rec = (tag, WireItem::Fixed64(arr@));
                assert(done.push(rec).drop_last() =~= done);
                assert(done + parse_records(s) =~= done.push(rec) + parse_records(
                    b@.skip(j + 8),
                ));
                done = done.push(rec);
            }
            i = j + 8;
        } else if wire == 5 {
            if b.len() - j < 4 {
                assert(done + parse_records(s) =~= done);
                return fields;
            }
            let arr: [u8; 4] = [b[j], b[j + 1], b[j + 2], b[j + 3]];
            assert(arr@ =~= t.take(4));
            assert(t.skip(4) =~= b@.skip(j + 4));
            push_value(&mut fields, tag, WireValue::Fixed32(arr));
            proof {
                let rec = (tag, WireItem::Fixed32(arr@));
                assert(done.push(rec).drop_last() =~= done);
                assert(done + parse_records(s) =~= done.push(rec) + parse_records(
                    b@.skip(j + 4),
                ));
                done = done.push(rec);
            }
            i = j + 4;
        } else {
            assert(done + parse_records(s) =~= done);
            return fields;
        }
    }
    proof {
        assert(read_varint(b@.skip(i as int)) is None);
        assert(done + parse_records(b@.skip(i as int)) =~= done);
    }
    fields
}

//=========================================#
//            MESSAGE BUILDERS             #
//=========================================#

/// The encoding of a timestamp message: seconds in field 1, nanoseconds in field 2.
pub open spec fn timestamp_bytes(sec: u64, nano: u64) -> Seq<u8> {
    varint_field_bytes(1, sec) + varint_field_bytes(2, nano)
}

/// The encoding of the repository message inside workspace info: the repository
/// name in field 1 and its URL in field 2.
pub open spec fn ws_repo_bytes(repo: Seq<u8>, repo_url: Seq<u8>) -> Seq<u8> {
    bytes_field_bytes(1, repo) + bytes_field_bytes(2, repo_url)
}

/// The encoding of a workspace info message: the URI in fields 1 and 2, the
/// repository message in field 3 and the branch in field 4.
pub open spec fn ws_info_bytes(
    uri: Seq<u8>,
    repo: Seq<u8>,
    repo_url: Seq<u8>,
    branch: Seq<u8>,
) -> Seq<u8> {
    bytes_field_bytes(1, uri) + bytes_field_bytes(2, uri) + bytes_field_bytes(
        3,
        ws_repo_bytes(repo, repo_url),
    ) + bytes_field_bytes(4, branch)
}

/// Encodes a timestamp message.
pub fn make_timestamp(sec: u64, nano: u64) -> (r: Vec<u8>)
    ensures
        r@ == timestamp_bytes(sec, nano),
{
    let mut out: Vec<u8> = Vec::new();
    let mut a = encode_field_varint(1, sec);
    let mut b = encode_field_varint(2, nano);
    out.append(&mut a);
    out.append(&mut b);
    proof {
        assert(out@ =~= timestamp_bytes(sec, nano));
    }
    out
}

/// Encodes a workspace info message from its four strings, each as UTF-8.
pub fn make_ws_info(uri: &str, repo: &str, repo_url: &str, branch: &str) -> (r: Vec<u8>)
    ensures
        r@ == ws_info_bytes(
            uri.spec_bytes(),
            repo.spec_bytes(),
            repo_url.spec_bytes(),
            branch.spec_bytes(),
        ),
{
    let mut repo_msg: Vec<u8> = Vec::new();
    let mut f1 = encode_field_bytes(1, repo.as_bytes());
    let mut f2 = encode_field_bytes(2, repo_url.as_bytes());
    repo_msg.append(&mut f1);
    repo_msg.append(&mut f2);
    assert(repo_msg@ =~= ws_repo_bytes(repo.spec_bytes(), repo_url.spec_bytes()));

    let mut out: Vec<u8> = Vec::new();
    let mut g1 = encode_field_bytes(1, uri.as_bytes());
    let mut g2 = encode_field_bytes(2, uri.as_bytes());
    let mut g3 = encode_field_bytes(3, repo_msg.as_slice());
    let mut g4 = encode_field_bytes(4, branch.as_bytes());
    out.append(&mut g1);
    out.append(&mut g2);
    out.append(&mut g3);
    out.append(&mut g4);
    proof {
        assert(out@ =~= ws_info_bytes(
            uri.spec_bytes(),
            repo.spec_bytes(),
            repo_url.spec_bytes(),
            branch.spec_bytes(),
        ));
    }
    out
}

//=========================================#
//            FIELD ACCESSORS              #
//=========================================#

/// The first length-delimited value among `vals`.
pub open spec fn first_bytes(vals: Seq<WireItem>) -> Option<Seq<u8>>
    decreases vals.len(),
{
    if vals.len() == 0 {
        None
    } else {
        match vals[0] {
            WireItem::Bytes(b) => Some(b),
            _ => first_bytes(vals.drop_first()),
        }
    }
}

/// The first varint value among `vals`.
pub open spec fn first_varint(vals: Seq<WireItem>) -> Option<u64>
    decreases vals.len(),
{
    if vals.len() == 0 {
        None
    } else {
        match vals[0] {
            WireItem::Varint(v) => Some(v),
            _ => first_varint(vals.drop_first()),
        }
    }
}

/// The first length-delimited value of field `tag`, if it has one.
pub open spec fn field_first_bytes(m: Map<u32, Seq<WireItem>>, tag: u32) -> Option<Seq<u8>> {
    if m.contains_key(tag) {
        first_bytes(m[tag])
    } else {
        None
    }
}

/// The first varint value of field `tag`, if it has one.
pub open spec fn field_first_varint(m: Map<u32, Seq<WireItem>>, tag: u32) -> Option<u64> {
    if m.contains_key(tag) {
        first_varint(m[tag])
    } else {
        None
    }
}

/// The bytes that an optional slice holds.
pub open spec fn opt_slice_view(r: Option<&[u8]>) -> Option<Seq<u8>> {
    match r {
        Some(x) => Some(x@),
        None => None,
    }
}

/// Typed access to the first value of a field.
pub trait ProtoFieldsExt {
    /// The first length-delimited value of field `tag`.
    fn get_first_bytes(&self, tag: u32) -> Option<&[u8]>;

    /// The first length-delimited value of field `tag`, decoded as UTF-8
    /// (invalid sequences replaced).
    fn get_first_string(&self, tag: u32) -> Option<String>;

    /// The first varint value of field `tag`.
    fn get_first_varint(&self, tag: u32) -> Option<u64>;
}

impl ProtoFieldsExt for ProtoFields {
    fn get_first_bytes(&self, tag: u32) -> (r: Option<&[u8]>)
        ensures
            opt_slice_view(r) == field_first_bytes(fields_view(*self), tag),
    {
        match self.get(&tag) {
            None => None,
            Some(vals) => {
                let ghost all = vals@.map_values(|w: WireValue| w@);
                assert(fields_view(*self).contains_key(tag));
                assert(fields_view(*self)[tag] == all);
                assert(all.skip(0) =~= all);
                let mut k: usize = 0;
                while k < vals.len()
                    invariant
                        k <= vals.len(),
                        all == vals@.map_values(|w: WireValue| w@),
                        fields_view(*self).contains_key(tag),
                        fields_view(*self)[tag] == all,
                        first_bytes(all) == first_bytes(all.skip(k as int)),
                    decreases vals.len() - k,
                {
                    assert(all.skip(k as int).drop_first() =~= all.skip(k + 1));
                    match &vals[k] {
                        WireValue::Bytes(b) => {
                            assert(all.skip(k as int)[0] == WireItem::Bytes(b@));
                            assert(first_bytes(all.skip(k as int)) == Some(b@));
                            return Some(b.as_slice());
                        },
                        _ => {},
                    }
                    k = k + 1;
                }
                None
            },
        }
    }

    fn get_first_string(&self, tag: u32) -> (r: Option<String>)
        ensures
            match field_first_bytes(fields_view(*self), tag) {
                None => r is None,
                Some(b) => r matches Some(s) && s@ == utf8_lossy(b) && (valid_utf8(b) ==> s@
                    == decode_utf8(b)),
            },
    {
        match self.get_first_bytes(tag) {
            None => None,
            Some(bytes) => Some(decode_utf8_lossy(bytes)),
        }
    }

    fn get_first_varint(&self, tag: u32) -> (r: Option<u64>)
        ensures
            r == field_first_varint(fields_view(*self), tag),
    {
        match self.get(&tag) {
            None => None,
            Some(vals) => {
                let ghost all = vals@.map_values(|w: WireValue| w@);
                assert(fields_view(*self).contains_key(tag));
                assert(fields_view(*self)[tag] == all);
                assert(all.skip(0) =~= all);
                let mut k: usize = 0;
                while k < vals.len()
                    invariant
                        k <= vals.len(),
                        all == vals@.map_values(|w: WireValue| w@),
                        fields_view(*self).contains_key(tag),
                        fields_view(*self)[tag] == all,
                        first_varint(all) == first_varint(all.skip(k as int)),
                    decreases vals.len() - k,
                {
                    assert(all.skip(k as int).drop_first() =~= all.skip(k + 1));
                    match &vals[k] {
                        WireValue::Varint(v) => {
                            assert(all.skip(k as int)[0] == WireItem::Varint(*v));
                            assert(first_varint(all.skip(k as int)) == Some(*v));
                            return Some(*v);
                        },
                        _ => {},
                    }
                    k = k + 1;
                }
                None
            },
        }
    }
}

//=========================================#
//                 LAWS                    #
//=========================================#

proof fn lemma_no_records_in_empty()
    ensures
        parse_records(Seq::<u8>::empty()) == Seq::<(u32, WireItem)>::empty(),
{
    assert(read_varint(Seq::<u8>::empty()) is None);
}

proof fn lemma_group_one(r: (u32, WireItem))
    ensures
        group_records(seq![r]) == Map::<u32, Seq<WireItem>>::empty().insert(r.0, seq![r.1]),
{
    assert(seq![r].drop_last() =~= Seq::<(u32, WireItem)>::empty());
    assert(group_records(Seq::<(u32, WireItem)>::empty()) == Map::<u32, Seq<WireItem>>::empty());
    assert(seq![r].last() == r);
}

proof fn lemma_group_push(recs: Seq<(u32, WireItem)>, r: (u32, WireItem))
    ensures
        group_records(recs.push(r)) == group_records(recs).insert(
            r.0,
            if group_records(recs).contains_key(r.0) {
                group_records(recs)[r.0].push(r.1)
            } else {
                seq![r.1]
            },
        ),
{
    assert(recs.push(r).drop_last() =~= recs);
}

/// A varint field is read back as exactly the value written, under its field
/// number, and it is that field's first varint.
pub proof fn law_varint_field_roundtrip(tag: u32, v: u64)
    ensures
        message_fields(varint_field_bytes(tag, v)) == map![tag => seq![WireItem::Varint(v)]],
        field_first_varint(message_fields(varint_field_bytes(tag, v)), tag) == Some(v),
{
    let e = varint_field_bytes(tag, v);
    lemma_parse_varint_field(tag, v, Seq::empty());
    assert(e + Seq::<u8>::empty() =~= e);
    lemma_no_records_in_empty();
    let rec = (tag, WireItem::Varint(v));
    assert(parse_records(e) =~= seq![rec]);
    lemma_group_one(rec);
    assert(message_fields(e) =~= map![tag => seq![WireItem::Varint(v)]]);
    let vals = seq![WireItem::Varint(v)];
    assert(first_varint(vals) == Some(v));
}

/// A length-delimited field is read back as exactly the bytes written, under
/// its field number, and they are that field's first bytes.
pub proof fn law_bytes_field_roundtrip(tag: u32, data: Seq<u8>)
    requires
        data.len() <= u64::MAX,
    ensures
        message_fields(bytes_field_bytes(tag, data)) == map![tag => seq![WireItem::Bytes(data)]],
        field_first_bytes(message_fields(bytes_field_bytes(tag, data)), tag) == Some(data),
{
    let e = bytes_field_bytes(tag, data);
    lemma_parse_bytes_field(tag, data, Seq::empty());
    assert(e + Seq::<u8>::empty() =~= e);
    lemma_no_records_in_empty();
    let rec = (tag, WireItem::Bytes(data));
    assert(parse_records(e) =~= seq![rec]);
    lemma_group_one(rec);
    assert(message_fields(e) =~= map![tag => seq![WireItem::Bytes(data)]]);
    let vals = seq![WireItem::Bytes(data)];
    assert(first_bytes(vals) == Some(data));
}

/// Text written as UTF-8 into a length-delimited field is read back as the
/// same text: the field's first bytes are its encoding, which is valid UTF-8
/// and decodes to the text (so `get_first_string` returns it).
pub proof fn law_string_field_roundtrip(tag: u32, text: Seq<char>)
    requires
        encode_utf8(text).len() <= u64::MAX,
    ensures
        field_first_bytes(message_fields(bytes_field_bytes(tag, encode_utf8(text))), tag) == Some(
            encode_utf8(text),
        ),
        valid_utf8(encode_utf8(text)),
        decode_utf8(encode_utf8(text)) == text,
{
    law_bytes_field_roundtrip(tag, encode_utf8(text));
    encode_utf8_valid_utf8(text);
    encode_utf8_decode_utf8(text);
}

/// A timestamp message is read back as its seconds in field 1 and its
/// nanoseconds in field 2.
pub proof fn law_timestamp_roundtrip(sec: u64, nano: u64)
    ensures
        message_fields(timestamp_bytes(sec, nano)) == map![
            1u32 => seq![WireItem::Varint(sec)],
            2u32 => seq![WireItem::Varint(nano)],
        ],
        field_first_varint(message_fields(timestamp_bytes(sec, nano)), 1) == Some(sec),
        field_first_varint(message_fields(timestamp_bytes(sec, nano)), 2) == Some(nano),
{
    let a = varint_field_bytes(1, sec);
    let b = varint_field_bytes(2, nano);
    lemma_parse_varint_field(1, sec, b);
    lemma_parse_varint_field(2, nano, Seq::empty());
    assert(b + Seq::<u8>::empty() =~= b);
    lemma_no_records_in_empty();
    let r1 = (1u32, WireItem::Varint(sec));
    let r2 = (2u32, WireItem::Varint(nano));
    assert(parse_records(timestamp_bytes(sec, nano)) =~= seq![r1].push(r2));
    lemma_group_one(r1);
    lemma_group_push(seq![r1], r2);
    let m = message_fields(timestamp_bytes(sec, nano));
    assert(m =~= map![1u32 => seq![WireItem::Varint(sec)], 2u32 => seq![WireItem::Varint(nano)]]);
    assert(first_varint(seq![WireItem::Varint(sec)]) == Some(sec));
    assert(first_varint(seq![WireItem::Varint(nano)]) == Some(nano));
}

/// The repository message is read back as the repository name in field 1 and
/// its URL in field 2.
pub proof fn law_ws_repo_roundtrip(repo: Seq<u8>, repo_url: Seq<u8>)
    requires
        repo.len() <= u64::MAX,
        repo_url.len() <= u64::MAX,
    ensures
        message_fields(ws_repo_bytes(repo, repo_url)) == map![
            1u32 => seq![WireItem::Bytes(repo)],
            2u32 => seq![WireItem::Bytes(repo_url)],
        ],
{
    let a = bytes_field_bytes(1, repo);
    let b = bytes_field_bytes(2, repo_url);
    lemma_parse_bytes_field(1, repo, b);
    lemma_parse_bytes_field(2, repo_url, Seq::empty());
    assert(b + Seq::<u8>::empty() =~= b);
    lemma_no_records_in_empty();
    let r1 = (1u32, WireItem::Bytes(repo));
    let r2 = (2u32, WireItem::Bytes(repo_url));
    assert(parse_records(ws_repo_bytes(repo, repo_url)) =~= seq![r1].push(r2));
    lemma_group_one(r1);
    lemma_group_push(seq![r1], r2);
    assert(message_fields(ws_repo_bytes(repo, repo_url)) =~= map![
        1u32 => seq![WireItem::Bytes(repo)],
        2u32 => seq![WireItem::Bytes(repo_url)],
    ]);
}

/// A workspace info message is read back as the URI in fields 1 and 2, the
/// repository message in field 3 and the branch in field 4.
pub proof fn law_ws_info_roundtrip(
    uri: Seq<u8>,
    repo: Seq<u8>,
    repo_url: Seq<u8>,
    branch: Seq<u8>,
)
    requires
        uri.len() <= u64::MAX,
        ws_repo_bytes(repo, repo_url).len() <= u64::MAX,
        branch.len() <= u64::MAX,
    ensures
        message_fields(ws_info_bytes(uri, repo, repo_url, branch)) == map![
            1u32 => seq![WireItem::Bytes(uri)],
            2u32 => seq![WireItem::Bytes(uri)],
            3u32 => seq![WireItem::Bytes(ws_repo_bytes(repo, repo_url))],
            4u32 => seq![WireItem::Bytes(branch)],
        ],
{
    let msg = ws_repo_bytes(repo, repo_url);
    let f1 = bytes_field_bytes(1, uri);
    let f2 = bytes_field_bytes(2, uri);
    let f3 = bytes_field_bytes(3, msg);
    let f4 = bytes_field_bytes(4, branch);
    assert(ws_info_bytes(uri, repo, repo_url, branch) =~= f1 + (f2 + (f3 + f4)));
    lemma_parse_bytes_field(1, uri, f2 + (f3 + f4));
    lemma_parse_bytes_field(2, uri, f3 + f4);
    lemma_parse_bytes_field(3, msg, f4);
    lemma_parse_bytes_field(4, branch, Seq::empty());
    assert(f4 + Seq::<u8>::empty() =~= f4);
    lemma_no_records_in_empty();
    let r1 = (1u32, WireItem::Bytes(uri));
    let r2 = (2u32, WireItem::Bytes(uri));
    let r3 = (3u32, WireItem::Bytes(msg));
    let r4 = (4u32, WireItem::Bytes(branch));
    assert(parse_records(ws_info_bytes(uri, repo, repo_url, branch)) =~= seq![r1].push(r2).push(
        r3,
    ).push(r4));
    lemma_group_one(r1);
    lemma_group_push(seq![r1], r2);
    lemma_group_push(seq![r1].push(r2), r3);
    lemma_group_push(seq![r1].push(r2).push(r3), r4);
    assert(message_fields(ws_info_bytes(uri, repo, repo_url, branch)) =~= map![
        1u32 => seq![WireItem::Bytes(uri)],
        2u32 => seq![WireItem::Bytes(uri)],
        3u32 => seq![WireItem::Bytes(msg)],
        4u32 => seq![WireItem::Bytes(branch)],
    ]);
}

/// A field as the encoders write it: a varint or a length-delimited value,
/// with its field number.
pub enum FieldValue {
    Varint(u32, u64),
    Bytes(u32, Seq<u8>),
}

/// The encoding of one field.
pub open spec fn field_value_bytes(f: FieldValue) -> Seq<u8> {
    match f {
        FieldValue::Varint(t, v) => varint_field_bytes(t, v),
        FieldValue::Bytes(t, d) => bytes_field_bytes(t, d),
    }
}

/// The record that one field is read as.
pub open spec fn field_value_record(f: FieldValue) -> (u32, WireItem) {
    match f {
        FieldValue::Varint(t, v) => (t, WireItem::Varint(v)),
        FieldValue::Bytes(t, d) => (t, WireItem::Bytes(d)),
    }
}

/// The encodings of the fields, one after the other.
pub open spec fn fields_bytes(fs: Seq<FieldValue>) -> Seq<u8>
    decreases fs.len(),
{
    if fs.len() == 0 {
        seq![]
    } else {
        field_value_bytes(fs[0]) + fields_bytes(fs.drop_first())
    }
}

/// Whether every length-delimited value is short enough for its length to be
/// written (as it is for any slice the encoder is given).
pub open spec fn lengths_fit(fs: Seq<FieldValue>) -> bool {
    forall|i: int|
        0 <= i < fs.len() ==> (#[trigger] fs[i] matches FieldValue::Bytes(_, d) ==> d.len() <= u64::MAX)
}

/// The values of field `t` in `m`, none when it has none.
pub open spec fn values_of(m: Map<u32, Seq<WireItem>>, t: u32) -> Seq<WireItem> {
    if m.contains_key(t) {
        m[t]
    } else {
        seq![]
    }
}

/// The fields of `m1` followed by those of `m2`: each field number has the
/// values it has in `m1`, then those it has in `m2`.
pub open spec fn merge_fields(m1: Map<u32, Seq<WireItem>>, m2: Map<u32, Seq<WireItem>>) -> Map<
    u32,
    Seq<WireItem>,
> {
    Map::new(
        |t: u32| m1.contains_key(t) || m2.contains_key(t),
        |t: u32| values_of(m1, t) + values_of(m2, t),
    )
}

proof fn lemma_records_of_fields(fs: Seq<FieldValue>, rest: Seq<u8>)
    requires
        lengths_fit(fs),
    ensures
        parse_records(fields_bytes(fs) + rest) == fs.map_values(|f: FieldValue| field_value_record(f))
            + parse_records(rest),
    decreases fs.len(),
{
    if fs.len() == 0 {
        assert(fields_bytes(fs) + rest =~= rest);
        assert(fs.map_values(|f: FieldValue| field_value_record(f)) =~= Seq::<(u32, WireItem)>::empty());
        assert(Seq::<(u32, WireItem)>::empty() + parse_records(rest) =~= parse_records(rest));
    } else {
        let tail = fs.drop_first();
        assert forall|i: int| 0 <= i < tail.len() implies (#[trigger] tail[i] matches FieldValue::Bytes(_, d)
            ==> d.len() <= u64::MAX) by {
            assert(tail[i] == fs[i + 1]);
        }
        lemma_records_of_fields(tail, rest);
        let after = fields_bytes(tail) + rest;
        assert(fields_bytes(fs) + rest =~= field_value_bytes(fs[0]) + after);
        match fs[0] {
            FieldValue::Varint(t, v) => {
                lemma_parse_varint_field(t, v, after);
            },
            FieldValue::Bytes(t, d) => {
                assert(fs[0] matches FieldValue::Bytes(_, d) ==> d.len() <= u64::MAX);
                lemma_parse_bytes_field(t, d, after);
            },
        }
        assert(fs.map_values(|f: FieldValue| field_value_record(f)) =~= seq![field_value_record(fs[0])]
            + tail.map_values(|f: FieldValue| field_value_record(f)));
    }
}

proof fn lemma_group_concat(r1: Seq<(u32, WireItem)>, r2: Seq<(u32, WireItem)>)
    ensures
        group_records(r1 + r2) == merge_fields(group_records(r1), group_records(r2)),
    decreases r2.len(),
{
    let m1 = group_records(r1);
    if r2.len() == 0 {
        assert(r1 + r2 =~= r1);
        assert(group_records(r2) == Map::<u32, Seq<WireItem>>::empty());
        assert(merge_fields(m1, group_records(r2)) =~= m1) by {
            assert forall|t: u32| m1.contains_key(t) implies merge_fields(m1, group_records(r2))[t]
                == m1[t] by {
                assert(values_of(m1, t) + values_of(group_records(r2), t) =~= m1[t]);
            }
        }
    } else {
        let init = r2.drop_last();
        let x = r2.last();
        lemma_group_concat(r1, init);
        assert(init.push(x) =~= r2);
        assert((r1 + init).push(x) =~= r1 + r2);
        lemma_group_push(r1 + init, x);
        lemma_group_push(init, x);
        let g = group_records(r1 + init);
        let m2i = group_records(init);
        let m2 = group_records(r2);
        assert(group_records(r1 + r2) =~= merge_fields(m1, m2)) by {
            assert forall|t: u32| #[trigger] group_records(r1 + r2).contains_key(t) <==> merge_fields(
                m1,
                m2,
            ).contains_key(t) by {}
            assert forall|t: u32| #[trigger] group_records(r1 + r2).contains_key(t) implies group_records(
                r1 + r2,
            )[t] == merge_fields(m1, m2)[t] by {
                if t == x.0 {
                    assert(values_of(m1, t) + values_of(m2i, t).push(x.1) =~= (values_of(m1, t)
                        + values_of(m2i, t)).push(x.1));
                    assert(values_of(m1, t) + seq![x.1] =~= (values_of(m1, t) + Seq::<
                        WireItem,
                    >::empty()).push(x.1));
                }
            }
        }
    }
}

/// Reading fields written one after the other, followed by any bytes at
/// all, gives per field number the values of the written fields followed by
/// those read from the rest: what is written first is read first, and
/// nothing written is lost or changes the rest.
pub proof fn law_concatenated_fields_merge(fs: Seq<FieldValue>, rest: Seq<u8>)
    requires
        lengths_fit(fs),
    ensures
        message_fields(fields_bytes(fs) + rest) == merge_fields(
            message_fields(fields_bytes(fs)),
            message_fields(rest),
        ),
{
    let recs = fs.map_values(|f: FieldValue| field_value_record(f));
    lemma_records_of_fields(fs, rest);
    lemma_records_of_fields(fs, Seq::empty());
    lemma_no_records_in_empty();
    assert(fields_bytes(fs) + Seq::<u8>::empty() =~= fields_bytes(fs));
    assert(recs + Seq::<(u32, WireItem)>::empty() =~= recs);
    lemma_group_concat(recs, parse_records(rest));
}

} // verus!
