//! The drift fingerprint: one fixed-size value for all the entries of a user,
//! the same for the same entries in whatever order storage returns them.
//!
//! Each entry is written as length-prefixed fields, the written entries are
//! put in lexicographic order and joined, again length-prefixed, and the
//! result is hashed with SHA-256.

use vstd::bytes::{
    lemma_auto_spec_u64_to_from_le_bytes, spec_u64_from_le_bytes, spec_u64_to_le_bytes,
    u64_to_le_bytes,
};
use crate::models::codes::{owned, views, Code, CodeStore, CodeView};
use crate::text::text_view;
use vstd::prelude::*;
use vstd::relations::{sorted_by, total_ordering};
use vstd::seq_lib::lemma_sorted_unique;
use vstd::string::StrSliceExecFns;
use vstd::string::StringExecFns;
use vstd::utf8::encode_utf8;

verus! {

/// Lexicographic order on byte strings: a proper prefix comes first.
pub open spec fn lex_le(a: Seq<u8>, b: Seq<u8>) -> bool
    decreases a.len(),
{
    if a.len() == 0 {
        true
    } else if b.len() == 0 {
        false
    } else if a[0] != b[0] {
        a[0] < b[0]
    } else {
        lex_le(a.drop_first(), b.drop_first())
    }
}

/// `lex_le` as a relation, for the sorting lemmas.
pub open spec fn lex_order() -> spec_fn(Seq<u8>, Seq<u8>) -> bool {
    |a: Seq<u8>, b: Seq<u8>| lex_le(a, b)
}

proof fn lemma_lex_reflexive(a: Seq<u8>)
    ensures
        lex_le(a, a),
    decreases a.len(),
{
    if a.len() > 0 {
        lemma_lex_reflexive(a.drop_first());
    }
}

proof fn lemma_lex_connected(a: Seq<u8>, b: Seq<u8>)
    ensures
        lex_le(a, b) || lex_le(b, a),
    decreases a.len(),
{
    if a.len() > 0 && b.len() > 0 && a[0] == b[0] {
        lemma_lex_connected(a.drop_first(), b.drop_first());
    }
}

proof fn lemma_lex_antisymmetric(a: Seq<u8>, b: Seq<u8>)
    requires
        lex_le(a, b),
        lex_le(b, a),
    ensures
        a == b,
    decreases a.len(),
{
    if a.len() > 0 && b.len() > 0 {
        lemma_lex_antisymmetric(a.drop_first(), b.drop_first());
        assert(a =~= seq![a[0]] + a.drop_first());
        assert(b =~= seq![b[0]] + b.drop_first());
    } else {
        assert(a =~= b);
    }
}

proof fn lemma_lex_transitive(a: Seq<u8>, b: Seq<u8>, c: Seq<u8>)
    requires
        lex_le(a, b),
        lex_le(b, c),
    ensures
        lex_le(a, c),
    decreases a.len(),
{
    if a.len() > 0 && b.len() > 0 && c.len() > 0 && a[0] == b[0] && b[0] == c[0] {
        lemma_lex_transitive(a.drop_first(), b.drop_first(), c.drop_first());
    }
}

/// The lexicographic order is a total order.
pub proof fn lemma_lex_total()
    ensures
        total_ordering(lex_order()),
{
    let r = lex_order();
    assert forall|a: Seq<u8>| #[trigger] r(a, a) by {
        lemma_lex_reflexive(a);
    }
    assert forall|a: Seq<u8>, b: Seq<u8>| #[trigger] r(a, b) && #[trigger] r(b, a) implies a
        == b by {
        lemma_lex_antisymmetric(a, b);
    }
    assert forall|a: Seq<u8>, b: Seq<u8>, c: Seq<u8>| #[trigger] r(a, b) && #[trigger] r(
        b,
        c,
    ) implies r(a, c) by {
        lemma_lex_transitive(a, b, c);
    }
    assert forall|a: Seq<u8>, b: Seq<u8>| #[trigger] r(a, b) || #[trigger] r(b, a) by {
        lemma_lex_connected(a, b);
    }
}

/// Whether `a` comes before `b`, or equals it, in lexicographic order.
pub fn bytes_le(a: &Vec<u8>, b: &Vec<u8>) -> (r: bool)
    ensures
        r == lex_le(a@, b@),
{
    let mut i: usize = 0;
    assert(a@.skip(0) =~= a@ && b@.skip(0) =~= b@);
    while i < a.len() && i < b.len()
        invariant
            i <= a.len(),
            i <= b.len(),
            lex_le(a@, b@) == lex_le(a@.skip(i as int), b@.skip(i as int)),
        decreases a.len() - i,
    {
        assert(a@.skip(i as int).drop_first() =~= a@.skip(i + 1));
        assert(b@.skip(i as int).drop_first() =~= b@.skip(i + 1));
        if a[i] != b[i] {
            return a[i] < b[i];
        }
        i += 1;
    }
    i == a.len()
}

/// The byte strings that a sequence of buffers holds.
pub open spec fn byte_rows(v: Seq<Vec<u8>>) -> Seq<Seq<u8>> {
    v.map_values(|x: Vec<u8>| x@)
}

/// `b` behind its length, the length written as eight little-endian bytes.
pub open spec fn framed(b: Seq<u8>) -> Seq<u8> {
    spec_u64_to_le_bytes(b.len() as u64) + b
}

/// The parts one after another, each behind its length.
pub open spec fn joined(parts: Seq<Seq<u8>>) -> Seq<u8>
    decreases parts.len(),
{
    if parts.len() == 0 {
        Seq::empty()
    } else {
        framed(parts[0]) + joined(parts.drop_first())
    }
}

/// Every part is short enough for its length to be written in eight bytes,
/// as every buffer in memory is.
pub open spec fn frameable(parts: Seq<Seq<u8>>) -> bool {
    forall|i: int| 0 <= i < parts.len() ==> (#[trigger] parts[i]).len() <= u64::MAX
}

/// Joined parts can be told apart again: two sequences of parts that join to
/// the same bytes are the same sequence.
pub proof fn lemma_joined_injective(x: Seq<Seq<u8>>, y: Seq<Seq<u8>>)
    requires
        frameable(x),
        frameable(y),
        joined(x) == joined(y),
    ensures
        x == y,
    decreases x.len(),
{
    lemma_auto_spec_u64_to_from_le_bytes();
    if x.len() == 0 {
        if y.len() > 0 {
            assert(joined(y).len() >= framed(y[0]).len());
        }
        assert(x =~= y);
    } else if y.len() == 0 {
        assert(joined(x).len() >= framed(x[0]).len());
    } else {
        let all = joined(x);
        let (x0, y0) = (x[0], y[0]);
        let (lx, ly) = (spec_u64_to_le_bytes(x0.len() as u64), spec_u64_to_le_bytes(y0.len() as u64));
        assert(all.subrange(0, 8) =~= lx);
        assert(all.subrange(0, 8) =~= ly);
        assert(spec_u64_from_le_bytes(lx) == x0.len());
        assert(spec_u64_from_le_bytes(ly) == y0.len());
        let n = x0.len() as int;
        assert(all.subrange(8, 8 + n) =~= x0);
        assert(all.subrange(8, 8 + n) =~= y0);
        assert(all.skip(8 + n) =~= joined(x.drop_first()));
        assert(all.skip(8 + n) =~= joined(y.drop_first()));
        lemma_joined_injective(x.drop_first(), y.drop_first());
        assert(x =~= seq![x0] + x.drop_first());
        assert(y =~= seq![y0] + y.drop_first());
    }
}

/// Appends `src` to `out`.
fn append(out: &mut Vec<u8>, src: &Vec<u8>)
    ensures
        final(out)@ == old(out)@ + src@,
{
    let mut i: usize = 0;
    while i < src.len()
        invariant
            i <= src.len(),
            out@ == old(out)@ + src@.take(i as int),
        decreases src.len() - i,
    {
        out.push(src[i]);
        assert(src@.take(i + 1) =~= src@.take(i as int).push(src@[i as int]));
        i += 1;
    }
    assert(src@.take(i as int) =~= src@);
}

/// Writes the parts one after another, each behind its length.
pub fn join(parts: &Vec<Vec<u8>>) -> (r: Vec<u8>)
    ensures
        r@ == joined(byte_rows(parts@)),
{
    let ghost all = byte_rows(parts@);
    let mut out: Vec<u8> = Vec::new();
    let mut i: usize = 0;
    assert(all.skip(0) =~= all);
    while i < parts.len()
        invariant
            i <= parts.len(),
            all == byte_rows(parts@),
            joined(all) == out@ + joined(all.skip(i as int)),
        decreases parts.len() - i,
    {
        let part = &parts[i];
        let mut size = u64_to_le_bytes(part.len() as u64);
        let ghost before = out@;
        out.append(&mut size);
        append(&mut out, part);
        proof {
            assert(all.skip(i as int)[0] == part@);
            assert(all.skip(i as int).drop_first() =~= all.skip(i + 1));
            assert(out@ =~= before + framed(part@));
        }
        i += 1;
    }
    assert(joined(all.skip(i as int)) =~= Seq::<u8>::empty());
    out
}

/// What of an entry the fingerprint covers: everything but the owner, who is
/// the same for all the entries of one fingerprint.
pub struct Payload {
    pub id: Seq<char>,
    pub content: Seq<char>,
    pub display_name: Seq<char>,
    pub icon_url: Option<Seq<char>>,
    pub website_url: Option<Seq<char>>,
}

/// The covered part of `c`.
pub open spec fn payload(c: CodeView) -> Payload {
    Payload {
        id: c.id,
        content: c.content,
        display_name: c.display_name,
        icon_url: c.icon_url,
        website_url: c.website_url,
    }
}

/// An optional text as bytes: `0` for none, `1` and the text in UTF-8 for some.
pub open spec fn optional(o: Option<Seq<char>>) -> Seq<u8> {
    match o {
        None => seq![0u8],
        Some(s) => seq![1u8] + encode_utf8(s),
    }
}

/// The five fields of `p` as bytes, in their fixed order.
pub open spec fn fields(p: Payload) -> Seq<Seq<u8>> {
    seq![
        encode_utf8(p.id),
        encode_utf8(p.content),
        encode_utf8(p.display_name),
        optional(p.icon_url),
        optional(p.website_url),
    ]
}

/// `p` written out: its fields, each behind its length.
pub open spec fn record(p: Payload) -> Seq<u8> {
    joined(fields(p))
}

/// `p` is of a size that memory can hold: each field, and the whole written
/// entry, has a length that eight bytes can express.
pub open spec fn fits(p: Payload) -> bool {
    frameable(fields(p)) && record(p).len() <= u64::MAX
}

proof fn lemma_optional_injective(a: Option<Seq<char>>, b: Option<Seq<char>>)
    requires
        optional(a) == optional(b),
    ensures
        a == b,
{
    assert(optional(a)[0] == (if a is Some { 1u8 } else { 0u8 }));
    assert(optional(b)[0] == (if b is Some { 1u8 } else { 0u8 }));
    match (a, b) {
        (Some(x), Some(y)) => {
            assert(optional(a).skip(1) =~= encode_utf8(x));
            assert(optional(b).skip(1) =~= encode_utf8(y));
            vstd::utf8::encode_utf8_decode_utf8(x);
            vstd::utf8::encode_utf8_decode_utf8(y);
            assert(x == y);
        },
        _ => {},
    }
}

/// Two entries that are written the same way are the same entry.
pub proof fn lemma_record_injective(p: Payload, q: Payload)
    requires
        fits(p),
        fits(q),
        record(p) == record(q),
    ensures
        p == q,
{
    lemma_joined_injective(fields(p), fields(q));
    let (f, g) = (fields(p), fields(q));
    assert(f[0] == g[0] && f[1] == g[1] && f[2] == g[2] && f[3] == g[3] && f[4] == g[4]);
    vstd::utf8::encode_utf8_decode_utf8(p.id);
    vstd::utf8::encode_utf8_decode_utf8(q.id);
    vstd::utf8::encode_utf8_decode_utf8(p.content);
    vstd::utf8::encode_utf8_decode_utf8(q.content);
    vstd::utf8::encode_utf8_decode_utf8(p.display_name);
    vstd::utf8::encode_utf8_decode_utf8(q.display_name);
    lemma_optional_injective(p.icon_url, q.icon_url);
    lemma_optional_injective(p.website_url, q.website_url);
}

/// An optional text as bytes.
fn optional_bytes(o: &Option<String>) -> (r: Vec<u8>)
    ensures
        r@ == optional(text_view(*o)),
{
    let mut out: Vec<u8> = Vec::new();
    match o {
        None => {
            out.push(0u8);
        },
        Some(s) => {
            out.push(1u8);
            let bytes = s.as_str().as_bytes_vec();
            append(&mut out, &bytes);
        },
    }
    out
}

/// Writes out the covered part of `code`.
pub fn encode(code: &Code) -> (r: Vec<u8>)
    ensures
        r@ == record(payload(code@)),
{
    let mut parts: Vec<Vec<u8>> = Vec::new();
    parts.push(code.id.as_str().as_bytes_vec());
    parts.push(code.content.as_str().as_bytes_vec());
    parts.push(code.display_name.as_str().as_bytes_vec());
    parts.push(optional_bytes(&code.icon_url));
    parts.push(optional_bytes(&code.website_url));
    assert(byte_rows(parts@) =~= fields(payload(code@)));
    join(&parts)
}

/// The written entries of `codes`, in the order of `codes`.
pub open spec fn records(codes: Seq<CodeView>) -> Seq<Seq<u8>> {
    codes.map_values(|c: CodeView| record(payload(c)))
}

/// The bytes that are hashed: the written entries in lexicographic order,
/// each behind its length.
pub open spec fn canonical(codes: Seq<CodeView>) -> Seq<u8> {
    joined(records(codes).sort_by(lex_order()))
}

/// The SHA-256 digest of `data`.
pub uninterp spec fn sha256(data: Seq<u8>) -> Seq<u8>;

/// The fingerprint of `codes`, as a value.
pub open spec fn fingerprint_of(codes: Seq<CodeView>) -> Seq<u8> {
    sha256(canonical(codes))
}

/// Calls `Sha256::digest` of the crate `sha2`: the result is the SHA-256
/// digest of `data`, 32 bytes that depend on nothing but `data`.
#[verifier::external_body]
fn digest(data: &Vec<u8>) -> (r: [u8; 32])
    ensures
        r@ == sha256(data@),
{
    <sha2::Sha256 as sha2::Digest>::digest(data).into()
}

/// A drift fingerprint: 32 bytes.
#[derive(Clone, Copy, Debug, PartialEq, Eq)]
pub struct Fingerprint {
    pub digest: [u8; 32],
}

/// The sixteen hexadecimal digits, lower case.
pub open spec fn hex_digits() -> Seq<char> {
    seq!['0', '1', '2', '3', '4', '5', '6', '7', '8', '9', 'a', 'b', 'c', 'd', 'e', 'f']
}

/// `bytes` in hexadecimal: two lower-case digits for each byte, the high
/// half first.
pub open spec fn hex(bytes: Seq<u8>) -> Seq<char>
    decreases bytes.len(),
{
    if bytes.len() == 0 {
        Seq::empty()
    } else {
        hex(bytes.drop_last()).push(hex_digits()[bytes.last() as int / 16]).push(
            hex_digits()[bytes.last() as int % 16],
        )
    }
}

/// The hexadecimal digit for `n`.
fn digit(n: u8) -> (r: &'static str)
    requires
        n < 16,
    ensures
        r@ == seq![hex_digits()[n as int]],
{
    proof {
        reveal_strlit("0");
        reveal_strlit("1");
        reveal_strlit("2");
        reveal_strlit("3");
        reveal_strlit("4");
        reveal_strlit("5");
        reveal_strlit("6");
        reveal_strlit("7");
        reveal_strlit("8");
        reveal_strlit("9");
        reveal_strlit("a");
        reveal_strlit("b");
        reveal_strlit("c");
        reveal_strlit("d");
        reveal_strlit("e");
        reveal_strlit("f");
    }
    let r = match n {
        0 => "0",
        1 => "1",
        2 => "2",
        3 => "3",
        4 => "4",
        5 => "5",
        6 => "6",
        7 => "7",
        8 => "8",
        9 => "9",
        10 => "a",
        11 => "b",
        12 => "c",
        13 => "d",
        14 => "e",
        _ => "f",
    };
    assert(r@ =~= seq![hex_digits()[n as int]]);
    r
}

impl Fingerprint {
    /// The fingerprint as 64 hexadecimal digits, as it is sent to a client.
    pub fn to_hex(&self) -> (r: String)
        ensures
            r@ == hex(self.digest@),
    {
        let mut out = String::new();
        let mut i: usize = 0;
        assert(self.digest@.take(0) =~= Seq::<u8>::empty());
        while i < 32
            invariant
                i <= 32,
                self.digest@.len() == 32,
                out@ == hex(self.digest@.take(i as int)),
            decreases 32 - i,
        {
            let b = self.digest[i];
            proof {
                assert(self.digest@.take(i + 1).drop_last() =~= self.digest@.take(i as int));
                assert(self.digest@.take(i + 1).last() == b);
            }
            let ghost before = out@;
            out.append(digit(b / 16));
            out.append(digit(b % 16));
            assert(out@ =~= before.push(hex_digits()[b as int / 16]).push(
                hex_digits()[b as int % 16],
            ));
            i += 1;
        }
        assert(self.digest@.take(32) =~= self.digest@);
        out
    }
}

/// Puts `rec` into the sorted `sorted`, behind the entries that are not
/// greater than it.
fn insert_sorted(sorted: &mut Vec<Vec<u8>>, rec: Vec<u8>)
    requires
        sorted_by(byte_rows(old(sorted)@), lex_order()),
    ensures
        sorted_by(byte_rows(final(sorted)@), lex_order()),
        byte_rows(final(sorted)@).to_multiset() == byte_rows(old(sorted)@).to_multiset().insert(
            rec@,
        ),
{
    let ghost rows = byte_rows(sorted@);
    let ghost order = lex_order();
    let mut p: usize = 0;
    while p < sorted.len() && bytes_le(&sorted[p], &rec)
        invariant
            p <= sorted.len(),
            rows == byte_rows(sorted@),
            forall|k: int| 0 <= k < p ==> lex_le(#[trigger] rows[k], rec@),
        decreases sorted.len() - p,
    {
        p += 1;
    }
    proof {
        let after = rows.insert(p as int, rec@);
        assert forall|i: int, j: int| 0 <= i < j < after.len() implies #[trigger] order(
            after[i],
            after[j],
        ) by {
            if j == p {
                assert(after[i] == rows[i]);
            } else if i == p {
                assert(after[j] == rows[j - 1]);
                assert(rows[p as int] == sorted@[p as int]@);
                lemma_lex_connected(rows[p as int], rec@);
                if j - 1 != p {
                    assert(order(rows[p as int], rows[j - 1]));
                    lemma_lex_transitive(rec@, rows[p as int], rows[j - 1]);
                }
            } else {
                let (a, b) = (if i < p { i } else { i - 1 }, if j < p { j } else { j - 1 });
                assert(after[i] == rows[a] && after[j] == rows[b]);
                assert(order(rows[a], rows[b]));
            }
        }
        vstd::seq_lib::to_multiset_insert(rows, p as int, rec@);
    }
    sorted.insert(p, rec);
    assert(byte_rows(sorted@) =~= rows.insert(p as int, rec@));
}

/// The fingerprint of `codes`: the SHA-256 digest of their canonical bytes.
///
/// It does not depend on the order of `codes`, and two lists with different
/// entries have different canonical bytes.
pub fn fingerprint(codes: &Vec<Code>) -> (r: Fingerprint)
    ensures
        r.digest@ == fingerprint_of(views(codes@)),
{
    let ghost all = views(codes@);
    let ghost order = lex_order();
    let mut sorted: Vec<Vec<u8>> = Vec::new();
    let mut i: usize = 0;
    assert(records(all.take(0)) =~= byte_rows(sorted@));
    while i < codes.len()
        invariant
            i <= codes.len(),
            all == views(codes@),
            order == lex_order(),
            sorted_by(byte_rows(sorted@), order),
            byte_rows(sorted@).to_multiset() == records(all.take(i as int)).to_multiset(),
        decreases codes.len() - i,
    {
        let rec = encode(&codes[i]);
        proof {
            assert(records(all.take(i + 1)) =~= records(all.take(i as int)).push(rec@));
            vstd::seq_lib::to_multiset_build(records(all.take(i as int)), rec@);
        }
        insert_sorted(&mut sorted, rec);
        i += 1;
    }
    proof {
        assert(all.take(i as int) =~= all);
        lemma_lex_total();
        records(all).lemma_sort_by_ensures(order);
        lemma_sorted_unique(byte_rows(sorted@), records(all).sort_by(order), order);
    }
    let bytes = join(&sorted);
    Fingerprint { digest: digest(&bytes) }
}

/// The fingerprint of all the entries that `owner_id` owns.
pub fn checksum(store: &CodeStore, owner_id: String) -> (r: Fingerprint)
    ensures
        r.digest@ == fingerprint_of(owned(store@, owner_id@)),
{
    let codes = Code::get_many(store, owner_id);
    fingerprint(&codes)
}

/// The covered parts of `codes`, in the order of `codes`.
pub open spec fn payloads(codes: Seq<CodeView>) -> Seq<Payload> {
    codes.map_values(|c: CodeView| payload(c))
}

/// Every entry of `codes` is of a size that memory can hold.
pub open spec fn all_fit(codes: Seq<CodeView>) -> bool {
    forall|i: int| 0 <= i < codes.len() ==> fits(payload(#[trigger] codes[i]))
}

/// Sequences with the same elements still have the same elements after a
/// function was applied to each.
proof fn lemma_map_keeps_elements<A, B>(x: Seq<A>, y: Seq<A>, f: spec_fn(A) -> B)
    requires
        x.to_multiset() == y.to_multiset(),
    ensures
        x.map_values(f).to_multiset() == y.map_values(f).to_multiset(),
    decreases x.len(),
{
    broadcast use vstd::multiset::group_multiset_axioms;
    broadcast use vstd::seq_lib::group_to_multiset_ensures;

    if x.len() == 0 {
        assert(x.to_multiset().len() == 0);
        assert(y.to_multiset().len() == y.len());
        assert(x.map_values(f) =~= y.map_values(f));
    } else {
        let a = x.last();
        let x1 = x.drop_last();
        assert(x =~= x1.push(a));
        assert(x.to_multiset().count(a) > 0);
        assert(y.contains(a));
        let j = choose|j: int| 0 <= j < y.len() && y[j] == a;
        let y1 = y.remove(j);
        assert(x1.to_multiset() =~= x.to_multiset().remove(a));
        lemma_map_keeps_elements(x1, y1, f);
        assert(x.map_values(f) =~= x1.map_values(f).push(f(a)));
        assert(y.map_values(f).remove(j) =~= y1.map_values(f));
        assert(y.map_values(f)[j] == f(a));
        assert(y.map_values(f).contains(f(a)));
        assert(y.map_values(f).to_multiset() =~= y1.map_values(f).to_multiset().insert(f(a)));
    }
}

/// Sequences have the same elements where they have them after a function
/// was applied to each that sends different elements to different values.
proof fn lemma_map_reflects_elements<A, B>(x: Seq<A>, y: Seq<A>, f: spec_fn(A) -> B)
    requires
        x.map_values(f).to_multiset() == y.map_values(f).to_multiset(),
        forall|i: int, j: int|
            0 <= i < x.len() && 0 <= j < y.len() && f(#[trigger] x[i]) == f(#[trigger] y[j])
                ==> x[i] == y[j],
    ensures
        x.to_multiset() == y.to_multiset(),
    decreases x.len(),
{
    broadcast use vstd::multiset::group_multiset_axioms;
    broadcast use vstd::seq_lib::group_to_multiset_ensures;

    let (fx, fy) = (x.map_values(f), y.map_values(f));
    if x.len() == 0 {
        assert(fx.to_multiset().len() == 0);
        assert(fy.to_multiset().len() == fy.len());
        assert(x =~= y);
    } else {
        let a = x.last();
        let x1 = x.drop_last();
        assert(x =~= x1.push(a));
        assert(fx =~= x1.map_values(f).push(f(a)));
        assert(fx.to_multiset().count(f(a)) > 0);
        assert(fy.contains(f(a)));
        let j = choose|j: int| 0 <= j < fy.len() && fy[j] == f(a);
        assert(f(y[j]) == f(x[x.len() - 1]));
        assert(y[j] == a);
        let y1 = y.remove(j);
        assert(fy.remove(j) =~= y1.map_values(f));
        assert(x1.map_values(f).to_multiset() =~= fx.to_multiset().remove(f(a)));
        assert forall|i: int, k: int|
            0 <= i < x1.len() && 0 <= k < y1.len() && f(#[trigger] x1[i]) == f(
                #[trigger] y1[k],
            ) implies x1[i] == y1[k] by {
            assert(x1[i] == x[i]);
            assert(y1[k] == y[if k < j { k } else { k + 1 }]);
        }
        lemma_map_reflects_elements(x1, y1, f);
        assert(y.contains(a));
        assert(y.to_multiset() =~= y1.to_multiset().insert(a));
    }
}

/// The fingerprint does not depend on the order in which the entries come:
/// two lists that hold the same entries, each as often as the other, have
/// the same canonical bytes and so the same fingerprint.
pub proof fn lemma_fingerprint_ignores_order(a: Seq<CodeView>, b: Seq<CodeView>)
    requires
        payloads(a).to_multiset() == payloads(b).to_multiset(),
    ensures
        canonical(a) == canonical(b),
        fingerprint_of(a) == fingerprint_of(b),
{
    let write = |p: Payload| record(p);
    lemma_map_keeps_elements(payloads(a), payloads(b), write);
    assert(payloads(a).map_values(write) =~= records(a));
    assert(payloads(b).map_values(write) =~= records(b));
    lemma_lex_total();
    records(a).lemma_sort_by_ensures(lex_order());
    records(b).lemma_sort_by_ensures(lex_order());
    lemma_sorted_unique(
        records(a).sort_by(lex_order()),
        records(b).sort_by(lex_order()),
        lex_order(),
    );
}

/// The canonical bytes tell any two lists apart that differ in an entry:
/// lists with the same canonical bytes hold the same entries, each as often
/// as the other.
pub proof fn lemma_canonical_tells_apart(a: Seq<CodeView>, b: Seq<CodeView>)
    requires
        all_fit(a),
        all_fit(b),
        canonical(a) == canonical(b),
    ensures
        payloads(a).to_multiset() == payloads(b).to_multiset(),
{
    broadcast use vstd::seq_lib::group_to_multiset_ensures;

    let (sa, sb) = (records(a).sort_by(lex_order()), records(b).sort_by(lex_order()));
    lemma_lex_total();
    records(a).lemma_sort_by_ensures(lex_order());
    records(b).lemma_sort_by_ensures(lex_order());
    assert(frameable(sa)) by {
        assert forall|i: int| 0 <= i < sa.len() implies (#[trigger] sa[i]).len() <= u64::MAX by {
            assert(sa.contains(sa[i]));
            assert(records(a).contains(sa[i]));
            let k = choose|k: int| 0 <= k < records(a).len() && records(a)[k] == sa[i];
            assert(fits(payload(a[k])));
        }
    }
    assert(frameable(sb)) by {
        assert forall|i: int| 0 <= i < sb.len() implies (#[trigger] sb[i]).len() <= u64::MAX by {
            assert(sb.contains(sb[i]));
            assert(records(b).contains(sb[i]));
            let k = choose|k: int| 0 <= k < records(b).len() && records(b)[k] == sb[i];
            assert(fits(payload(b[k])));
        }
    }
    lemma_joined_injective(sa, sb);
    let write = |p: Payload| record(p);
    assert(payloads(a).map_values(write) =~= records(a));
    assert(payloads(b).map_values(write) =~= records(b));
    assert forall|i: int, j: int|
        0 <= i < payloads(a).len() && 0 <= j < payloads(b).len() && write(
            #[trigger] payloads(a)[i],
        ) == write(#[trigger] payloads(b)[j]) implies payloads(a)[i] == payloads(b)[j] by {
        assert(fits(payload(a[i])) && fits(payload(b[j])));
        lemma_record_injective(payloads(a)[i], payloads(b)[j]);
    }
    lemma_map_reflects_elements(payloads(a), payloads(b), write);
}

/// The fingerprint changes exactly when the entries change, as far as
/// SHA-256 allows: the fingerprints of two lists are equal if and only if
/// the lists hold the same entries, each as often as the other, or their
/// different canonical bytes have the same digest.
pub proof fn lemma_fingerprint_changes_with_entries(a: Seq<CodeView>, b: Seq<CodeView>)
    requires
        all_fit(a),
        all_fit(b),
    ensures
        fingerprint_of(a) == fingerprint_of(b) <==> payloads(a).to_multiset() == payloads(
            b,
        ).to_multiset() || (canonical(a) != canonical(b) && sha256(canonical(a)) == sha256(
            canonical(b),
        )),
{
    if payloads(a).to_multiset() == payloads(b).to_multiset() {
        lemma_fingerprint_ignores_order(a, b);
    }
    if canonical(a) == canonical(b) {
        lemma_canonical_tells_apart(a, b);
    }
}

} // verus!
