//! The draw: a digest over the whole contact snapshot, folded onto an index.
use crate::contact::{contacts_of, Contact, TouchPoint};
use std::collections::hash_map::DefaultHasher;
use std::hash::Hasher;
use vstd::arithmetic::div_mod::lemma_breakdown;
use vstd::prelude::*;
use vstd::std_specs::hash::DefaultHasherAdditionalSpecFns;
use vstd::utf8::{encode_utf8, encode_utf8_decode_utf8};

verus! {

/// The `width` low base-256 digits of `value`, least significant first.
pub open spec fn le_bytes(value: nat, width: nat) -> Seq<u8>
    decreases width,
{
    if width == 0 {
        Seq::empty()
    } else {
        seq![(value % 256) as u8] + le_bytes(value / 256, (width - 1) as nat)
    }
}

/// A coordinate or id as four bytes: its distance from the least `i32`,
/// least significant byte first.
pub open spec fn word(n: int) -> Seq<u8> {
    le_bytes((n + 0x8000_0000) as nat, 4)
}

/// Every field of one contact as bytes: id, x, y, then the tag in UTF-8
/// behind its length in bytes.
pub open spec fn contact_bytes(c: Contact) -> Seq<u8> {
    word(c.id) + word(c.x) + word(c.y) + le_bytes(encode_utf8(c.tag).len(), 8) + encode_utf8(c.tag)
}

/// What the digest is taken over: the bytes of every contact, in order.
pub open spec fn digest_input(s: Seq<Contact>) -> Seq<u8>
    decreases s.len(),
{
    if s.len() == 0 {
        Seq::empty()
    } else {
        digest_input(s.drop_last()) + contact_bytes(s.last())
    }
}

/// The 64-bit digest of a snapshot.
pub open spec fn digest_of(s: Seq<Contact>) -> u64 {
    DefaultHasher::spec_finish(seq![digest_input(s)])
}

/// The index that the draw gives for a snapshot: its digest modulo its size.
pub open spec fn pick_index(s: Seq<Contact>) -> int {
    digest_of(s) as int % s.len() as int
}

/// Whether a contact can be read back from its bytes: id and position are
/// `i32` values and the tag has fewer than 2^64 bytes. Every [`TouchPoint`]
/// that fits in memory is such a contact.
pub open spec fn encodable(c: Contact) -> bool {
    &&& i32::MIN <= c.id <= i32::MAX
    &&& i32::MIN <= c.x <= i32::MAX
    &&& i32::MIN <= c.y <= i32::MAX
    &&& encode_utf8(c.tag).len() <= u64::MAX
}

/// There are as many digits as were asked for.
pub proof fn lemma_le_bytes_len(value: nat, width: nat)
    ensures
        le_bytes(value, width).len() == width,
    decreases width,
{
    if width > 0 {
        lemma_le_bytes_len(value / 256, (width - 1) as nat);
    }
}

/// The first number that `width` base-256 digits cannot hold.
pub open spec fn radix(width: nat) -> nat
    decreases width,
{
    if width == 0 {
        1
    } else {
        256 * radix((width - 1) as nat)
    }
}

/// Numbers with the same `width` low digits agree modulo `radix(width)`.
pub proof fn lemma_le_bytes_agree(a: nat, b: nat, width: nat)
    requires
        le_bytes(a, width) == le_bytes(b, width),
    ensures
        radix(width) > 0,
        a % radix(width) == b % radix(width),
    decreases width,
{
    if width > 0 {
        let less = (width - 1) as nat;
        let low_a = seq![(a % 256) as u8];
        let low_b = seq![(b % 256) as u8];
        let high_a = le_bytes(a / 256, less);
        let high_b = le_bytes(b / 256, less);
        assert((low_a + high_a)[0] == (low_b + high_b)[0]);
        assert(high_a =~= (low_a + high_a).subrange(1, 1 + high_a.len() as int));
        assert(high_b =~= (low_b + high_b).subrange(1, 1 + high_b.len() as int));
        lemma_le_bytes_len(a / 256, less);
        lemma_le_bytes_len(b / 256, less);
        lemma_le_bytes_agree(a / 256, b / 256, less);
        lemma_breakdown(a as int, 256, radix(less) as int);
        lemma_breakdown(b as int, 256, radix(less) as int);
    }
}

/// An id or coordinate can be read back from its four bytes.
pub proof fn lemma_word_injective(a: int, b: int)
    requires
        i32::MIN <= a <= i32::MAX,
        i32::MIN <= b <= i32::MAX,
        word(a) == word(b),
    ensures
        a == b,
{
    assert(radix(4) == 0x1_0000_0000) by {
        reveal_with_fuel(radix, 5);
    }
    lemma_le_bytes_agree((a + 0x8000_0000) as nat, (b + 0x8000_0000) as nat, 4);
}

/// A length below 2^64 can be read back from its eight bytes.
pub proof fn lemma_length_injective(a: nat, b: nat)
    requires
        a <= u64::MAX,
        b <= u64::MAX,
        le_bytes(a, 8) == le_bytes(b, 8),
    ensures
        a == b,
{
    assert(radix(8) == 0x1_0000_0000_0000_0000) by {
        reveal_with_fuel(radix, 9);
    }
    lemma_le_bytes_agree(a, b, 8);
}

/// A contact, and what follows it, can be read back from bytes that begin
/// with the bytes of the contact.
pub proof fn lemma_contact_bytes_prefix(c1: Contact, rest1: Seq<u8>, c2: Contact, rest2: Seq<u8>)
    requires
        encodable(c1),
        encodable(c2),
        contact_bytes(c1) + rest1 == contact_bytes(c2) + rest2,
    ensures
        c1 == c2,
        rest1 == rest2,
{
    let all = contact_bytes(c1) + rest1;
    let tag1 = encode_utf8(c1.tag);
    let tag2 = encode_utf8(c2.tag);
    lemma_le_bytes_len((c1.id + 0x8000_0000) as nat, 4);
    lemma_le_bytes_len((c1.x + 0x8000_0000) as nat, 4);
    lemma_le_bytes_len((c1.y + 0x8000_0000) as nat, 4);
    lemma_le_bytes_len(tag1.len(), 8);
    lemma_le_bytes_len((c2.id + 0x8000_0000) as nat, 4);
    lemma_le_bytes_len((c2.x + 0x8000_0000) as nat, 4);
    lemma_le_bytes_len((c2.y + 0x8000_0000) as nat, 4);
    lemma_le_bytes_len(tag2.len(), 8);
    assert(word(c1.id) =~= all.subrange(0, 4));
    assert(word(c2.id) =~= all.subrange(0, 4));
    lemma_word_injective(c1.id, c2.id);
    assert(word(c1.x) =~= all.subrange(4, 8));
    assert(word(c2.x) =~= all.subrange(4, 8));
    lemma_word_injective(c1.x, c2.x);
    assert(word(c1.y) =~= all.subrange(8, 12));
    assert(word(c2.y) =~= all.subrange(8, 12));
    lemma_word_injective(c1.y, c2.y);
    assert(le_bytes(tag1.len(), 8) =~= all.subrange(12, 20));
    assert(le_bytes(tag2.len(), 8) =~= all.subrange(12, 20));
    lemma_length_injective(tag1.len(), tag2.len());
    assert(tag1 =~= all.subrange(20, 20 + tag1.len() as int));
    assert(tag2 =~= all.subrange(20, 20 + tag2.len() as int));
    encode_utf8_decode_utf8(c1.tag);
    encode_utf8_decode_utf8(c2.tag);
    assert(rest1 =~= all.subrange(20 + tag1.len() as int, all.len() as int));
    assert(rest2 =~= all.subrange(20 + tag2.len() as int, all.len() as int));
}

/// The bytes of a snapshot begin with the bytes of its first contact.
pub proof fn lemma_digest_input_front(s: Seq<Contact>)
    requires
        s.len() > 0,
    ensures
        digest_input(s) == contact_bytes(s[0]) + digest_input(s.drop_first()),
    decreases s.len(),
{
    if s.len() == 1 {
        assert(s.drop_last() =~= Seq::<Contact>::empty());
        assert(s.drop_first() =~= Seq::<Contact>::empty());
    } else {
        lemma_digest_input_front(s.drop_last());
        assert(s.drop_last().drop_first() =~= s.drop_first().drop_last());
    }
}

/// The digest is taken over the whole snapshot: snapshots with the same
/// bytes are the same snapshot, contact by contact and field by field.
pub proof fn lemma_digest_input_injective(a: Seq<Contact>, b: Seq<Contact>)
    requires
        forall|i: int| 0 <= i < a.len() ==> encodable(#[trigger] a[i]),
        forall|i: int| 0 <= i < b.len() ==> encodable(#[trigger] b[i]),
        digest_input(a) == digest_input(b),
    ensures
        a == b,
    decreases a.len(),
{
    if a.len() > 0 {
        lemma_digest_input_front(a);
        lemma_le_bytes_len((a[0].id + 0x8000_0000) as nat, 4);
    }
    if b.len() > 0 {
        lemma_digest_input_front(b);
        lemma_le_bytes_len((b[0].id + 0x8000_0000) as nat, 4);
    }
    if a.len() > 0 && b.len() > 0 {
        lemma_contact_bytes_prefix(
            a[0],
            digest_input(a.drop_first()),
            b[0],
            digest_input(b.drop_first()),
        );
        lemma_digest_input_injective(a.drop_first(), b.drop_first());
        assert(b =~= seq![b[0]] + b.drop_first());
    } else {
    }
}

/// Appends the `width` low base-256 digits of `value` to `buf`.
fn push_le_bytes(buf: &mut Vec<u8>, value: u64, width: usize)
    ensures
        final(buf)@ == old(buf)@ + le_bytes(value as nat, width as nat),
{
    let mut rest: u64 = value;
    let mut done: usize = 0;
    while done < width
        invariant
            done <= width,
            buf@ + le_bytes(rest as nat, (width - done) as nat) == old(buf)@ + le_bytes(
                value as nat,
                width as nat,
            ),
        decreases width - done,
    {
        buf.push((rest % 256) as u8);
        rest = rest / 256;
        done += 1;
    }
}

/// Appends an id or coordinate as four bytes.
fn push_word(buf: &mut Vec<u8>, n: i32)
    ensures
        final(buf)@ == old(buf)@ + word(n as int),
{
    let biased: i64 = n as i64 + 0x8000_0000;
    push_le_bytes(buf, biased as u64, 4);
}

/// Appends every field of one contact.
fn push_contact(buf: &mut Vec<u8>, point: &TouchPoint)
    ensures
        final(buf)@ == old(buf)@ + contact_bytes(point@),
{
    push_word(buf, point.id);
    push_word(buf, point.x);
    push_word(buf, point.y);
    let tag = point.color.as_str().as_bytes();
    push_le_bytes(buf, tag.len() as u64, 8);
    let ghost before = buf@;
    let mut i: usize = 0;
    while i < tag.len()
        invariant
            i <= tag.len(),
            buf@ == before + tag@.subrange(0, i as int),
        decreases tag.len() - i,
    {
        buf.push(tag[i]);
        i += 1;
    }
}

/// The bytes that the digest of a snapshot is taken over.
pub fn digest_bytes(points: &Vec<TouchPoint>) -> (bytes: Vec<u8>)
    ensures
        bytes@ == digest_input(contacts_of(points@)),
{
    let ghost s = contacts_of(points@);
    let mut buf: Vec<u8> = Vec::new();
    let mut i: usize = 0;
    while i < points.len()
        invariant
            i <= points.len(),
            s == contacts_of(points@),
            buf@ == digest_input(s.take(i as int)),
        decreases points.len() - i,
    {
        push_contact(&mut buf, &points[i]);
        assert(s.take(i + 1).drop_last() =~= s.take(i as int));
        i += 1;
    }
    assert(s.take(points.len() as int) =~= s);
    buf
}

/// The 64-bit digest of a snapshot. Equal snapshots have equal digests.
pub fn digest(points: &Vec<TouchPoint>) -> (d: u64)
    ensures
        d == digest_of(contacts_of(points@)),
{
    let bytes = digest_bytes(points);
    let mut hasher = DefaultHasher::new();
    hasher.write(bytes.as_slice());
    hasher.finish()
}

/// Folds a digest onto an index below `count`.
pub fn fold_digest(digest: u64, count: usize) -> (index: usize)
    requires
        count > 0,
    ensures
        index == digest as int % count as int,
        index < count,
{
    (digest % (count as u64)) as usize
}

/// Picks the index of the winner among `points`.
///
/// The result depends on nothing but the snapshot: the same contacts in the
/// same order give the same index. The snapshot must not be empty.
pub fn pick(points: &Vec<TouchPoint>) -> (index: usize)
    requires
        points.len() > 0,
    ensures
        index == pick_index(contacts_of(points@)),
        index < points.len(),
{
    fold_digest(digest(points), points.len())
}

} // verus!
