//! Fixed-width integers as byte sequences, in network and in host order.

use vstd::prelude::*;

verus! {

/// The low `len` bytes of `value`, most significant byte first.
pub open spec fn be_bytes(value: nat, len: nat) -> Seq<u8>
    decreases len,
{
    if len == 0 {
        Seq::empty()
    } else {
        be_bytes(value / 256, (len - 1) as nat).push((value % 256) as u8)
    }
}

/// The number that `bytes` spells with its most significant byte first.
pub open spec fn be_value(bytes: Seq<u8>) -> nat
    decreases bytes.len(),
{
    if bytes.len() == 0 {
        0
    } else {
        be_value(bytes.drop_last()) * 256 + bytes.last() as nat
    }
}

/// The number that `bytes` spells with its least significant byte first.
pub open spec fn le_value(bytes: Seq<u8>) -> nat
    decreases bytes.len(),
{
    if bytes.len() == 0 {
        0
    } else {
        bytes.first() as nat + le_value(bytes.drop_first()) * 256
    }
}

/// `base` with the bytes from `at` on replaced by `patch`.
pub open spec fn overwrite(base: Seq<u8>, at: int, patch: Seq<u8>) -> Seq<u8> {
    base.take(at) + patch + base.skip(at + patch.len())
}

/// `len` zero bytes.
pub open spec fn zeros(len: nat) -> Seq<u8> {
    Seq::new(len, |i: int| 0u8)
}

/// The order in which a host lays out the bytes of an integer.
#[derive(Debug, Clone, Copy, PartialEq, Eq, Structural)]
pub enum ByteOrder {
    Little,
    Big,
}

/// The order of the machine this runs on. Which of the two it is, is left open.
pub open spec fn native_order() -> ByteOrder {
    match vstd::endian::endianness() {
        vstd::endian::Endian::Little => ByteOrder::Little,
        vstd::endian::Endian::Big => ByteOrder::Big,
    }
}

impl ByteOrder {
    /// The number that `bytes` spells in this order.
    pub open spec fn value(self, bytes: Seq<u8>) -> nat {
        match self {
            ByteOrder::Little => le_value(bytes),
            ByteOrder::Big => be_value(bytes),
        }
    }

    /// The `len` bytes that spell `value` in this order.
    pub open spec fn bytes(self, value: nat, len: nat) -> Seq<u8> {
        match self {
            ByteOrder::Little => be_bytes(value, len).reverse(),
            ByteOrder::Big => be_bytes(value, len),
        }
    }

    /// The order of the machine this runs on.
    pub fn native() -> (order: ByteOrder)
        ensures
            order == native_order(),
    {
        let probe: u16 = u16_from_native([1, 0]);
        proof {
            reveal_with_fuel(be_value, 3);
            reveal_with_fuel(le_value, 3);
            let bytes = seq![1u8, 0u8];
            assert([1u8, 0u8]@ == bytes);
            assert(bytes.drop_last() == seq![1u8] && bytes.drop_first() == seq![0u8]);
        }
        ByteOrder::from_probe(probe)
    }

    /// The order of a machine on which the bytes 1 and 0 spell `probe`: there is
    /// one order in which they spell 1, and one in which they spell 256.
    pub fn from_probe(probe: u16) -> (order: ByteOrder)
        ensures
            order == (if probe == 1 {
                ByteOrder::Little
            } else {
                ByteOrder::Big
            }),
            probe == 1 || probe == 256 ==> order.value(seq![1u8, 0u8]) == probe,
    {
        proof {
            reveal_with_fuel(be_value, 3);
            reveal_with_fuel(le_value, 3);
            let bytes = seq![1u8, 0u8];
            assert(bytes.drop_last() == seq![1u8] && bytes.drop_first() == seq![0u8]);
        }
        if probe == 1 {
            ByteOrder::Little
        } else {
            ByteOrder::Big
        }
    }
}

/// `u16::from_ne_bytes`: the integer whose memory on this machine holds
/// `bytes`, which is the number they spell in the order of the machine.
#[verifier::external_body]
fn u16_from_native(bytes: [u8; 2]) -> (value: u16)
    ensures
        value as nat == native_order().value(bytes@),
{
    u16::from_ne_bytes(bytes)
}

/// Writes the low `len` bytes of `value` at `offset`, most significant byte
/// first, and moves `offset` past them.
pub fn put_be(buf: &mut [u8], offset: &mut usize, value: u64, len: usize)
    requires
        *old(offset) + len <= old(buf)@.len(),
    ensures
        *final(offset) == *old(offset) + len,
        final(buf)@ == overwrite(
            old(buf)@,
            *old(offset) as int,
            be_bytes(value as nat, len as nat),
        ),
{
    let start: usize = *offset;
    let mut rest: u64 = value;
    let mut at: usize = len;
    let ghost before = buf@;
    let ghost spelled = be_bytes(value as nat, len as nat);
    let ghost mut tail: Seq<u8> = Seq::empty();
    assert(start + len <= buf.len());
    proof {
        lemma_be_bytes_len(value as nat, len as nat);
        assert(before == before.take(start + len) + tail + before.skip(start + len));
        assert(spelled == spelled + tail);
    }
    while at > 0
        invariant
            at <= len,
            start + len <= before.len(),
            start + len <= usize::MAX,
            tail.len() == len - at,
            spelled == be_bytes(rest as nat, at as nat) + tail,
            buf@ == before.take(start + at) + tail + before.skip(start + len),
        decreases at,
    {
        at = at - 1;
        let low: u8 = (rest % 256) as u8;
        buf[start + at] = low;
        proof {
            let shorter = be_bytes(rest as nat / 256, at as nat);
            assert(shorter.push(low) + tail == shorter + (seq![low] + tail));
            tail = seq![low] + tail;
            assert(buf@ == before.take(start + at) + tail + before.skip(start + len));
        }
        rest = rest / 256;
    }
    proof {
        assert(spelled == tail);
    }
    *offset = start + len;
}

/// Writes a 16-bit integer in network order.
pub fn put_u16(buf: &mut [u8], offset: &mut usize, value: u16)
    requires
        *old(offset) + 2 <= old(buf)@.len(),
    ensures
        *final(offset) == *old(offset) + 2,
        final(buf)@ == overwrite(old(buf)@, *old(offset) as int, be_bytes(value as nat, 2)),
{
    put_be(buf, offset, value as u64, 2)
}

/// Writes a 32-bit integer in network order.
pub fn put_u32(buf: &mut [u8], offset: &mut usize, value: u32)
    requires
        *old(offset) + 4 <= old(buf)@.len(),
    ensures
        *final(offset) == *old(offset) + 4,
        final(buf)@ == overwrite(old(buf)@, *old(offset) as int, be_bytes(value as nat, 4)),
{
    put_be(buf, offset, value as u64, 4)
}

/// Writes a 64-bit integer in network order.
pub fn put_u64(buf: &mut [u8], offset: &mut usize, value: u64)
    requires
        *old(offset) + 8 <= old(buf)@.len(),
    ensures
        *final(offset) == *old(offset) + 8,
        final(buf)@ == overwrite(old(buf)@, *old(offset) as int, be_bytes(value as nat, 8)),
{
    put_be(buf, offset, value, 8)
}

/// Reads a number whose most significant byte comes first.
pub fn get_be(data: &[u8]) -> (value: u64)
    requires
        data@.len() <= 8,
    ensures
        value as nat == be_value(data@),
{
    let mut value: u64 = 0;
    let mut i: usize = 0;
    while i < data.len()
        invariant
            i <= data@.len() <= 8,
            value as nat == be_value(data@.take(i as int)),
        decreases data@.len() - i,
    {
        proof {
            assert(data@.take(i + 1).drop_last() == data@.take(i as int));
            lemma_be_value_bound(data@.take(i + 1));
            lemma_pow_256((i + 1) as nat);
        }
        value = value * 256 + data[i] as u64;
        i = i + 1;
    }
    assert(data@.take(i as int) == data@);
    value
}

/// Reads a number whose least significant byte comes first.
pub fn get_le(data: &[u8]) -> (value: u64)
    requires
        data@.len() <= 8,
    ensures
        value as nat == le_value(data@),
{
    let mut value: u64 = 0;
    let mut i: usize = data.len();
    while i > 0
        invariant
            i <= data@.len() <= 8,
            value as nat == le_value(data@.skip(i as int)),
        decreases i,
    {
        i = i - 1;
        proof {
            assert(data@.skip(i as int).drop_first() == data@.skip(i + 1));
            lemma_le_value_bound(data@.skip(i as int));
            lemma_pow_256((data@.len() - i) as nat);
        }
        value = value * 256 + data[i] as u64;
    }
    assert(data@.skip(i as int) == data@);
    value
}

impl ByteOrder {
    /// Reads a number in this order.
    pub fn get(self, data: &[u8]) -> (value: u64)
        requires
            data@.len() <= 8,
        ensures
            value as nat == self.value(data@),
    {
        match self {
            ByteOrder::Little => get_le(data),
            ByteOrder::Big => get_be(data),
        }
    }

    /// A number takes no more than its bytes can spell.
    pub proof fn lemma_value_bound(self, bytes: Seq<u8>)
        ensures
            self.value(bytes) < vstd::arithmetic::power::pow(256, bytes.len()),
    {
        lemma_be_value_bound(bytes);
        lemma_le_value_bound(bytes);
    }

    /// What is spelled in an order reads back in that order.
    pub proof fn lemma_value_of_bytes(self, value: nat, len: nat)
        requires
            value < vstd::arithmetic::power::pow(256, len),
        ensures
            self.bytes(value, len).len() == len,
            self.value(self.bytes(value, len)) == value,
    {
        lemma_be_bytes_len(value, len);
        lemma_be_value_of_be_bytes(value, len);
        lemma_le_value_of_reverse(be_bytes(value, len));
    }
}

/// Two writes in a row are one write of both.
pub proof fn lemma_overwrite_append(base: Seq<u8>, at: int, first: Seq<u8>, second: Seq<u8>)
    requires
        0 <= at,
        at + first.len() + second.len() <= base.len(),
    ensures
        overwrite(overwrite(base, at, first), at + first.len(), second) == overwrite(
            base,
            at,
            first + second,
        ),
{
}

pub proof fn lemma_be_bytes_len(value: nat, len: nat)
    ensures
        be_bytes(value, len).len() == len,
    decreases len,
{
    if len > 0 {
        lemma_be_bytes_len(value / 256, (len - 1) as nat);
    }
}

/// Reading back what was written gives the value, as long as it fits in the
/// bytes it was written to.
pub proof fn lemma_be_value_of_be_bytes(value: nat, len: nat)
    requires
        value < vstd::arithmetic::power::pow(256, len),
    ensures
        be_value(be_bytes(value, len)) == value,
    decreases len,
{
    reveal(vstd::arithmetic::power::pow);
    if len > 0 {
        let shorter = be_bytes(value / 256, (len - 1) as nat);
        assert(value / 256 < vstd::arithmetic::power::pow(256, (len - 1) as nat)) by (nonlinear_arith)
            requires
                value < 256 * vstd::arithmetic::power::pow(256, (len - 1) as nat),
        ;
        lemma_be_value_of_be_bytes(value / 256, (len - 1) as nat);
        assert(be_bytes(value, len).drop_last() == shorter);
    }
}

pub proof fn lemma_be_value_bound(bytes: Seq<u8>)
    ensures
        be_value(bytes) < vstd::arithmetic::power::pow(256, bytes.len()),
    decreases bytes.len(),
{
    reveal(vstd::arithmetic::power::pow);
    if bytes.len() > 0 {
        lemma_be_value_bound(bytes.drop_last());
    }
}

pub proof fn lemma_le_value_bound(bytes: Seq<u8>)
    ensures
        le_value(bytes) < vstd::arithmetic::power::pow(256, bytes.len()),
    decreases bytes.len(),
{
    reveal(vstd::arithmetic::power::pow);
    if bytes.len() > 0 {
        lemma_le_value_bound(bytes.drop_first());
    }
}

/// The powers of 256 that machine integers reach.
pub proof fn lemma_pow_256(len: nat)
    requires
        len <= 8,
    ensures
        vstd::arithmetic::power::pow(256, len) <= 0x1_0000_0000_0000_0000,
        vstd::arithmetic::power::pow(256, 2) == 0x1_0000,
        vstd::arithmetic::power::pow(256, 4) == 0x1_0000_0000,
        vstd::arithmetic::power::pow(256, 8) == 0x1_0000_0000_0000_0000,
{
    reveal_with_fuel(vstd::arithmetic::power::pow, 9);
}

/// Read from the other end, a number spelled backwards is the same number.
proof fn lemma_le_value_of_reverse(bytes: Seq<u8>)
    ensures
        le_value(bytes.reverse()) == be_value(bytes),
    decreases bytes.len(),
{
    if bytes.len() > 0 {
        lemma_le_value_of_reverse(bytes.drop_last());
        assert(bytes.reverse().drop_first() == bytes.drop_last().reverse());
    }
}

/// Each byte of a number in network order is its digit to the base 256, the most
/// significant first.
pub proof fn law_digits_to_the_base_256(value: nat, len: nat, i: int)
    requires
        0 <= i < len,
    ensures
        be_bytes(value, len).len() == len,
        be_bytes(value, len)[i] as int == (value as int / vstd::arithmetic::power::pow(
            256,
            (len - 1 - i) as nat,
        )) % 256,
    decreases len,
{
    lemma_be_bytes_len(value, len);
    reveal(vstd::arithmetic::power::pow);
    if i < len - 1 {
        lemma_be_bytes_len(value / 256, (len - 1) as nat);
        law_digits_to_the_base_256(value / 256, (len - 1) as nat, i);
        let place = vstd::arithmetic::power::pow(256, (len - 2 - i) as nat);
        vstd::arithmetic::power::lemma_pow_positive(256, (len - 2 - i) as nat);
        vstd::arithmetic::div_mod::lemma_div_denominator(value as int, 256, place);
    }
}

/// Two bytes and four bytes spell what they spell in either order.
pub proof fn law_bytes_spell(bytes: Seq<u8>)
    ensures
        bytes.len() == 1 ==> be_value(bytes) == bytes[0] && le_value(bytes) == bytes[0],
        bytes.len() == 2 ==> be_value(bytes) == 256 * bytes[0] + bytes[1],
        bytes.len() == 2 ==> le_value(bytes) == bytes[0] + 256 * bytes[1],
        bytes.len() == 4 ==> be_value(bytes) == 0x100_0000 * bytes[0] + 0x1_0000 * bytes[1] + 256
            * bytes[2] + bytes[3],
        bytes.len() == 4 ==> le_value(bytes) == bytes[0] + 256 * bytes[1] + 0x1_0000 * bytes[2]
            + 0x100_0000 * bytes[3],
{
    reveal_with_fuel(be_value, 5);
    reveal_with_fuel(le_value, 5);
}

/// The number that bytes spell in network order grows with each byte behind them.
pub proof fn law_one_more_byte(bytes: Seq<u8>, next: u8)
    ensures
        be_value(bytes.push(next)) == 256 * be_value(bytes) + next,
        le_value(seq![next] + bytes) == next + 256 * le_value(bytes),
        be_value(Seq::empty()) == 0,
        le_value(Seq::empty()) == 0,
{
    assert(bytes.push(next).drop_last() == bytes);
    assert((seq![next] + bytes).drop_first() == bytes);
}

/// Overwriting changes the bytes at its place into the new ones, and no others.
pub proof fn law_overwriting(base: Seq<u8>, at: int, patch: Seq<u8>, i: int)
    requires
        0 <= at,
        at + patch.len() <= base.len(),
        0 <= i < base.len(),
    ensures
        overwrite(base, at, patch).len() == base.len(),
        overwrite(base, at, patch)[i] == (if at <= i < at + patch.len() {
            patch[i - at]
        } else {
            base[i]
        }),
{
}

/// What the two orders mean: the least significant byte comes first in the one, and last in
/// the other, and what is laid out in an order reads back in it.
pub proof fn law_byte_orders(bytes: Seq<u8>, value: nat, len: nat)
    requires
        len == 1 || len == 2 || len == 4 || len == 8,
        value < vstd::arithmetic::power::pow(256, len),
    ensures
        bytes.len() == 2 ==> ByteOrder::Little.value(bytes) == bytes[0] + 256 * bytes[1],
        bytes.len() == 2 ==> ByteOrder::Big.value(bytes) == 256 * bytes[0] + bytes[1],
        bytes.len() == 4 ==> ByteOrder::Little.value(bytes) == bytes[0] + 256 * bytes[1]
            + 0x1_0000 * bytes[2] + 0x100_0000 * bytes[3],
        bytes.len() == 4 ==> ByteOrder::Big.value(bytes) == 0x100_0000 * bytes[0] + 0x1_0000
            * bytes[1] + 256 * bytes[2] + bytes[3],
        ByteOrder::Little.value(ByteOrder::Little.bytes(value, len)) == value,
        ByteOrder::Big.value(ByteOrder::Big.bytes(value, len)) == value,
{
    law_bytes_spell(bytes);
    ByteOrder::Little.lemma_value_of_bytes(value, len);
    ByteOrder::Big.lemma_value_of_bytes(value, len);
}

} // verus!
