//! Variable-length quantities: big-endian groups of seven bits, every byte but the
//! last carrying a continuation bit.

use vstd::prelude::*;

verus! {

/// Largest quantity that fits the four bytes a conformant file allows.
pub const VLQ_MAX: u32 = 0x0FFF_FFFF;

/// The continuation bytes of a quantity whose groups above the lowest one are `n`:
/// most significant group first, each with the top bit set. Empty when `n` is zero.
pub open spec fn vlq_head(n: nat) -> Seq<u8>
    decreases n,
{
    if n == 0 {
        Seq::empty()
    } else {
        vlq_head(n / 128).push((128 + n % 128) as u8)
    }
}

/// The encoding of `n`: its continuation bytes, then the lowest group with the top
/// bit clear. Zero is the single byte `0x00`.
pub open spec fn vlq(n: nat) -> Seq<u8> {
    vlq_head(n / 128).push((n % 128) as u8)
}

/// Number of bytes in the encoding of `n`.
pub open spec fn vlq_len(n: nat) -> nat {
    vlq(n).len()
}

/// Reads a quantity from the front of `bytes` as a conformant reader does: up to
/// four bytes, stopping at the first one with the top bit clear. Gives the value
/// and the number of bytes consumed, or `None` where the input ends early or a
/// fourth byte still asks for more.
pub open spec fn read_vlq(bytes: Seq<u8>) -> Option<(nat, nat)> {
    read_vlq_from(bytes, 0, 0)
}

/// `read_vlq` after `taken` continuation bytes have been folded into `acc`.
pub open spec fn read_vlq_from(bytes: Seq<u8>, acc: nat, taken: nat) -> Option<(nat, nat)>
    decreases 4 - taken,
{
    if taken >= 4 || taken >= bytes.len() {
        None
    } else {
        let b = bytes[taken as int];
        if b < 128 {
            Some((acc * 128 + b as nat, taken + 1))
        } else {
            read_vlq_from(bytes, acc * 128 + (b - 128) as nat, taken + 1)
        }
    }
}

/// The continuation bytes of `n` are one per nonzero group.
pub proof fn lemma_vlq_head_forms(n: nat)
    requires
        n < 0x200_0000,
    ensures
        n == 0 ==> vlq_head(n) =~= Seq::<u8>::empty(),
        0 < n < 0x80 ==> vlq_head(n) =~= seq![(128 + n) as u8],
        0x80 <= n < 0x4000 ==> vlq_head(n) =~= seq![(128 + n / 128) as u8, (128 + n % 128) as u8],
        0x4000 <= n < 0x20_0000 ==> vlq_head(n) =~= seq![
            (128 + n / 0x4000) as u8,
            (128 + (n / 128) % 128) as u8,
            (128 + n % 128) as u8,
        ],
        0x20_0000 <= n ==> vlq_head(n) =~= seq![
            (128 + n / 0x20_0000) as u8,
            (128 + (n / 0x4000) % 128) as u8,
            (128 + (n / 128) % 128) as u8,
            (128 + n % 128) as u8,
        ],
{
    reveal_with_fuel(vlq_head, 6);
    if n >= 0x80 {
        assert(n / 128 / 128 == n / 0x4000);
        assert(n / 128 / 128 / 128 == n / 0x20_0000);
        assert((n / 128 / 128) % 128 == (n / 0x4000) % 128);
    }
}

/// How long an encoding is: one byte below 2^7, two below 2^14, three below 2^21,
/// four up to `VLQ_MAX`, five for the rest of the 32-bit range.
pub proof fn lemma_vlq_len(n: nat)
    requires
        n <= u32::MAX,
    ensures
        1 <= vlq_len(n) <= 5,
        n < 0x80 <==> vlq_len(n) == 1,
        0x80 <= n < 0x4000 <==> vlq_len(n) == 2,
        0x4000 <= n < 0x20_0000 <==> vlq_len(n) == 3,
        0x20_0000 <= n <= VLQ_MAX <==> vlq_len(n) == 4,
        VLQ_MAX < n <==> vlq_len(n) == 5,
{
    lemma_vlq_head_forms(n / 128);
}

/// The continuation bit is set on every byte of an encoding but the last.
pub proof fn lemma_vlq_continuation(n: nat)
    ensures
        vlq(n).len() >= 1,
        vlq(n).last() < 128,
        forall|i: int| 0 <= i < vlq(n).len() - 1 ==> #[trigger] vlq(n)[i] >= 128,
{
    lemma_vlq_head_continuation(n / 128);
}

proof fn lemma_vlq_head_continuation(n: nat)
    ensures
        forall|i: int| 0 <= i < vlq_head(n).len() ==> #[trigger] vlq_head(n)[i] >= 128,
    decreases n,
{
    if n != 0 {
        lemma_vlq_head_continuation(n / 128);
        let head = vlq_head(n / 128);
        assert forall|i: int| 0 <= i < vlq_head(n).len() implies #[trigger] vlq_head(n)[i]
            >= 128 by {
            if i < head.len() {
                assert(vlq_head(n)[i] == head[i]);
            } else {
                assert(vlq_head(n)[i] == (128 + n % 128) as u8);
            }
        }
    }
}

/// Reading back an encoding of at most four bytes gives the quantity and consumes
/// exactly the encoding, whatever follows it.
pub proof fn lemma_read_vlq_of_vlq(n: nat, rest: Seq<u8>)
    requires
        n <= VLQ_MAX,
    ensures
        read_vlq(vlq(n) + rest) == Some((n, vlq_len(n))),
{
    lemma_vlq_head_forms(n / 128);
    let bytes = vlq(n) + rest;
    reveal_with_fuel(read_vlq_from, 5);
    let h = n / 128;
    if h == 0 {
        assert(bytes[0] == (n % 128) as u8);
    } else if h < 0x80 {
        assert(bytes[0] == (128 + h) as u8);
        assert(bytes[1] == (n % 128) as u8);
    } else if h < 0x4000 {
        assert(bytes[0] == (128 + h / 128) as u8);
        assert(bytes[1] == (128 + h % 128) as u8);
        assert(bytes[2] == (n % 128) as u8);
    } else {
        assert(bytes[0] == (128 + h / 0x4000) as u8);
        assert(bytes[1] == (128 + (h / 128) % 128) as u8);
        assert(bytes[2] == (128 + h % 128) as u8);
        assert(bytes[3] == (n % 128) as u8);
    }
}

/// Appends the variable-length encoding of `value` to `output`.
pub fn write_variable_length(output: &mut Vec<u8>, value: u32)
    ensures
        final(output)@ == old(output)@ + vlq(value as nat),
{
    proof {
        lemma_vlq_head_forms((value / 128) as nat);
        assert(value >> 28 == value / 0x1000_0000) by (bit_vector);
        assert((value >> 21) & 0x7F == (value / 0x20_0000) % 128) by (bit_vector);
        assert((value >> 14) & 0x7F == (value / 0x4000) % 128) by (bit_vector);
        assert((value >> 7) & 0x7F == (value / 0x80) % 128) by (bit_vector);
        assert(value & 0x7F == value % 128) by (bit_vector);
    }
    if value > VLQ_MAX {
        output.push(0x80 + (value >> 28) as u8);
    }
    if value >= 0x20_0000 {
        output.push(0x80 + ((value >> 21) & 0x7F) as u8);
    }
    if value >= 0x4000 {
        output.push(0x80 + ((value >> 14) & 0x7F) as u8);
    }
    if value >= 0x80 {
        output.push(0x80 + ((value >> 7) & 0x7F) as u8);
    }
    output.push((value & 0x7F) as u8);
}

fn write_head(output: &mut Vec<u8>, groups: u64)
    ensures
        final(output)@ == old(output)@ + vlq_head(groups as nat),
    decreases groups,
{
    if groups != 0 {
        write_head(output, groups / 128);
        output.push((128 + groups % 128) as u8);
    }
}

/// Appends the variable-length encoding of a length to `output`. A length beyond
/// `VLQ_MAX` takes more than the four bytes of a conformant file.
pub fn write_length(output: &mut Vec<u8>, length: usize)
    ensures
        final(output)@ == old(output)@ + vlq(length as nat),
{
    let length = length as u64;
    write_head(output, length / 128);
    output.push((length % 128) as u8);
}

} // verus!
