//! The flags of a receive call.
use vstd::prelude::*;

verus! {

/// Leave the received data in the receive buffer.
pub const MSG_PEEK: i32 = 0x02;

/// Report the real length of the datagram, even where it was longer than the buffers.
pub const MSG_TRUNC: i32 = 0x20;

/// Do not wait for data.
pub const MSG_DONTWAIT: i32 = 0x40;

/// Receive queued errors.
pub const MSG_ERRQUEUE: i32 = 0x2000;

/// All flags that are supported.
pub const MSG_SUPPORTED: i32 = 0x2062;

/// Flags of a receive call.
#[derive(Debug, Clone, Copy, PartialEq, Eq, Structural)]
pub struct RecvFlags {
    pub bits: i32,
}

impl RecvFlags {
    /// Whether a flag is among these.
    pub open spec fn has(self, flag: i32) -> bool {
        self.bits & flag == flag
    }

    /// Whether there is no other flag among these than the supported ones.
    pub open spec fn is_supported(self) -> bool {
        self.bits & !(MSG_DONTWAIT | MSG_ERRQUEUE | MSG_TRUNC | MSG_PEEK) == 0
    }

    /// The flags as bits.
    pub fn bits(&self) -> (bits: i32)
        ensures
            bits == self.bits,
    {
        self.bits
    }

    /// Whether a flag is among these.
    pub fn contains(&self, flag: i32) -> (yes: bool)
        ensures
            yes == self.has(flag),
    {
        self.bits & flag == flag
    }

    /// Whether any flag is among these that is not supported.
    pub fn has_unsupported(&self) -> (yes: bool)
        ensures
            yes == !self.is_supported(),
    {
        assert(!(0x40i32 | 0x2000i32 | 0x20i32 | 0x02i32) == !0x2062i32) by (bit_vector);
        self.bits & !MSG_SUPPORTED != 0
    }
}

/// Supported flags hold no bit beyond those of the supported flags.
pub proof fn lemma_supported_flags(flags: RecvFlags, bit: i32)
    requires
        flags.is_supported(),
        bit & MSG_SUPPORTED == 0,
    ensures
        flags.bits & bit == 0,
{
    let bits = flags.bits;
    assert(bits & bit == 0) by (bit_vector)
        requires
            bits & !(0x40i32 | 0x2000i32 | 0x20i32 | 0x02i32) == 0,
            bit & 0x2062i32 == 0,
    ;
}

/// A flag that is a single bit is among flags exactly where its bit is one; of several bits
/// together, each has to be one.
pub proof fn lemma_flag_is_contained_bit_by_bit(flags: &RecvFlags, flag: i32, i: u32, yes: bool)
    requires
        call_ensures(RecvFlags::contains, (flags, flag), yes),
        i < 32,
    ensures
        yes && flag & (1i32 << i) != 0 ==> flags.bits & (1i32 << i) != 0,
        flag == 1i32 << i ==> (yes <==> flags.bits & (1i32 << i) != 0),
        flag == 0 ==> yes,
{
    let bits = flags.bits;
    assert(bits & flag == flag && flag & (1i32 << i) != 0 ==> bits & (1i32 << i) != 0)
        by (bit_vector);
    assert(i < 32 ==> (bits & (1i32 << i) == (1i32 << i) <==> bits & (1i32 << i) != 0))
        by (bit_vector);
    assert(bits & 0 == 0) by (bit_vector);
}

/// Flags that hold each of two sets of flags hold their union, and the other way round.
pub proof fn lemma_flags_contain_unions(
    flags: &RecvFlags,
    a: i32,
    b: i32,
    has_a: bool,
    has_b: bool,
    has_both: bool,
)
    requires
        call_ensures(RecvFlags::contains, (flags, a), has_a),
        call_ensures(RecvFlags::contains, (flags, b), has_b),
        call_ensures(RecvFlags::contains, (flags, a | b), has_both),
    ensures
        has_both <==> has_a && has_b,
{
    let bits = flags.bits;
    assert(bits & (a | b) == a | b <==> bits & a == a && bits & b == b) by (bit_vector);
}

/// Flags are unsupported exactly where any bit is one that belongs to none of the four
/// supported flags: to peek, to report the real length, not to wait, to receive errors.
pub proof fn lemma_four_flags_are_supported(flags: &RecvFlags, bits: i32, unsupported: bool)
    requires
        call_ensures(RecvFlags::bits, (flags,), bits),
        call_ensures(RecvFlags::has_unsupported, (flags,), unsupported),
    ensures
        bits == flags.bits,
        !unsupported <==> bits & 0x02 | bits & 0x20 | bits & 0x40 | bits & 0x2000 == bits,
{
    let b = flags.bits;
    assert((b & !(0x40i32 | 0x2000i32 | 0x20i32 | 0x02i32) == 0) <==> (b & 0x02i32 | b & 0x20i32
        | b & 0x40i32 | b & 0x2000i32) == b) by (bit_vector);
}

} // verus!
