//! Pure parts of the SWD protocol and of the probe's timing: parity, request
//! encoding, acknowledge codes, clock-to-delay mapping and word/byte packing.
use vstd::prelude::*;
use crate::spin::{spin_loop_hint, SpinHint};
use crate::pins::{ACTIVITY_LED, ACTIVITY_LED_ACTIVE_HIGH, SWDIO_TMS};

verus! {

/// SWCLK frequency used when the host asks for nothing else (8 MHz).
pub const DEFAULT_SWJ_CLOCK_HZ: u32 = 8_000_000;

/// Highest SWCLK frequency the probe runs at (8 MHz, stable with an STM32H723ZGT6).
pub const MAX_STABLE_SWJ_CLOCK_HZ: u32 = 8_000_000;

/// The clock probe-rs asks for by default (1 MHz); it is served at 8 MHz.
pub const PROBE_RS_DEFAULT_SWJ_CLOCK_HZ: u32 = 1_000_000;

/// SWD acknowledge "OK" (bits sampled LSB first).
pub const ACK_OK: u8 = 0b001;

/// SWD acknowledge "WAIT".
pub const ACK_WAIT: u8 = 0b010;

/// SWD acknowledge "FAULT".
pub const ACK_FAULT: u8 = 0b100;

/// What a floating (pulled-up) SWDIO reads as when no target answers.
pub const ACK_NO_RESPONSE: u8 = 0b111;

/// Outcome of one SWD transfer.
#[derive(Clone, Copy, Debug, PartialEq, Eq)]
pub enum TransferStatus {
    Success,
    Wait,
    Fault,
    NoAck,
    ProtocolError,
    ParityError,
}

/// Outcome of one SWD transfer with the word read (0 where none was read).
#[derive(Clone, Copy, Debug, PartialEq, Eq)]
pub struct TransferResult {
    pub status: TransferStatus,
    pub data: u32,
}

/// Outcome of a block write: the status of the last transfer and the words written.
#[derive(Clone, Copy, Debug, PartialEq, Eq)]
pub struct WriteBlockResult {
    pub status: TransferStatus,
    pub done: usize,
}

/// Outcome of a block read: the status of the last transfer and the words read.
#[derive(Clone, Copy, Debug, PartialEq, Eq)]
pub struct ReadBlockResult {
    pub status: TransferStatus,
    pub done: usize,
}

/// Bit `i` of `v` is set.
pub open spec fn bit_of(v: u32, i: u32) -> bool {
    (v >> i) & 1 == 1
}

/// Bit `i` of `v` for any natural `i` (bits at 32 and above are clear).
pub open spec fn bit_at(v: u32, i: nat) -> bool {
    i < 32 && bit_of(v, i as u32)
}

/// An odd number of the low `n` bits of `v` are set.
pub open spec fn odd_ones_below(v: u32, n: nat) -> bool
    decreases n,
{
    if n == 0 {
        false
    } else {
        odd_ones_below(v, (n - 1) as nat) != bit_at(v, (n - 1) as nat)
    }
}

/// The sum of the 32 bits of `v`, taken modulo 2.
spec fn xor_of_bits(v: u32) -> u32 {
    ((v >> 0u32) & 1) ^ ((v >> 1u32) & 1) ^ ((v >> 2u32) & 1) ^ ((v >> 3u32) & 1)
        ^ ((v >> 4u32) & 1) ^ ((v >> 5u32) & 1) ^ ((v >> 6u32) & 1) ^ ((v >> 7u32) & 1)
        ^ ((v >> 8u32) & 1) ^ ((v >> 9u32) & 1) ^ ((v >> 10u32) & 1) ^ ((v >> 11u32) & 1)
        ^ ((v >> 12u32) & 1) ^ ((v >> 13u32) & 1) ^ ((v >> 14u32) & 1) ^ ((v >> 15u32) & 1)
        ^ ((v >> 16u32) & 1) ^ ((v >> 17u32) & 1) ^ ((v >> 18u32) & 1) ^ ((v >> 19u32) & 1)
        ^ ((v >> 20u32) & 1) ^ ((v >> 21u32) & 1) ^ ((v >> 22u32) & 1) ^ ((v >> 23u32) & 1)
        ^ ((v >> 24u32) & 1) ^ ((v >> 25u32) & 1) ^ ((v >> 26u32) & 1) ^ ((v >> 27u32) & 1)
        ^ ((v >> 28u32) & 1) ^ ((v >> 29u32) & 1) ^ ((v >> 30u32) & 1) ^ ((v >> 31u32) & 1)
}

/// An odd number of the four bits of the nibble at bit `s` of `v` are set.
spec fn odd_nibble(v: u32, s: u32) -> bool {
    ((v >> s) & 1) ^ ((v >> (s + 1) as u32) & 1) ^ ((v >> (s + 2) as u32) & 1) ^ ((v >> (s
        + 3) as u32) & 1) == 1
}

proof fn lemma_odd_ones_nibble_step(v: u32, k: nat)
    requires
        k < 8,
    ensures
        odd_ones_below(v, 4 * k + 4) == (odd_ones_below(v, 4 * k) != odd_nibble(v, (4 * k) as u32)),
{
    reveal_with_fuel(odd_ones_below, 5);
    let s = (4 * k) as u32;
    assert(odd_nibble(v, s) == ((((v >> s) & 1 == 1) != ((v >> (s + 1) as u32) & 1 == 1)) != (((v
        >> (s + 2) as u32) & 1 == 1) != ((v >> (s + 3) as u32) & 1 == 1)))) by (bit_vector)
        requires
            s <= 28,
    ;
}

proof fn lemma_xor_of_bits_is_odd_ones(v: u32)
    ensures
        (xor_of_bits(v) == 1) == odd_ones_below(v, 32),
{
    lemma_odd_ones_nibble_step(v, 0);
    lemma_odd_ones_nibble_step(v, 1);
    lemma_odd_ones_nibble_step(v, 2);
    lemma_odd_ones_nibble_step(v, 3);
    lemma_odd_ones_nibble_step(v, 4);
    lemma_odd_ones_nibble_step(v, 5);
    lemma_odd_ones_nibble_step(v, 6);
    lemma_odd_ones_nibble_step(v, 7);
    assert(odd_ones_below(v, 0) == false);
    let n0 = odd_nibble(v, 0);
    let n1 = odd_nibble(v, 4);
    let n2 = odd_nibble(v, 8);
    let n3 = odd_nibble(v, 12);
    let n4 = odd_nibble(v, 16);
    let n5 = odd_nibble(v, 20);
    let n6 = odd_nibble(v, 24);
    let n7 = odd_nibble(v, 28);
    assert((xor_of_bits(v) == 1) == ((n0 != n1) != (n2 != n3)) != ((n4 != n5) != (n6 != n7)))
        by (bit_vector)
        requires
            n0 == odd_nibble(v, 0),
            n1 == odd_nibble(v, 4),
            n2 == odd_nibble(v, 8),
            n3 == odd_nibble(v, 12),
            n4 == odd_nibble(v, 16),
            n5 == odd_nibble(v, 20),
            n6 == odd_nibble(v, 24),
            n7 == odd_nibble(v, 28),
    ;
}

/// Whether an odd number of the 32 bits of `value` are set: the SWD data parity bit.
pub fn odd_parity(value: u32) -> (r: bool)
    ensures
        r == odd_ones_below(value, 32),
{
    let mut bits = value;
    bits ^= bits >> 16u32;
    let b16 = bits;
    bits ^= bits >> 8u32;
    let b8 = bits;
    bits ^= bits >> 4u32;
    let b4 = bits;
    assert(bits & 0x0f < 32) by (bit_vector);
    let r = (0x6996u32 >> (bits & 0x0f)) & 1 != 0;
    proof {
        lemma_xor_of_bits_is_odd_ones(value);
        let v = value;
        assert(xor_of_bits(v) == xor_low16(b16)) by (bit_vector)
            requires
                b16 == v ^ (v >> 16u32),
        ;
        assert(xor_low16(b16) == xor_low8(b8)) by (bit_vector)
            requires
                b8 == b16 ^ (b16 >> 8u32),
        ;
        assert(xor_low8(b8) == xor_low4(b4)) by (bit_vector)
            requires
                b4 == b8 ^ (b8 >> 4u32),
        ;
        assert(r == (xor_low4(b4) == 1)) by (bit_vector)
            requires
                r == ((0x6996u32 >> (b4 & 0x0f)) & 1 != 0),
        ;
    }
    r
}

/// The sum modulo 2 of the low 16 bits of `v`.
spec fn xor_low16(v: u32) -> u32 {
    ((v >> 0u32) & 1) ^ ((v >> 1u32) & 1) ^ ((v >> 2u32) & 1) ^ ((v >> 3u32) & 1)
        ^ ((v >> 4u32) & 1) ^ ((v >> 5u32) & 1) ^ ((v >> 6u32) & 1) ^ ((v >> 7u32) & 1)
        ^ ((v >> 8u32) & 1) ^ ((v >> 9u32) & 1) ^ ((v >> 10u32) & 1) ^ ((v >> 11u32) & 1)
        ^ ((v >> 12u32) & 1) ^ ((v >> 13u32) & 1) ^ ((v >> 14u32) & 1) ^ ((v >> 15u32) & 1)
}

/// The sum modulo 2 of the low 8 bits of `v`.
spec fn xor_low8(v: u32) -> u32 {
    ((v >> 0u32) & 1) ^ ((v >> 1u32) & 1) ^ ((v >> 2u32) & 1) ^ ((v >> 3u32) & 1)
        ^ ((v >> 4u32) & 1) ^ ((v >> 5u32) & 1) ^ ((v >> 6u32) & 1) ^ ((v >> 7u32) & 1)
}

/// The sum modulo 2 of the low 4 bits of `v`.
spec fn xor_low4(v: u32) -> u32 {
    ((v >> 0u32) & 1) ^ ((v >> 1u32) & 1) ^ ((v >> 2u32) & 1) ^ ((v >> 3u32) & 1)
}

/// Busy-waits for `count` spin-loop hints: one half period of SWCLK / TCK. The common
/// counts are unrolled so that short delays cost no loop overhead. The result holds one
/// token per hint made (the tokens take no memory).
pub fn delay_half_count(count: u8) -> (hints: Vec<SpinHint>)
    ensures
        hints@.len() == count as nat,
{
    let mut hints: Vec<SpinHint> = Vec::new();
    match count {
        0 => {},
        1 => {
            hints.push(spin_loop_hint());
        },
        2 => {
            hints.push(spin_loop_hint());
            hints.push(spin_loop_hint());
        },
        3 => {
            hints.push(spin_loop_hint());
            hints.push(spin_loop_hint());
            hints.push(spin_loop_hint());
        },
        5 => {
            hints.push(spin_loop_hint());
            hints.push(spin_loop_hint());
            hints.push(spin_loop_hint());
            hints.push(spin_loop_hint());
            hints.push(spin_loop_hint());
        },
        n => {
            let mut i: u8 = 0;
            while i < n
                invariant
                    i <= n,
                    hints@.len() == i as nat,
                decreases n - i,
            {
                hints.push(spin_loop_hint());
                i += 1;
            }
        },
    }
    hints
}

/// Half-period delay, in spin-loop hints, used for an SWCLK frequency of `hz`.
pub open spec fn delay_table(hz: u32) -> u8 {
    if hz <= 250_000 {
        96
    } else if hz <= 500_000 {
        48
    } else if hz <= 1_000_000 {
        24
    } else if hz <= 2_000_000 {
        10
    } else if hz <= 3_000_000 {
        7
    } else if hz <= 4_000_000 {
        5
    } else if hz <= 8_000_000 {
        3
    } else if hz <= 20_000_000 {
        1
    } else {
        0
    }
}

/// Half-period delay for reading and clocking at `hz`.
pub fn swd_delay_for_hz(hz: u32) -> (r: u8)
    ensures
        r == delay_table(hz),
{
    match hz {
        0..=250_000 => 96,
        250_001..=500_000 => 48,
        500_001..=1_000_000 => 24,
        1_000_001..=2_000_000 => 10,
        2_000_001..=3_000_000 => 7,
        3_000_001..=4_000_000 => 5,
        4_000_001..=8_000_000 => 3,
        8_000_001..=20_000_000 => 1,
        _ => 0,
    }
}

/// Half-period delay for driving data bits at `hz`: the same table as for reading.
pub fn swd_write_delay_for_hz(hz: u32) -> (r: u8)
    ensures
        r == delay_table(hz),
{
    swd_delay_for_hz(hz)
}

/// The clock the probe runs at when the host asks for `hz`.
pub open spec fn normalized_clock(hz: u32) -> u32 {
    if hz == PROBE_RS_DEFAULT_SWJ_CLOCK_HZ {
        DEFAULT_SWJ_CLOCK_HZ
    } else if hz <= MAX_STABLE_SWJ_CLOCK_HZ {
        hz
    } else {
        MAX_STABLE_SWJ_CLOCK_HZ
    }
}

/// Maps probe-rs's default 1 MHz request to 8 MHz and caps every request at 8 MHz.
pub fn normalize_swj_clock_hz(hz: u32) -> (r: u32)
    ensures
        r == normalized_clock(hz),
        r <= MAX_STABLE_SWJ_CLOCK_HZ,
{
    if hz == PROBE_RS_DEFAULT_SWJ_CLOCK_HZ {
        DEFAULT_SWJ_CLOCK_HZ
    } else if hz < MAX_STABLE_SWJ_CLOCK_HZ {
        hz
    } else {
        MAX_STABLE_SWJ_CLOCK_HZ
    }
}

/// The port-A level of the LED pin that shows `lit`.
pub open spec fn led_level(lit: bool) -> u32 {
    if lit == ACTIVITY_LED_ACTIVE_HIGH {
        ACTIVITY_LED
    } else {
        0
    }
}

/// The LED bit to drive on port A for `lit`: the LED is active low, so a lit LED is a
/// low pin and a dark LED a high one.
pub fn activity_led_bit(lit: bool) -> (r: u32)
    ensures
        r == led_level(lit),
        lit ==> r == 0,
        !lit ==> r == ACTIVITY_LED,
{
    if lit == ACTIVITY_LED_ACTIVE_HIGH {
        ACTIVITY_LED
    } else {
        0
    }
}

/// The SWD packet request byte for the CMSIS-DAP request `dap_request`: start bit,
/// APnDP, RnW, A2, A3, their parity, stop bit, park bit (bit 0 first).
pub open spec fn swd_request_spec(dap_request: u8) -> u8 {
    (1 + 2 * (dap_request & 0x0f) + if odd_ones_below(dap_request as u32, 4) {
        0x20int
    } else {
        0int
    } + 0x80) as u8
}

/// Turns a CMSIS-DAP transfer request (bit 0 APnDP, bit 1 RnW, bits 2-3 A[3:2]) into the
/// eight-bit SWD packet request, sent LSB first: start bit, APnDP, RnW, A2, A3, parity,
/// stop bit, park bit.
pub fn make_swd_request(dap_request: u8) -> (r: u8)
    ensures
        r & 1 == 1,
        (r >> 1u8) & 0x0f == dap_request & 0x0f,
        ((r >> 5u8) & 1 == 1) == odd_ones_below(dap_request as u32, 4),
        (r >> 6u8) & 1 == 0,
        r >> 7u8 == 1,
        r == swd_request_spec(dap_request),
{
    let ap = dap_request & 0x01;
    let read = (dap_request >> 1u8) & 0x01;
    let a2 = (dap_request >> 2u8) & 0x01;
    let a3 = (dap_request >> 3u8) & 0x01;
    let parity = (ap ^ read ^ a2 ^ a3) & 1;
    let r = 1u8 | (ap << 1u8) | (read << 2u8) | (a2 << 3u8) | (a3 << 4u8) | (parity << 5u8) | (1u8
        << 7u8);
    proof {
        reveal_with_fuel(odd_ones_below, 5);
        let d = dap_request;
        let dw = dap_request as u32;
        assert(bit_of(dw, 0) == (d & 1 == 1) && bit_of(dw, 1) == ((d >> 1u8) & 1 == 1) && bit_of(
            dw,
            2,
        ) == ((d >> 2u8) & 1 == 1) && bit_of(dw, 3) == ((d >> 3u8) & 1 == 1)) by (bit_vector)
            requires
                dw == d as u32,
        ;
        assert(r & 1 == 1 && (r >> 1u8) & 0x0f == d & 0x0f && (r >> 6u8) & 1 == 0 && r >> 7u8 == 1
            && (((r >> 5u8) & 1 == 1) == ((((d & 1 == 1) != ((d >> 1u8) & 1 == 1)) != ((d >> 2u8)
            & 1 == 1)) != ((d >> 3u8) & 1 == 1)))) by (bit_vector)
            requires
                r == 1u8 | ((d & 1) << 1u8) | (((d >> 1u8) & 1) << 2u8) | (((d >> 2u8) & 1) << 3u8)
                    | (((d >> 3u8) & 1) << 4u8) | ((((d & 1) ^ ((d >> 1u8) & 1) ^ ((d >> 2u8) & 1)
                    ^ ((d >> 3u8) & 1)) & 1) << 5u8) | (1u8 << 7u8),
        ;
        let p = (r >> 5u8) & 1 == 1;
        assert(r == 1 + 2 * (d & 0x0f) + (if p { 0x20u8 } else { 0u8 }) + 0x80) by (bit_vector)
            requires
                r & 1 == 1,
                (r >> 1u8) & 0x0f == d & 0x0f,
                p == ((r >> 5u8) & 1 == 1),
                (r >> 6u8) & 1 == 0,
                r >> 7u8 == 1,
        ;
    }
    r
}

/// The little-endian value of four bytes.
pub open spec fn le_word(b0: u8, b1: u8, b2: u8, b3: u8) -> int {
    b0 + 0x100 * b1 + 0x1_0000 * b2 + 0x100_0000 * b3
}

/// Byte `k` (0 = least significant) of `w`.
pub open spec fn le_byte(w: u32, k: u32) -> u8 {
    ((w >> (8 * k) as u32) & 0xff) as u8
}

/// The word stored little-endian at `bytes[at..at + 4]`.
pub fn word_from_le_bytes(bytes: &[u8], at: usize) -> (r: u32)
    requires
        at + 4 <= bytes@.len(),
    ensures
        r == le_word(bytes@[at as int], bytes@[at + 1], bytes@[at + 2], bytes@[at + 3]),
{
    let b0 = bytes[at];
    let b1 = bytes[at + 1];
    let b2 = bytes[at + 2];
    let b3 = bytes[at + 3];
    let r = (b0 as u32) | ((b1 as u32) << 8u32) | ((b2 as u32) << 16u32) | ((b3 as u32) << 24u32);
    assert(r == b0 as u32 + 0x100u32 * b1 as u32 + 0x1_0000u32 * b2 as u32 + 0x100_0000u32 * b3 as u32)
        by (bit_vector)
        requires
            r == (b0 as u32) | ((b1 as u32) << 8u32) | ((b2 as u32) << 16u32) | ((b3 as u32)
                << 24u32),
    ;
    r
}

/// The four little-endian bytes of `w`.
pub fn word_to_le_bytes(w: u32) -> (r: (u8, u8, u8, u8))
    ensures
        r.0 == le_byte(w, 0),
        r.1 == le_byte(w, 1),
        r.2 == le_byte(w, 2),
        r.3 == le_byte(w, 3),
{
    assert(w >> 0u32 == w) by (bit_vector);
    let b0 = (w & 0xff) as u8;
    let b1 = ((w >> 8u32) & 0xff) as u8;
    let b2 = ((w >> 16u32) & 0xff) as u8;
    let b3 = ((w >> 24u32) & 0xff) as u8;
    (b0, b1, b2, b3)
}

/// Writing a word out as little-endian bytes and reading those bytes back gives the word.
pub proof fn lemma_le_bytes_round_trip(w: u32)
    ensures
        le_word(le_byte(w, 0), le_byte(w, 1), le_byte(w, 2), le_byte(w, 3)) == w,
{
    assert(w >> 0u32 == w && (w & 0xff) < 0x100 && ((w >> 8u32) & 0xff) < 0x100 && ((w >> 16u32) & 0xff)
        < 0x100 && ((w >> 24u32) & 0xff) < 0x100 && w == (w & 0xff) + 0x100 * ((w >> 8u32) & 0xff)
        + 0x1_0000 * ((w >> 16u32) & 0xff) + 0x100_0000 * ((w >> 24u32) & 0xff)) by (bit_vector);
}

/// SWDIO was high in the port-A input sample `di_a`.
pub open spec fn swdio_high(di_a: u32) -> bool {
    di_a & SWDIO_TMS != 0
}

proof fn lemma_set_bit(v: u32, b: u32)
    requires
        b < 32,
    ensures
        forall|j: u32| j < 32 ==> #[trigger] bit_of(v | (1u32 << b), j) == (bit_of(v, j) || j == b),
{
    assert(forall|j: u32|
        j < 32 ==> ((#[trigger] ((v | (1u32 << b)) >> j) & 1 == 1) == (((v >> j) & 1 == 1) || j
            == b))) by (bit_vector)
        requires
            b < 32,
    ;
}

/// The word assembled from the first `n` SWDIO samples, first sample in bit 0.
pub open spec fn samples_word(samples: Seq<u32>, n: nat) -> u32
    decreases n,
{
    if n == 0 {
        0
    } else {
        samples_word(samples, (n - 1) as nat) | if swdio_high(samples[n - 1]) {
            1u32 << ((n - 1) as u32)
        } else {
            0u32
        }
    }
}

/// The word read in `count` SWDIO samples, first sample in bit 0: bit `i` is set exactly
/// when `i < count` and SWDIO was high in `samples[i]`.
pub fn swdio_bits_from_samples(samples: &[u32], count: usize) -> (r: u32)
    requires
        count <= 32,
        count <= samples@.len(),
    ensures
        r == samples_word(samples@, count as nat),
        forall|i: u32| i < 32 ==> #[trigger] bit_of(r, i) == (i < count && swdio_high(samples@[i as int])),
{
    let mut value: u32 = 0;
    let mut bit: usize = 0;
    assert(forall|j: u32| j < 32 ==> !#[trigger] bit_of(0u32, j)) by (bit_vector);
    while bit < count
        invariant
            bit <= count,
            count <= 32,
            count <= samples@.len(),
            forall|j: u32| j < 32 ==> #[trigger] bit_of(value, j) == (j < bit && swdio_high(samples@[j as int])),
            value == samples_word(samples@, bit as nat),
        decreases count - bit,
    {
        if samples[bit] & SWDIO_TMS != 0 {
            proof {
                lemma_set_bit(value, bit as u32);
            }
            value |= 1u32 << (bit as u32);
        } else {
            assert(value | 0u32 == value) by (bit_vector);
        }
        bit += 1;
    }
    value
}

/// Setting a bit above all set bits of a byte adds its value.
pub proof fn lemma_or_fresh_bit()
    ensures
        0u8 | 1u8 == 1u8,
        forall|x: u8| x < 2 ==> #[trigger] (x | 2u8) == x + 2,
        forall|x: u8| x < 4 ==> #[trigger] (x | 4u8) == x + 4,
        forall|x: u8| x < 8 ==> #[trigger] (x | 8u8) == x + 8,
        forall|x: u8| x < 0x20 ==> #[trigger] (x | 0x20u8) == x + 0x20,
        forall|x: u8| x < 0x80 ==> #[trigger] (x | 0x80u8) == x + 0x80,
{
    assert(0u8 | 1u8 == 1u8 && forall|x: u8|
        #![trigger x | 2u8]
        #![trigger x | 4u8]
        #![trigger x | 8u8]
        #![trigger x | 0x20u8]
        #![trigger x | 0x80u8]
        (x < 2 ==> (x | 2u8) == x + 2) && (x < 4 ==> (x | 4u8) == x + 4) && (x < 8 ==> (x | 8u8) == x
            + 8) && (x < 0x20 ==> (x | 0x20u8) == x + 0x20) && (x < 0x80 ==> (x | 0x80u8) == x
            + 0x80)) by (bit_vector);
}

/// The three acknowledge bits read in `samples`, first sample in bit 0.
pub fn ack_from_samples(samples: &[u32]) -> (r: u8)
    requires
        3 <= samples@.len(),
    ensures
        r == (if swdio_high(samples@[0]) { 1u8 } else { 0u8 }) + (if swdio_high(samples@[1]) {
            2u8
        } else {
            0u8
        }) + (if swdio_high(samples@[2]) {
            4u8
        } else {
            0u8
        }),
{
    let mut value: u8 = 0;
    if samples[0] & SWDIO_TMS != 0 {
        value |= 1;
    }
    if samples[1] & SWDIO_TMS != 0 {
        value |= 2;
    }
    if samples[2] & SWDIO_TMS != 0 {
        value |= 4;
    }
    proof {
        lemma_or_fresh_bit();
    }
    value
}

} // verus!
