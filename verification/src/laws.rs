//! What the queued register programs do on the FGPIO block: the shadow output registers
//! stay equal to the hardware's, data bits reach the target LSB first on the rising
//! SWCLK edges, each read phase takes exactly the samples its decoder reads, the target
//! sees every turnaround cycle with SWDIO released, and block transfers give every word
//! the full WAIT budget.
use vstd::prelude::*;
use crate::pins::{ACTIVITY_LED, SWCLK_TCK, SWDIO_TMS, TDI};
use crate::program::{
    levels_at_rising_edges, lemma_push_op, lemma_push_op_wire, run_ops, sample_count, wire_events,
    FgpioOutputs, PinOp, Port, WireEvent,
};
use crate::probe::{
    clocked_bit_ops, drive_level, initial_view, sample_cycles_ops, shift_out_ops, shifted_output,
    ProbeView,
};
use crate::protocol::{
    bit_at, delay_table, le_word, led_level, lemma_le_bytes_round_trip, normalized_clock, odd_ones_below,
    swd_request_spec, ReadBlockResult, TransferStatus, WriteBlockResult, ACK_FAULT, ACK_OK, ACK_WAIT, DEFAULT_SWJ_CLOCK_HZ,
    MAX_STABLE_SWJ_CLOCK_HZ, PROBE_RS_DEFAULT_SWJ_CLOCK_HZ,
};
use crate::transfer::{
    block_word, parity_bit, read_block_after_ack, read_block_after_data, read_block_start,
    store_word, write_block_after_ack, write_block_start, BlockView, ReadBlockStep, WriteBlockStep,
};

verus! {

/// The shadow registers of `v` are what the FGPIO output registers hold once the pending
/// program has run on registers that started as `hw`: both data outputs, and whether
/// SWDIO is an output; TDI is an output throughout.
pub open spec fn in_step(v: ProbeView, hw: FgpioOutputs) -> bool {
    let regs = run_ops(hw, v.program);
    &&& regs.do_a == v.output_a
    &&& regs.do_b == v.output_b
    &&& (regs.oe_a & SWDIO_TMS != 0) == v.swdio_output_enabled
    &&& regs.oe_a & TDI != 0
}

proof fn lemma_bits()
    ensures
        forall|x: u32| #[trigger] ((x & !SWCLK_TCK) | SWCLK_TCK) == x | SWCLK_TCK,
        forall|x: u32| #[trigger] ((x | SWCLK_TCK) | SWCLK_TCK) == x | SWCLK_TCK,
        forall|x: u32| ((#[trigger] (x | SWDIO_TMS)) & SWDIO_TMS) != 0,
        forall|x: u32| ((#[trigger] (x & !SWDIO_TMS)) & SWDIO_TMS) == 0,
        forall|x: u32| (#[trigger] (x & !SWCLK_TCK)) & SWCLK_TCK == 0,
        forall|x: u32| (#[trigger] (x | SWCLK_TCK)) & SWCLK_TCK != 0,
        SWDIO_TMS & SWCLK_TCK == 0,
        TDI & SWCLK_TCK == 0,
{
    assert(0x1000_0000u32 & 0x0800_0000u32 == 0 && 0x2000_0000u32 & 0x0800_0000u32 == 0 && forall|x: u32|
        #![trigger x & !0x0800_0000u32]
        #![trigger x | 0x0800_0000u32]
        #![trigger x | 0x1000_0000u32]
        #![trigger x & !0x1000_0000u32]
        ((x & !0x0800_0000u32) | 0x0800_0000u32) == x | 0x0800_0000u32 && ((x | 0x0800_0000u32)
            | 0x0800_0000u32) == x | 0x0800_0000u32 && ((x | 0x1000_0000u32) & 0x1000_0000u32) != 0
            && ((x & !0x1000_0000u32) & 0x1000_0000u32) == 0 && (x & !0x0800_0000u32) & 0x0800_0000u32
            == 0 && (x | 0x0800_0000u32) & 0x0800_0000u32 != 0) by (bit_vector);
}

/// The registers after `n` sampling cycles appended to `p`: SWCLK ends high (when `n > 0`)
/// and nothing else changes; exactly `n` samples are added.
pub proof fn lemma_sample_cycles_registers(hw: FgpioOutputs, p: Seq<PinOp>, delay: u8, n: nat)
    ensures
        run_ops(hw, sample_cycles_ops(p, delay, n)) == if n == 0 {
            run_ops(hw, p)
        } else {
            FgpioOutputs { do_a: run_ops(hw, p).do_a | SWCLK_TCK, ..run_ops(hw, p) }
        },
        sample_count(sample_cycles_ops(p, delay, n)) == sample_count(p) + n,
        run_ops(hw, p).oe_a & SWDIO_TMS == 0 ==> levels_at_rising_edges(
            hw,
            sample_cycles_ops(p, delay, n),
            SWDIO_TMS,
        ) == levels_at_rising_edges(hw, p, SWDIO_TMS),
    decreases n,
{
    if n > 0 {
        let q = sample_cycles_ops(p, delay, (n - 1) as nat);
        lemma_sample_cycles_registers(hw, p, delay, (n - 1) as nat);
        let q1 = q.push(PinOp::ClearOutputs { port: Port::A, mask: SWCLK_TCK });
        let q2 = q1.push(PinOp::Delay { count: delay });
        let q3 = q2.push(PinOp::Sample { port: Port::A });
        let q4 = q3.push(PinOp::SetOutputs { port: Port::A, mask: SWCLK_TCK });
        let q5 = q4.push(PinOp::Delay { count: delay });
        lemma_push_op(hw, q, PinOp::ClearOutputs { port: Port::A, mask: SWCLK_TCK }, SWDIO_TMS);
        lemma_push_op(hw, q1, PinOp::Delay { count: delay }, SWDIO_TMS);
        lemma_push_op(hw, q2, PinOp::Sample { port: Port::A }, SWDIO_TMS);
        lemma_push_op(hw, q3, PinOp::SetOutputs { port: Port::A, mask: SWCLK_TCK }, SWDIO_TMS);
        lemma_push_op(hw, q4, PinOp::Delay { count: delay }, SWDIO_TMS);
        lemma_bits();
        assert(q5 == sample_cycles_ops(p, delay, n));
    }
}

/// The low `n` bits of `bits`, least significant first.
pub open spec fn bits_lsb_first(bits: u32, n: nat) -> Seq<bool> {
    Seq::new(n, |i: int| bit_at(bits, i as nat))
}

/// The data pins the probe clocks bits out on.
pub open spec fn data_pin(mask: u32) -> bool {
    mask == SWDIO_TMS || mask == TDI
}

proof fn lemma_drive_level_bits(x: u32, mask: u32, high: bool)
    requires
        data_pin(mask),
    ensures
        drive_level(x, mask, high) & SWCLK_TCK == 0,
        ((drive_level(x, mask, high) | SWCLK_TCK) & mask != 0) == high,
        (drive_level(x, mask, high) | SWCLK_TCK) & SWCLK_TCK != 0,
{
    if mask == SWDIO_TMS {
        assert(((x | 0x1000_0000u32) & !0x0800_0000u32) & 0x0800_0000u32 == 0 && (x & !(0x1000_0000u32
            | 0x0800_0000u32)) & 0x0800_0000u32 == 0 && (((x | 0x1000_0000u32) & !0x0800_0000u32)
            | 0x0800_0000u32) & 0x1000_0000u32 != 0 && ((x & !(0x1000_0000u32 | 0x0800_0000u32))
            | 0x0800_0000u32) & 0x1000_0000u32 == 0) by (bit_vector);
    } else {
        assert(((x | 0x2000_0000u32) & !0x0800_0000u32) & 0x0800_0000u32 == 0 && (x & !(0x2000_0000u32
            | 0x0800_0000u32)) & 0x0800_0000u32 == 0 && (((x | 0x2000_0000u32) & !0x0800_0000u32)
            | 0x0800_0000u32) & 0x2000_0000u32 != 0 && ((x & !(0x2000_0000u32 | 0x0800_0000u32))
            | 0x0800_0000u32) & 0x2000_0000u32 == 0) by (bit_vector);
    }
    lemma_bits();
}

/// One clocked bit appended to `p`: port A ends at `level` with SWCLK high, and the target
/// sees exactly one rising edge, with the data pin at the level `high` it was driven to.
pub proof fn lemma_clocked_bit(
    hw: FgpioOutputs,
    p: Seq<PinOp>,
    x: u32,
    mask: u32,
    high: bool,
    delay: u8,
    setup_delay: bool,
    hold_delay: bool,
)
    requires
        data_pin(mask),
        run_ops(hw, p).oe_a & mask != 0,
    ensures
        ({
            let level = drive_level(x, mask, high);
            let q = clocked_bit_ops(p, level, delay, setup_delay, hold_delay);
            &&& run_ops(hw, q) == FgpioOutputs { do_a: level | SWCLK_TCK, ..run_ops(hw, p) }
            &&& levels_at_rising_edges(hw, q, mask) == levels_at_rising_edges(hw, p, mask).push(high)
            &&& sample_count(q) == sample_count(p)
        }),
{
    let level = drive_level(x, mask, high);
    lemma_drive_level_bits(x, mask, high);
    let p1 = p.push(PinOp::WriteOutput { port: Port::A, value: level });
    let p2 = if setup_delay {
        p1.push(PinOp::Delay { count: delay })
    } else {
        p1
    };
    let p3 = p2.push(PinOp::SetOutputs { port: Port::A, mask: SWCLK_TCK });
    lemma_push_op(hw, p, PinOp::WriteOutput { port: Port::A, value: level }, mask);
    if setup_delay {
        lemma_push_op(hw, p1, PinOp::Delay { count: delay }, mask);
    }
    lemma_push_op(hw, p2, PinOp::SetOutputs { port: Port::A, mask: SWCLK_TCK }, mask);
    if hold_delay {
        lemma_push_op(hw, p3, PinOp::Delay { count: delay }, mask);
    }
}

/// Clocking out `n` bits appended to `p` leaves port A at `shifted_output` and presents
/// the low `n` bits of `bits`, LSB first, on the rising edges; it takes no samples.
pub proof fn lemma_shift_out(
    hw: FgpioOutputs,
    p: Seq<PinOp>,
    output: u32,
    mask: u32,
    bits: u32,
    n: nat,
    delay: u8,
    setup_delay: bool,
    hold_delay: bool,
)
    requires
        data_pin(mask),
        run_ops(hw, p).oe_a & mask != 0,
    ensures
        ({
            let q = shift_out_ops(p, output, mask, bits, n, delay, setup_delay, hold_delay);
            &&& run_ops(hw, q) == if n == 0 {
                run_ops(hw, p)
            } else {
                FgpioOutputs { do_a: shifted_output(output, mask, bits, n), ..run_ops(hw, p) }
            }
            &&& levels_at_rising_edges(hw, q, mask) == levels_at_rising_edges(hw, p, mask) + bits_lsb_first(
                bits,
                n,
            )
            &&& sample_count(q) == sample_count(p)
        }),
    decreases n,
{
    if n == 0 {
        assert(levels_at_rising_edges(hw, p, mask) + bits_lsb_first(bits, 0) =~= levels_at_rising_edges(
            hw,
            p,
            mask,
        ));
    } else {
        let m = (n - 1) as nat;
        lemma_shift_out(hw, p, output, mask, bits, m, delay, setup_delay, hold_delay);
        let q = shift_out_ops(p, output, mask, bits, m, delay, setup_delay, hold_delay);
        let before = shifted_output(output, mask, bits, m);
        lemma_clocked_bit(hw, q, before, mask, bit_at(bits, m), delay, setup_delay, hold_delay);
        assert(levels_at_rising_edges(hw, p, mask) + bits_lsb_first(bits, n) =~= (
        levels_at_rising_edges(hw, p, mask) + bits_lsb_first(bits, m)).push(bit_at(bits, m)));
    }
}

/// The bits `v`'s pending program drives into the target on SWDIO, starting from `hw`.
pub open spec fn swdio_bits_sent(v: ProbeView, hw: FgpioOutputs) -> Seq<bool> {
    levels_at_rising_edges(hw, v.program, SWDIO_TMS)
}

proof fn lemma_write_a_no_edge(v: ProbeView, hw: FgpioOutputs, o: u32)
    requires
        in_step(v, hw),
        o & SWCLK_TCK == v.output_a & SWCLK_TCK,
    ensures
        swdio_bits_sent(v.emit(PinOp::WriteOutput { port: Port::A, value: o }), hw) == swdio_bits_sent(
            v,
            hw,
        ),
        run_ops(hw, v.emit(PinOp::WriteOutput { port: Port::A, value: o }).program) == (FgpioOutputs {
            do_a: o,
            ..run_ops(hw, v.program)
        }),
{
    lemma_push_op(hw, v.program, PinOp::WriteOutput { port: Port::A, value: o }, SWDIO_TMS);
}

proof fn lemma_drive_a_in_step(v: ProbeView, hw: FgpioOutputs, mask: u32, high: bool)
    requires
        in_step(v, hw),
    ensures
        in_step(v.drive_a(mask, high), hw),
        sample_count(v.drive_a(mask, high).program) == sample_count(v.program),
        mask & SWCLK_TCK == 0 ==> swdio_bits_sent(v.drive_a(mask, high), hw) == swdio_bits_sent(v, hw),
{
    let o = if high {
        v.output_a | mask
    } else {
        v.output_a & !mask
    };
    lemma_push_op(hw, v.program, PinOp::WriteOutput { port: Port::A, value: o }, SWDIO_TMS);
    if mask & SWCLK_TCK == 0 {
        let x = v.output_a;
        assert((x | mask) & 0x0800_0000u32 == x & 0x0800_0000u32 && (x & !mask) & 0x0800_0000u32 == x
            & 0x0800_0000u32) by (bit_vector)
            requires
                mask & 0x0800_0000u32 == 0,
        ;
        lemma_write_a_no_edge(v, hw, o);
    }
}

proof fn lemma_drive_reset_in_step(v: ProbeView, hw: FgpioOutputs, high: bool)
    requires
        in_step(v, hw),
    ensures
        in_step(v.drive_reset(high), hw),
        sample_count(v.drive_reset(high).program) == sample_count(v.program),
        swdio_bits_sent(v.drive_reset(high), hw) == swdio_bits_sent(v, hw),
{
    let o = if high {
        v.output_b | crate::pins::NRESET
    } else {
        v.output_b & !crate::pins::NRESET
    };
    lemma_push_op(hw, v.program, PinOp::WriteOutput { port: Port::B, value: o }, SWDIO_TMS);
}

proof fn lemma_swdio_direction_in_step(v: ProbeView, hw: FgpioOutputs)
    requires
        in_step(v, hw),
    ensures
        in_step(v.swdio_to_output(), hw),
        in_step(v.swdio_to_input(), hw),
        sample_count(v.swdio_to_output().program) == sample_count(v.program),
        sample_count(v.swdio_to_input().program) == sample_count(v.program),
        swdio_bits_sent(v.swdio_to_output(), hw) == swdio_bits_sent(v, hw),
        swdio_bits_sent(v.swdio_to_input(), hw) == swdio_bits_sent(v, hw),
{
    lemma_push_op(hw, v.program, PinOp::EnableOutputs { port: Port::A, mask: SWDIO_TMS }, SWDIO_TMS);
    lemma_push_op(hw, v.program, PinOp::DisableOutputs { port: Port::A, mask: SWDIO_TMS }, SWDIO_TMS);
    lemma_bits();
    let oe = run_ops(hw, v.program).oe_a;
    assert((oe | 0x1000_0000u32) & 0x2000_0000u32 != 0 && (oe & !0x1000_0000u32) & 0x2000_0000u32 != 0)
        by (bit_vector)
        requires
            oe & 0x2000_0000u32 != 0,
    ;
}

proof fn lemma_led_in_step(v: ProbeView, hw: FgpioOutputs, lit: bool)
    requires
        in_step(v, hw),
    ensures
        in_step(v.led(lit), hw),
        sample_count(v.led(lit).program) == sample_count(v.program),
        swdio_bits_sent(v.led(lit), hw) == swdio_bits_sent(v, hw),
{
    let o = (v.output_a & !ACTIVITY_LED) | led_level(lit);
    lemma_push_op(hw, v.program, PinOp::WriteOutput { port: Port::A, value: o }, SWDIO_TMS);
    let x = v.output_a;
    assert(((x & !0x0000_0400u32) | 0x0000_0400u32) & 0x0800_0000u32 == x & 0x0800_0000u32 && ((x
        & !0x0000_0400u32) | 0u32) & 0x0800_0000u32 == x & 0x0800_0000u32) by (bit_vector);
    if v.led_lit != lit {
        lemma_write_a_no_edge(v, hw, o);
    }
}

proof fn lemma_poll_led_in_step(v: ProbeView, hw: FgpioOutputs, now: u64)
    requires
        in_step(v, hw),
    ensures
        in_step(v.led_busy(now), hw),
        in_step(v.led_idle(), hw),
        in_step(v.poll_led(now), hw),
        sample_count(v.led_busy(now).program) == sample_count(v.program),
        sample_count(v.led_idle().program) == sample_count(v.program),
        sample_count(v.poll_led(now).program) == sample_count(v.program),
        swdio_bits_sent(v.poll_led(now), hw) == swdio_bits_sent(v, hw),
        swdio_bits_sent(v.led_busy(now), hw) == swdio_bits_sent(v, hw),
        swdio_bits_sent(v.led_idle(), hw) == swdio_bits_sent(v, hw),
{
    let next = vstd::wrapping::u64_specs::wrapping_add(now, v.led_toggle_ticks);
    lemma_led_in_step(ProbeView { led_active: true, led_next_toggle: next, ..v }, hw, true);
    lemma_led_in_step(ProbeView { led_next_toggle: next, ..v }, hw, !v.led_lit);
    lemma_led_in_step(ProbeView { led_active: false, led_poll_count: 0, ..v }, hw, false);
    let w = ProbeView { led_poll_count: crate::probe::ACTIVITY_LED_POLL_INTERVAL, ..v };
    lemma_led_in_step(ProbeView { led_active: true, led_next_toggle: next, ..w }, hw, true);
    lemma_led_in_step(ProbeView { led_next_toggle: next, ..w }, hw, !w.led_lit);
}

proof fn lemma_clock_cycle_in_step(v: ProbeView, hw: FgpioOutputs, delay: u8)
    requires
        in_step(v, hw),
    ensures
        in_step(v.clock_cycle(delay), hw),
        sample_count(v.clock_cycle(delay).program) == sample_count(v.program),
        !v.swdio_output_enabled ==> swdio_bits_sent(v.clock_cycle(delay), hw) == swdio_bits_sent(v, hw),
        v.swdio_output_enabled ==> swdio_bits_sent(v.clock_cycle(delay), hw) == swdio_bits_sent(
            v,
            hw,
        ).push(v.output_a & SWDIO_TMS != 0),
{
    let p = v.program;
    let p1 = p.push(PinOp::ClearOutputs { port: Port::A, mask: SWCLK_TCK });
    let p2 = p1.push(PinOp::Delay { count: delay });
    let p3 = p2.push(PinOp::SetOutputs { port: Port::A, mask: SWCLK_TCK });
    lemma_push_op(hw, p, PinOp::ClearOutputs { port: Port::A, mask: SWCLK_TCK }, SWDIO_TMS);
    lemma_push_op(hw, p1, PinOp::Delay { count: delay }, SWDIO_TMS);
    lemma_push_op(hw, p2, PinOp::SetOutputs { port: Port::A, mask: SWCLK_TCK }, SWDIO_TMS);
    lemma_push_op(hw, p3, PinOp::Delay { count: delay }, SWDIO_TMS);
    lemma_bits();
    let x = v.output_a;
    assert(((x & !0x0800_0000u32) | 0x0800_0000u32) & 0x1000_0000u32 == x & 0x1000_0000u32)
        by (bit_vector);
}

proof fn lemma_sample_cycles_in_step(v: ProbeView, hw: FgpioOutputs, n: nat)
    requires
        in_step(v, hw),
        n > 0 || v.output_a & SWCLK_TCK != 0,
    ensures
        in_step(v.sample_cycles(n), hw),
        sample_count(v.sample_cycles(n).program) == sample_count(v.program) + n,
        !v.swdio_output_enabled ==> swdio_bits_sent(v.sample_cycles(n), hw) == swdio_bits_sent(v, hw),
{
    lemma_sample_cycles_registers(hw, v.program, v.half_period_delay, n);
    if n == 0 {
        let o = v.output_a;
        assert(o | 0x0800_0000u32 == o) by (bit_vector)
            requires
                o & 0x0800_0000u32 != 0,
        ;
    }
}

/// Clocking out bits on a pin that is an input changes the registers as when it is an
/// output, and takes no samples.
proof fn lemma_shift_out_registers(
    hw: FgpioOutputs,
    p: Seq<PinOp>,
    output: u32,
    mask: u32,
    bits: u32,
    n: nat,
    delay: u8,
    setup_delay: bool,
    hold_delay: bool,
)
    requires
        data_pin(mask),
    ensures
        ({
            let q = shift_out_ops(p, output, mask, bits, n, delay, setup_delay, hold_delay);
            &&& run_ops(hw, q) == if n == 0 {
                run_ops(hw, p)
            } else {
                FgpioOutputs { do_a: shifted_output(output, mask, bits, n), ..run_ops(hw, p) }
            }
            &&& sample_count(q) == sample_count(p)
        }),
    decreases n,
{
    if n > 0 {
        let m = (n - 1) as nat;
        lemma_shift_out_registers(hw, p, output, mask, bits, m, delay, setup_delay, hold_delay);
        let q = shift_out_ops(p, output, mask, bits, m, delay, setup_delay, hold_delay);
        let level = drive_level(shifted_output(output, mask, bits, m), mask, bit_at(bits, m));
        let q1 = q.push(PinOp::WriteOutput { port: Port::A, value: level });
        let q2 = if setup_delay {
            q1.push(PinOp::Delay { count: delay })
        } else {
            q1
        };
        let q3 = q2.push(PinOp::SetOutputs { port: Port::A, mask: SWCLK_TCK });
        lemma_push_op(hw, q, PinOp::WriteOutput { port: Port::A, value: level }, mask);
        if setup_delay {
            lemma_push_op(hw, q1, PinOp::Delay { count: delay }, mask);
        }
        lemma_push_op(hw, q2, PinOp::SetOutputs { port: Port::A, mask: SWCLK_TCK }, mask);
        if hold_delay {
            lemma_push_op(hw, q3, PinOp::Delay { count: delay }, mask);
        }
    }
}

proof fn lemma_shift_out_in_step(
    v: ProbeView,
    hw: FgpioOutputs,
    mask: u32,
    bits: u32,
    n: nat,
    delay: u8,
    setup_delay: bool,
    hold_delay: bool,
)
    requires
        in_step(v, hw),
        data_pin(mask),
    ensures
        in_step(v.shift_out(mask, bits, n, delay, setup_delay, hold_delay), hw),
        sample_count(v.shift_out(mask, bits, n, delay, setup_delay, hold_delay).program)
            == sample_count(v.program),
        mask == TDI || v.swdio_output_enabled ==> levels_at_rising_edges(
            hw,
            v.shift_out(mask, bits, n, delay, setup_delay, hold_delay).program,
            mask,
        ) == levels_at_rising_edges(hw, v.program, mask) + bits_lsb_first(bits, n),
{
    if mask == TDI || v.swdio_output_enabled {
        lemma_shift_out(hw, v.program, v.output_a, mask, bits, n, delay, setup_delay, hold_delay);
    } else {
        lemma_shift_out_registers(hw, v.program, v.output_a, mask, bits, n, delay, setup_delay, hold_delay);
    }
}

proof fn lemma_write_data_bits_in_step(v: ProbeView, hw: FgpioOutputs, bits: u32, n: nat)
    requires
        in_step(v, hw),
    ensures
        in_step(v.write_bits(bits, n), hw),
        in_step(v.write_data_bits(bits, n), hw),
        sample_count(v.write_bits(bits, n).program) == sample_count(v.program),
        sample_count(v.write_data_bits(bits, n).program) == sample_count(v.program),
        v.swdio_output_enabled ==> levels_at_rising_edges(hw, v.write_bits(bits, n).program, SWDIO_TMS)
            == levels_at_rising_edges(hw, v.program, SWDIO_TMS) + bits_lsb_first(bits, n),
        v.swdio_output_enabled ==> levels_at_rising_edges(
            hw,
            v.write_data_bits(bits, n).program,
            SWDIO_TMS,
        ) == levels_at_rising_edges(hw, v.program, SWDIO_TMS) + bits_lsb_first(bits, n),
{
    lemma_shift_out_in_step(v, hw, SWDIO_TMS, bits, n, v.half_period_delay, true, true);
    lemma_shift_out_in_step(v, hw, SWDIO_TMS, bits, n, 0, false, false);
    lemma_shift_out_in_step(v, hw, SWDIO_TMS, bits, n, 1, true, false);
}

proof fn lemma_write_bit_cycle_in_step(v: ProbeView, hw: FgpioOutputs, high: bool)
    requires
        in_step(v, hw),
    ensures
        in_step(v.write_bit_cycle(high), hw),
        sample_count(v.write_bit_cycle(high).program) == sample_count(v.program),
        v.swdio_output_enabled ==> levels_at_rising_edges(hw, v.write_bit_cycle(high).program, SWDIO_TMS)
            == levels_at_rising_edges(hw, v.program, SWDIO_TMS).push(high),
{
    let level = drive_level(v.output_a, SWDIO_TMS, high);
    lemma_drive_level_bits(v.output_a, SWDIO_TMS, high);
    let d = v.half_period_delay;
    let p = v.program;
    let p1 = p.push(PinOp::WriteOutput { port: Port::A, value: level });
    let p2 = p1.push(PinOp::Delay { count: d });
    let p3 = p2.push(PinOp::WriteOutput { port: Port::A, value: level | SWCLK_TCK });
    lemma_push_op(hw, p, PinOp::WriteOutput { port: Port::A, value: level }, SWDIO_TMS);
    lemma_push_op(hw, p1, PinOp::Delay { count: d }, SWDIO_TMS);
    lemma_push_op(hw, p2, PinOp::WriteOutput { port: Port::A, value: level | SWCLK_TCK }, SWDIO_TMS);
    lemma_push_op(hw, p3, PinOp::Delay { count: d }, SWDIO_TMS);
}

proof fn lemma_tdi_tdo_cycle_in_step(v: ProbeView, hw: FgpioOutputs, high: bool)
    requires
        in_step(v, hw),
    ensures
        in_step(v.tdi_tdo_cycle(high), hw),
        sample_count(v.tdi_tdo_cycle(high).program) == sample_count(v.program) + 1,
        levels_at_rising_edges(hw, v.tdi_tdo_cycle(high).program, TDI) == levels_at_rising_edges(
            hw,
            v.program,
            TDI,
        ).push(high),
{
    let level = drive_level(v.output_a, TDI, high);
    lemma_drive_level_bits(v.output_a, TDI, high);
    let d = v.half_period_delay;
    let p = v.program;
    let p1 = p.push(PinOp::WriteOutput { port: Port::A, value: level });
    let p2 = p1.push(PinOp::Delay { count: d });
    let p3 = p2.push(PinOp::Sample { port: Port::A });
    let p4 = p3.push(PinOp::SetOutputs { port: Port::A, mask: SWCLK_TCK });
    lemma_push_op(hw, p, PinOp::WriteOutput { port: Port::A, value: level }, TDI);
    lemma_push_op(hw, p1, PinOp::Delay { count: d }, TDI);
    lemma_push_op(hw, p2, PinOp::Sample { port: Port::A }, TDI);
    lemma_push_op(hw, p3, PinOp::SetOutputs { port: Port::A, mask: SWCLK_TCK }, TDI);
    lemma_push_op(hw, p4, PinOp::Delay { count: d }, TDI);
}

proof fn lemma_request_and_ack_in_step(v: ProbeView, hw: FgpioOutputs, swd_request: u8)
    requires
        in_step(v, hw),
    ensures
        in_step(v.request_and_ack(swd_request), hw),
        sample_count(v.request_and_ack(swd_request).program) == sample_count(v.program) + 3,
        !v.request_and_ack(swd_request).swdio_output_enabled,
        v.swdio_output_enabled ==> swdio_bits_sent(v.request_and_ack(swd_request), hw)
            == swdio_bits_sent(v, hw) + bits_lsb_first(swd_request as u32, 8),
{
    let v1 = v.write_data_bits(swd_request as u32, 8);
    lemma_write_data_bits_in_step(v, hw, swd_request as u32, 8);
    let v2 = v1.swdio_to_input();
    lemma_swdio_direction_in_step(v1, hw);
    let v3 = v2.clock_cycle(v.write_half_period_delay);
    lemma_clock_cycle_in_step(v2, hw, v.write_half_period_delay);
    lemma_sample_cycles_in_step(v3, hw, 3);
}

proof fn lemma_recovery_in_step(v: ProbeView, hw: FgpioOutputs)
    requires
        in_step(v, hw),
    ensures
        in_step(v.protocol_error_recovery(), hw),
        sample_count(v.protocol_error_recovery().program) == sample_count(v.program) + 34,
        swdio_bits_sent(v.protocol_error_recovery(), hw) == swdio_bits_sent(v, hw),
        v.protocol_error_recovery().swdio_output_enabled,
{
    let v1 = v.swdio_to_input();
    lemma_swdio_direction_in_step(v, hw);
    let v2 = v1.sample_cycles(34);
    lemma_sample_cycles_in_step(v1, hw, 34);
    let v3 = v2.swdio_to_output();
    lemma_swdio_direction_in_step(v2, hw);
    lemma_drive_a_in_step(v3, hw, SWDIO_TMS, true);
    lemma_bits();
}

proof fn lemma_turnaround_in_step(v: ProbeView, hw: FgpioOutputs)
    requires
        in_step(v, hw),
    ensures
        in_step(v.turnaround_to_output(), hw),
        in_step(v.turnaround_to_output().drive_a(SWDIO_TMS, true), hw),
        sample_count(v.turnaround_to_output().program) == sample_count(v.program),
        sample_count(v.turnaround_to_output().drive_a(SWDIO_TMS, true).program) == sample_count(
            v.program,
        ),
        !v.swdio_output_enabled ==> swdio_bits_sent(v.turnaround_to_output(), hw) == swdio_bits_sent(
            v,
            hw,
        ),
        !v.swdio_output_enabled ==> swdio_bits_sent(
            v.turnaround_to_output().drive_a(SWDIO_TMS, true),
            hw,
        ) == swdio_bits_sent(v, hw),
        v.turnaround_to_output().swdio_output_enabled,
{
    let v1 = v.clock_cycle(v.write_half_period_delay);
    lemma_clock_cycle_in_step(v, hw, v.write_half_period_delay);
    lemma_swdio_direction_in_step(v1, hw);
    lemma_drive_a_in_step(v.turnaround_to_output(), hw, SWDIO_TMS, true);
    lemma_bits();
}

proof fn lemma_begin_transfer_in_step(v: ProbeView, hw: FgpioOutputs, swd_request: u8, now: u64)
    requires
        in_step(v, hw),
    ensures
        in_step(v.begin_transfer(swd_request, now), hw),
        sample_count(v.begin_transfer(swd_request, now).program) == sample_count(v.program) + 3,
        swdio_bits_sent(v.begin_transfer(swd_request, now), hw) == swdio_bits_sent(v, hw)
            + bits_lsb_first(swd_request as u32, 8),
        !v.begin_transfer(swd_request, now).swdio_output_enabled,
{
    let v1 = v.poll_led(now);
    lemma_poll_led_in_step(v, hw, now);
    let v2 = v1.swdio_to_output();
    lemma_swdio_direction_in_step(v1, hw);
    lemma_request_and_ack_in_step(v2, hw, swd_request);
}

/// The samples a write acknowledge `ack` makes the probe take: only the protocol-error
/// recovery samples (34).
pub open spec fn write_ack_samples(ack: u8) -> nat {
    if ack == ACK_OK || ack == ACK_WAIT || ack == ACK_FAULT {
        0
    } else {
        34
    }
}

/// The samples a read acknowledge `ack` makes the probe take: the 32 data bits and the
/// parity bit on OK, the recovery samples (34) on anything but WAIT or FAULT.
pub open spec fn read_ack_samples(ack: u8) -> nat {
    if ack == ACK_OK {
        33
    } else if ack == ACK_WAIT || ack == ACK_FAULT {
        0
    } else {
        34
    }
}

proof fn lemma_after_write_ack_in_step(v: ProbeView, hw: FgpioOutputs, ack: u8, data: u32)
    requires
        in_step(v, hw),
    ensures
        in_step(v.after_write_ack(ack, data), hw),
        sample_count(v.after_write_ack(ack, data).program) == sample_count(v.program)
            + write_ack_samples(ack),
        !v.swdio_output_enabled ==> swdio_bits_sent(v.after_write_ack(ack, data), hw) == if ack == ACK_OK {
            swdio_bits_sent(v, hw) + bits_lsb_first(data, 32) + bits_lsb_first(parity_bit(data), 1)
        } else {
            swdio_bits_sent(v, hw)
        },
        v.after_write_ack(ack, data).swdio_output_enabled,
{
    lemma_turnaround_in_step(v, hw);
    lemma_recovery_in_step(v, hw);
    let t = v.turnaround_to_output();
    lemma_write_data_bits_in_step(t, hw, data, 32);
    let w = t.write_data_bits(data, 32);
    lemma_write_data_bits_in_step(w, hw, parity_bit(data), 1);
    let x = w.write_data_bits(parity_bit(data), 1);
    lemma_drive_a_in_step(x, hw, SWDIO_TMS, true);
    lemma_bits();
}

proof fn lemma_after_read_ack_in_step(v: ProbeView, hw: FgpioOutputs, ack: u8)
    requires
        in_step(v, hw),
    ensures
        in_step(v.after_read_ack(ack), hw),
        sample_count(v.after_read_ack(ack).program) == sample_count(v.program) + read_ack_samples(ack),
        !v.swdio_output_enabled ==> swdio_bits_sent(v.after_read_ack(ack), hw) == swdio_bits_sent(v, hw),
        v.after_read_ack(ack).swdio_output_enabled,
{
    lemma_turnaround_in_step(v, hw);
    lemma_recovery_in_step(v, hw);
    let s32 = v.sample_cycles(32);
    lemma_sample_cycles_in_step(v, hw, 32);
    lemma_sample_cycles_in_step(s32, hw, 1);
    let s33 = s32.sample_cycles(1);
    lemma_turnaround_in_step(s33, hw);
}

/// The probe operations that queue register accesses.
pub ghost enum ProbeOp {
    SetClockHz { hz: u32 },
    SwdioOutput,
    SwdioInput,
    SetSwdioTms { high: bool },
    SetTdi { high: bool },
    SetSwclkTck { high: bool },
    SetReset { high: bool },
    ActivityLedBusy { now: u64 },
    ActivityLedIdle,
    /// `swclk_cycle` and `tck_cycle`.
    SwclkCycle,
    /// `swclk_sample_swdio`, `tck_sample_tdo`, `swclk_sample_swdio_3bits` (3) and
    /// `swclk_sample_swdio_bits`.
    SampleCycles { count: nat },
    SwdWriteBitCycle { high: bool },
    SwdWriteBits { bits: u32, count: nat },
    SwdWriteDataBits { bits: u32, count: nat },
    JtagCycleTdi { high: bool },
    JtagCycleTdio { high: bool },
    /// `swd_write_transfer_fast` and `swd_read_transfer_fast`.
    BeginTransfer { swd_request: u8, now: u64 },
    /// `swd_write_transfer_finish`.
    WriteTransferFinish { ack: u8, data: u32 },
    /// `swd_read_transfer_ack`.
    ReadTransferAck { ack: u8 },
}

/// The state after operation `op`, as the operation's own contract states it.
pub open spec fn probe_op_effect(v: ProbeView, op: ProbeOp) -> ProbeView {
    match op {
        ProbeOp::SetClockHz { hz } => v.with_clock(hz),
        ProbeOp::SwdioOutput => v.swdio_to_output(),
        ProbeOp::SwdioInput => v.swdio_to_input(),
        ProbeOp::SetSwdioTms { high } => v.drive_a(SWDIO_TMS, high),
        ProbeOp::SetTdi { high } => v.drive_a(TDI, high),
        ProbeOp::SetSwclkTck { high } => v.drive_a(SWCLK_TCK, high),
        ProbeOp::SetReset { high } => v.drive_reset(high),
        ProbeOp::ActivityLedBusy { now } => v.led_busy(now),
        ProbeOp::ActivityLedIdle => v.led_idle(),
        ProbeOp::SwclkCycle => v.clock_cycle(v.half_period_delay),
        ProbeOp::SampleCycles { count } => v.sample_cycles(count),
        ProbeOp::SwdWriteBitCycle { high } => v.write_bit_cycle(high),
        ProbeOp::SwdWriteBits { bits, count } => v.write_bits(bits, count),
        ProbeOp::SwdWriteDataBits { bits, count } => v.write_data_bits(bits, count),
        ProbeOp::JtagCycleTdi { high } => v.clock_out_bit(
            TDI,
            high,
            v.write_half_period_delay,
            true,
            true,
        ),
        ProbeOp::JtagCycleTdio { high } => v.tdi_tdo_cycle(high),
        ProbeOp::BeginTransfer { swd_request, now } => v.begin_transfer(swd_request, now),
        ProbeOp::WriteTransferFinish { ack, data } => v.after_write_ack(ack, data),
        ProbeOp::ReadTransferAck { ack } => v.after_read_ack(ack),
    }
}

/// The input samples operation `op` takes.
pub open spec fn probe_op_samples(op: ProbeOp) -> nat {
    match op {
        ProbeOp::SampleCycles { count } => count,
        ProbeOp::JtagCycleTdio { .. } => 1,
        ProbeOp::BeginTransfer { .. } => 3,
        ProbeOp::WriteTransferFinish { ack, .. } => write_ack_samples(ack),
        ProbeOp::ReadTransferAck { ack } => read_ack_samples(ack),
        _ => 0,
    }
}

/// A fresh probe's shadow registers are what its setup program leaves in the FGPIO
/// registers, whatever they held before: SWCLK low, SWDIO, TDI and nRESET high, the LED
/// dark (its pin high), SWDIO an output; the setup program takes no samples.
pub proof fn lemma_fresh_probe_in_step(led_toggle_ticks: u64, hw: FgpioOutputs)
    ensures
        in_step(initial_view(led_toggle_ticks), hw),
        sample_count(initial_view(led_toggle_ticks).program) == 0,
        initial_view(led_toggle_ticks).output_a & SWCLK_TCK == 0,
        initial_view(led_toggle_ticks).output_a & SWDIO_TMS != 0,
        initial_view(led_toggle_ticks).output_a & TDI != 0,
        initial_view(led_toggle_ticks).output_a & ACTIVITY_LED != 0,
        initial_view(led_toggle_ticks).output_b & crate::pins::NRESET != 0,
{
    reveal_with_fuel(run_ops, 18);
    reveal_with_fuel(sample_count, 18);
    let oe = hw.oe_a;
    assert(((oe | 0x3800_0400u32) & !0x0400_0000u32) & 0x1000_0000u32 != 0 && ((oe | 0x3800_0400u32)
        & !0x0400_0000u32) & 0x2000_0000u32 != 0) by (bit_vector);
    assert((0x1000_0000u32 | 0x2000_0000u32 | 0x0000_0400u32) & 0x0800_0000u32 == 0 && (0x1000_0000u32
        | 0x2000_0000u32 | 0x0000_0400u32) & 0x1000_0000u32 != 0 && (0x1000_0000u32 | 0x2000_0000u32
        | 0x0000_0400u32) & 0x2000_0000u32 != 0 && (0x1000_0000u32 | 0x2000_0000u32 | 0x0000_0400u32)
        & 0x0000_0400u32 != 0 && 0x0000_0400u32 & 0x0000_0400u32 != 0u32) by (bit_vector);
}

/// Every probe operation keeps the shadow registers equal to what the FGPIO output
/// registers hold once the pending program has run, and adds to the program exactly the
/// input samples the matching decoder reads. The one exception: sampling zero cycles
/// while SWCLK is low records SWCLK as high without driving it.
pub proof fn lemma_probe_ops_keep_registers_in_step(v: ProbeView, hw: FgpioOutputs, op: ProbeOp)
    requires
        in_step(v, hw),
        !(op matches ProbeOp::SampleCycles { count } && count == 0 && v.output_a & SWCLK_TCK == 0),
    ensures
        in_step(probe_op_effect(v, op), hw),
        sample_count(probe_op_effect(v, op).program) == sample_count(v.program) + probe_op_samples(op),
{
    match op {
        ProbeOp::SetClockHz { hz } => {},
        ProbeOp::SwdioOutput => lemma_swdio_direction_in_step(v, hw),
        ProbeOp::SwdioInput => lemma_swdio_direction_in_step(v, hw),
        ProbeOp::SetSwdioTms { high } => lemma_drive_a_in_step(v, hw, SWDIO_TMS, high),
        ProbeOp::SetTdi { high } => lemma_drive_a_in_step(v, hw, TDI, high),
        ProbeOp::SetSwclkTck { high } => lemma_drive_a_in_step(v, hw, SWCLK_TCK, high),
        ProbeOp::SetReset { high } => lemma_drive_reset_in_step(v, hw, high),
        ProbeOp::ActivityLedBusy { now } => lemma_poll_led_in_step(v, hw, now),
        ProbeOp::ActivityLedIdle => lemma_poll_led_in_step(v, hw, 0),
        ProbeOp::SwclkCycle => lemma_clock_cycle_in_step(v, hw, v.half_period_delay),
        ProbeOp::SampleCycles { count } => lemma_sample_cycles_in_step(v, hw, count),
        ProbeOp::SwdWriteBitCycle { high } => lemma_write_bit_cycle_in_step(v, hw, high),
        ProbeOp::SwdWriteBits { bits, count } => lemma_write_data_bits_in_step(v, hw, bits, count),
        ProbeOp::SwdWriteDataBits { bits, count } => lemma_write_data_bits_in_step(v, hw, bits, count),
        ProbeOp::JtagCycleTdi { high } => lemma_jtag_bit(v, hw, high),
        ProbeOp::JtagCycleTdio { high } => lemma_tdi_tdo_cycle_in_step(v, hw, high),
        ProbeOp::BeginTransfer { swd_request, now } => lemma_begin_transfer_in_step(
            v,
            hw,
            swd_request,
            now,
        ),
        ProbeOp::WriteTransferFinish { ack, data } => lemma_after_write_ack_in_step(v, hw, ack, data),
        ProbeOp::ReadTransferAck { ack } => lemma_after_read_ack_in_step(v, hw, ack),
    }
}

proof fn lemma_jtag_bit(v: ProbeView, hw: FgpioOutputs, high: bool)
    requires
        in_step(v, hw),
    ensures
        in_step(v.clock_out_bit(TDI, high, v.write_half_period_delay, true, true), hw),
        sample_count(v.clock_out_bit(TDI, high, v.write_half_period_delay, true, true).program)
            == sample_count(v.program),
        levels_at_rising_edges(
            hw,
            v.clock_out_bit(TDI, high, v.write_half_period_delay, true, true).program,
            TDI,
        ) == levels_at_rising_edges(hw, v.program, TDI).push(high),
{
    lemma_clocked_bit(hw, v.program, v.output_a, TDI, high, v.write_half_period_delay, true, true);
}

/// The parity bit goes out as one bit: whether the data word has an odd number of ones.
proof fn lemma_parity_bit_bits(data: u32)
    ensures
        bits_lsb_first(parity_bit(data), 1) == seq![odd_ones_below(data, 32)],
{
    assert((1u32 >> 0u32) & 1 == 1 && (0u32 >> 0u32) & 1 == 0) by (bit_vector);
    assert(bits_lsb_first(parity_bit(data), 1) =~= seq![odd_ones_below(data, 32)]);
}

/// On the wire, a fast SWD write drives into the target on SWDIO exactly the eight request
/// bits and, when the target acknowledges OK, the 32 data bits and their parity bit, each
/// LSB first; nothing else is driven while the target owns SWDIO. The request phase takes
/// exactly the three acknowledge samples, and the acknowledge handling takes exactly the
/// samples `write_ack_samples` names. The shadow registers stay in step throughout.
pub proof fn lemma_write_transfer_on_the_wire(
    v: ProbeView,
    hw: FgpioOutputs,
    swd_request: u8,
    now: u64,
    ack: u8,
    data: u32,
)
    requires
        in_step(v, hw),
    ensures
        ({
            let started = v.begin_transfer(swd_request, now);
            let finished = started.after_write_ack(ack, data);
            &&& sample_count(started.program) == sample_count(v.program) + 3
            &&& sample_count(finished.program) == sample_count(started.program) + write_ack_samples(ack)
            &&& swdio_bits_sent(finished, hw) == swdio_bits_sent(v, hw) + bits_lsb_first(
                swd_request as u32,
                8,
            ) + if ack == ACK_OK {
                bits_lsb_first(data, 32).push(odd_ones_below(data, 32))
            } else {
                Seq::empty()
            }
            &&& in_step(finished, hw)
        }),
{
    let started = v.begin_transfer(swd_request, now);
    lemma_begin_transfer_in_step(v, hw, swd_request, now);
    lemma_after_write_ack_in_step(started, hw, ack, data);
    lemma_parity_bit_bits(data);
    let pre = swdio_bits_sent(v, hw) + bits_lsb_first(swd_request as u32, 8);
    if ack == ACK_OK {
        assert(pre + bits_lsb_first(data, 32) + seq![odd_ones_below(data, 32)] =~= pre + bits_lsb_first(
            data,
            32,
        ).push(odd_ones_below(data, 32)));
    } else {
        assert(pre + Seq::empty() =~= pre);
    }
}

/// On the wire, a fast SWD read drives into the target on SWDIO exactly the eight request
/// bits, LSB first, whatever the acknowledge; the request phase takes exactly the three
/// acknowledge samples, and the acknowledge handling exactly the samples
/// `read_ack_samples` names (32 data bits and parity on OK). The shadow registers stay in
/// step throughout.
pub proof fn lemma_read_transfer_on_the_wire(
    v: ProbeView,
    hw: FgpioOutputs,
    swd_request: u8,
    now: u64,
    ack: u8,
)
    requires
        in_step(v, hw),
    ensures
        ({
            let started = v.begin_transfer(swd_request, now);
            let finished = started.after_read_ack(ack);
            &&& sample_count(started.program) == sample_count(v.program) + 3
            &&& sample_count(finished.program) == sample_count(started.program) + read_ack_samples(ack)
            &&& swdio_bits_sent(finished, hw) == swdio_bits_sent(v, hw) + bits_lsb_first(
                swd_request as u32,
                8,
            )
            &&& in_step(finished, hw)
        }),
{
    let started = v.begin_transfer(swd_request, now);
    lemma_begin_transfer_in_step(v, hw, swd_request, now);
    lemma_after_read_ack_in_step(started, hw, ack);
}

/// The request byte of a CMSIS-DAP request goes out as: start bit (1), APnDP, RnW, A2, A3,
/// the parity of those four, stop bit (0), park bit (1).
pub proof fn lemma_request_bits_on_the_wire(dap_request: u8)
    ensures
        bits_lsb_first(swd_request_spec(dap_request) as u32, 8) == seq![
            true,
            bit_at(dap_request as u32, 0),
            bit_at(dap_request as u32, 1),
            bit_at(dap_request as u32, 2),
            bit_at(dap_request as u32, 3),
            odd_ones_below(dap_request as u32, 4),
            false,
            true,
        ],
{
    reveal_with_fuel(odd_ones_below, 5);
    let d = dap_request;
    let r = swd_request_spec(dap_request);
    let p = odd_ones_below(dap_request as u32, 4);
    assert(d & 0x0f <= 15) by (bit_vector);
    assert(r == (1 + 2 * (d & 0x0f) + (if p { 0x20int } else { 0int }) + 0x80) as u8);
    let rw = r as u32;
    let dw = d as u32;
    assert(((rw >> 0u32) & 1 == 1) && ((rw >> 1u32) & 1 == 1) == ((dw >> 0u32) & 1 == 1) && ((rw
        >> 2u32) & 1 == 1) == ((dw >> 1u32) & 1 == 1) && ((rw >> 3u32) & 1 == 1) == ((dw >> 2u32) & 1
        == 1) && ((rw >> 4u32) & 1 == 1) == ((dw >> 3u32) & 1 == 1) && ((rw >> 5u32) & 1 == 1) == p
        && !((rw >> 6u32) & 1 == 1) && ((rw >> 7u32) & 1 == 1)) by (bit_vector)
        requires
            rw == r as u32,
            dw == d as u32,
            r == (1u8 + 2u8 * (d & 0x0f) + (if p { 0x20u8 } else { 0u8 }) + 0x80u8),
    ;
    assert(bits_lsb_first(r as u32, 8) =~= seq![
        true,
        bit_at(dw, 0),
        bit_at(dw, 1),
        bit_at(dw, 2),
        bit_at(dw, 3),
        p,
        false,
        true,
    ]);
}

/// Taking the pending program and performing it moves the starting registers on to what
/// it leaves: the shadow registers stay in step with an empty program.
pub proof fn lemma_take_program_in_step(v: ProbeView, hw: FgpioOutputs)
    requires
        in_step(v, hw),
    ensures
        in_step(ProbeView { program: Seq::empty(), ..v }, run_ops(hw, v.program)),
{
}

/// A block write's progress: an OK acknowledge sends the current word (bytes `4 done ..
/// 4 done + 4`, little endian, then its parity) and counts it; any other acknowledge
/// counts nothing; the words counted never exceed the words asked for; while it waits for
/// another acknowledge words are left and it has requested the next one; a WAIT it retries
/// spends one retry of the current word, and the next word starts with the full WAIT
/// budget; when it ends it reports the words sent, and it ends OK exactly when all of them
/// were sent.
pub proof fn lemma_write_block_progress(
    v: ProbeView,
    hw: FgpioOutputs,
    b: BlockView,
    ack: u8,
    data: Seq<u8>,
    now: u64,
)
    requires
        b.done < b.count,
        b.count <= usize::MAX,
        b.retry <= b.wait_retries,
        in_step(v, hw),
        !v.swdio_output_enabled,
    ensures
        ({
            let (w, nb, step) = write_block_after_ack(v, b, ack, data, now);
            let word = block_word(data, b.done as int);
            &&& nb.count == b.count && nb.swd_request == b.swd_request && nb.wait_retries
                == b.wait_retries
            &&& nb.done == if ack == ACK_OK {
                b.done + 1
            } else {
                b.done
            }
            &&& nb.done <= nb.count
            &&& nb.retry <= nb.wait_retries
            &&& in_step(w, hw)
            &&& (step is AwaitAck ==> nb.done < nb.count && !w.swdio_output_enabled && sample_count(
                w.program,
            ) == sample_count(v.program) + 3)
            &&& (step matches WriteBlockStep::Finished(r) ==> r.done == nb.done && (r.status
                == TransferStatus::Success <==> nb.done == nb.count) && sample_count(w.program)
                == sample_count(v.program) + write_ack_samples(ack))
            &&& (ack == ACK_WAIT ==> (step is AwaitAck <==> b.retry > 0))
            &&& (ack == ACK_WAIT && step is AwaitAck ==> nb.retry == b.retry - 1)
            &&& (ack == ACK_OK && step is AwaitAck ==> nb.retry == nb.wait_retries)
            &&& (ack == ACK_OK ==> swdio_bits_sent(w, hw) == swdio_bits_sent(v, hw)
                + bits_lsb_first(word, 32).push(odd_ones_below(word, 32)) + if step is AwaitAck {
                bits_lsb_first(b.swd_request as u32, 8)
            } else {
                Seq::empty()
            })
        }),
{
    let word = block_word(data, b.done as int);
    let a = v.after_write_ack(ack, word);
    lemma_after_write_ack_in_step(v, hw, ack, word);
    lemma_parity_bit_bits(word);
    lemma_poll_led_in_step(a, hw, now);
    let polled = a.poll_led(now);
    lemma_request_and_ack_in_step(polled, hw, b.swd_request);
    lemma_request_and_ack_in_step(a, hw, b.swd_request);
    let base = swdio_bits_sent(v, hw) + bits_lsb_first(word, 32).push(odd_ones_below(word, 32));
    assert(swdio_bits_sent(v, hw) + bits_lsb_first(word, 32) + bits_lsb_first(parity_bit(word), 1)
        =~= base);
    assert(base + Seq::empty() =~= base);
}

/// Starting a block write: with no words it ends OK at once, having sent nothing; with
/// words it takes SWDIO, sends the request (LSB first), hands SWDIO to the target and
/// queues exactly the three acknowledge samples. The shadow registers stay in step.
pub proof fn lemma_write_block_start(
    v: ProbeView,
    hw: FgpioOutputs,
    swd_request: u8,
    count: nat,
    wait_retries: nat,
)
    requires
        in_step(v, hw),
    ensures
        ({
            let (w, b, step) = write_block_start(v, swd_request, count, wait_retries);
            &&& b == (BlockView { swd_request, count, wait_retries, done: 0, retry: wait_retries })
            &&& in_step(w, hw)
            &&& (count == 0 <==> step == WriteBlockStep::Finished(
                WriteBlockResult { status: TransferStatus::Success, done: 0 },
            ))
            &&& (count == 0 ==> swdio_bits_sent(w, hw) == swdio_bits_sent(v, hw) && sample_count(
                w.program,
            ) == sample_count(v.program))
            &&& (count > 0 ==> step is AwaitAck && !w.swdio_output_enabled && sample_count(w.program)
                == sample_count(v.program) + 3 && swdio_bits_sent(w, hw) == swdio_bits_sent(v, hw)
                + bits_lsb_first(swd_request as u32, 8))
        }),
{
    lemma_swdio_direction_in_step(v, hw);
    lemma_request_and_ack_in_step(v.swdio_to_output(), hw, swd_request);
}

/// A block read's progress: a good word counts one more word and the count never exceeds
/// the words asked for; while the read waits for an acknowledge, words are left, the
/// buffer has room for the next one, the target owns SWDIO and exactly the three
/// acknowledge samples are queued, and each word it starts starts with the full WAIT
/// budget; while it waits for data exactly the 33 data-phase samples are; when it ends it
/// reports the words read, and it ends OK exactly when all of them were read. The shadow
/// registers stay in step throughout.
pub proof fn lemma_read_block_progress(
    v: ProbeView,
    hw: FgpioOutputs,
    b: BlockView,
    ack: u8,
    word: u32,
    parity_ok: bool,
    out_len: nat,
    now: u64,
)
    requires
        b.done < b.count,
        b.count <= usize::MAX,
        b.retry <= b.wait_retries,
        4 * b.done + 4 <= out_len,
        in_step(v, hw),
    ensures
        ({
            let (w, nb, step) = read_block_after_ack(v, b, ack, now);
            &&& nb.done == b.done && nb.count == b.count && nb.retry <= nb.wait_retries
            &&& in_step(w, hw)
            &&& (step is AwaitData <==> ack == ACK_OK)
            &&& (step is AwaitData ==> sample_count(w.program) == sample_count(v.program) + 33)
            &&& (step is AwaitAck ==> sample_count(w.program) == sample_count(v.program) + 3
                && !w.swdio_output_enabled)
            &&& (step matches ReadBlockStep::Finished(r) ==> r.done == nb.done && r.status
                != TransferStatus::Success && sample_count(w.program) == sample_count(v.program)
                + read_ack_samples(ack))
        }),
        ({
            let (w, nb, step) = read_block_after_data(v, b, word, parity_ok, out_len, now);
            &&& nb.done == if parity_ok {
                b.done + 1
            } else {
                b.done
            }
            &&& nb.done <= nb.count && nb.count == b.count && nb.retry <= nb.wait_retries
            &&& in_step(w, hw)
            &&& (step is AwaitAck ==> nb.done < nb.count && 4 * nb.done + 4 <= out_len
                && sample_count(w.program) == sample_count(v.program) + 3 && !w.swdio_output_enabled
                && nb.retry == nb.wait_retries)
            &&& (step matches ReadBlockStep::Finished(r) ==> r.done == nb.done && (r.status
                == TransferStatus::Success <==> nb.done == nb.count) && sample_count(w.program)
                == sample_count(v.program))
        }),
        ({
            let (w, nb, step) = read_block_start(v, b.swd_request, out_len, b.count, b.wait_retries, now);
            &&& nb.done == 0
            &&& in_step(w, hw)
            &&& (step is AwaitAck ==> nb.done < nb.count && 4 * nb.done + 4 <= out_len
                && sample_count(w.program) == sample_count(v.program) + 3 && !w.swdio_output_enabled
                && nb.retry == nb.wait_retries)
            &&& (step matches ReadBlockStep::Finished(r) ==> r.done == 0 && (r.status
                == TransferStatus::Success <==> nb.count == 0) && sample_count(w.program)
                == sample_count(v.program))
        }),
{
    let a = v.after_read_ack(ack);
    lemma_after_read_ack_in_step(v, hw, ack);
    lemma_begin_transfer_in_step(a, hw, b.swd_request, now);
    let polled = v.poll_led(now);
    lemma_poll_led_in_step(v, hw, now);
    lemma_begin_transfer_in_step(polled, hw, b.swd_request, now);
    let taken = v.swdio_to_output();
    lemma_swdio_direction_in_step(v, hw);
    lemma_begin_transfer_in_step(taken, hw, b.swd_request, now);
}

/// A word a block read stores reads back, little endian, as the word, and the bytes of
/// the other words are untouched.
pub proof fn lemma_read_block_stores_word(out: Seq<u8>, i: int, word: u32)
    requires
        0 <= i,
        4 * i + 4 <= out.len(),
    ensures
        ({
            let stored = store_word(out, i, word);
            &&& stored.len() == out.len()
            &&& le_word(stored[4 * i], stored[4 * i + 1], stored[4 * i + 2], stored[4 * i + 3]) == word
            &&& forall|k: int| 0 <= k < out.len() && !(4 * i <= k < 4 * i + 4) ==> stored[k] == out[k]
        }),
{
    lemma_le_bytes_round_trip(word);
}

/// Data bits reach the target LSB first, one per rising SWCLK / TCK edge: with SWDIO an
/// output, `swd_write_bits` and `swd_write_data_bits` drive the low `count` bits of `bits`
/// onto SWDIO at successive rising edges and `swd_write_bit_cycle` drives its one bit;
/// `jtag_cycle_tdi` and `jtag_cycle_tdio` drive their bit onto TDI.
pub proof fn lemma_bits_reach_target_lsb_first(
    v: ProbeView,
    hw: FgpioOutputs,
    bits: u32,
    count: nat,
    high: bool,
)
    requires
        in_step(v, hw),
    ensures
        v.swdio_output_enabled ==> swdio_bits_sent(v.write_bits(bits, count), hw) == swdio_bits_sent(
            v,
            hw,
        ) + bits_lsb_first(bits, count),
        v.swdio_output_enabled ==> swdio_bits_sent(v.write_data_bits(bits, count), hw)
            == swdio_bits_sent(v, hw) + bits_lsb_first(bits, count),
        v.swdio_output_enabled ==> swdio_bits_sent(v.write_bit_cycle(high), hw) == swdio_bits_sent(
            v,
            hw,
        ).push(high),
        levels_at_rising_edges(
            hw,
            v.clock_out_bit(TDI, high, v.write_half_period_delay, true, true).program,
            TDI,
        ) == levels_at_rising_edges(hw, v.program, TDI).push(high),
        levels_at_rising_edges(hw, v.tdi_tdo_cycle(high).program, TDI) == levels_at_rising_edges(
            hw,
            v.program,
            TDI,
        ).push(high),
{
    lemma_write_data_bits_in_step(v, hw, bits, count);
    lemma_write_bit_cycle_in_step(v, hw, high);
    lemma_jtag_bit(v, hw, high);
    lemma_tdi_tdo_cycle_in_step(v, hw, high);
}

/// The host's clock requests: after `set_clock_hz(hz)` every half SWCLK / TCK period
/// waits the delay of the normalized clock, the same for sampling and for driving data,
/// so a JTAG TDI bit and a turnaround cycle wait it too (96 spin-loop hints at 250 kHz);
/// probe-rs's default 1 MHz runs at the 8 MHz timing, every request from 8 MHz up runs at
/// the 8 MHz timing, and a request below 8 MHz other than 1 MHz runs at its own timing.
pub proof fn lemma_clock_requests(v: ProbeView, hz: u32, high: bool)
    ensures
        ({
            let c = v.with_clock(hz);
            let d = delay_table(normalized_clock(hz));
            &&& c.half_period_delay == d
            &&& c.write_half_period_delay == d
            &&& probe_op_effect(c, ProbeOp::JtagCycleTdi { high }).program == v.program + seq![
                PinOp::WriteOutput { port: Port::A, value: drive_level(v.output_a, TDI, high) },
                PinOp::Delay { count: d },
                PinOp::SetOutputs { port: Port::A, mask: SWCLK_TCK },
                PinOp::Delay { count: d },
            ]
            &&& c.turnaround_to_output().program.subrange(0, v.program.len() + 4int) == v.program + seq![
                PinOp::ClearOutputs { port: Port::A, mask: SWCLK_TCK },
                PinOp::Delay { count: d },
                PinOp::SetOutputs { port: Port::A, mask: SWCLK_TCK },
                PinOp::Delay { count: d },
            ]
        }),
        v.with_clock(250_000).write_half_period_delay == 96,
        v.with_clock(PROBE_RS_DEFAULT_SWJ_CLOCK_HZ) == v.with_clock(DEFAULT_SWJ_CLOCK_HZ),
        hz >= MAX_STABLE_SWJ_CLOCK_HZ ==> v.with_clock(hz) == v.with_clock(MAX_STABLE_SWJ_CLOCK_HZ),
        hz < MAX_STABLE_SWJ_CLOCK_HZ && hz != PROBE_RS_DEFAULT_SWJ_CLOCK_HZ ==> v.with_clock(hz).half_period_delay
            == delay_table(hz),
        v.with_clock(DEFAULT_SWJ_CLOCK_HZ).half_period_delay == 3,
{
    let c = v.with_clock(hz);
    let d = delay_table(normalized_clock(hz));
    assert(probe_op_effect(c, ProbeOp::JtagCycleTdi { high }).program =~= v.program + seq![
        PinOp::WriteOutput { port: Port::A, value: drive_level(v.output_a, TDI, high) },
        PinOp::Delay { count: d },
        PinOp::SetOutputs { port: Port::A, mask: SWCLK_TCK },
        PinOp::Delay { count: d },
    ]);
    let k = c.clock_cycle(d);
    assert(k.program =~= v.program + seq![
        PinOp::ClearOutputs { port: Port::A, mask: SWCLK_TCK },
        PinOp::Delay { count: d },
        PinOp::SetOutputs { port: Port::A, mask: SWCLK_TCK },
        PinOp::Delay { count: d },
    ]);
    assert(c.turnaround_to_output().program.subrange(0, v.program.len() + 4int) =~= k.program);
}

/// A block write waiting for an acknowledge, after `n` OK acknowledges in a row at tick
/// `now`; the run stops where the transfer ends.
pub open spec fn write_block_ok_run(
    v: ProbeView,
    b: BlockView,
    data: Seq<u8>,
    now: u64,
    n: nat,
) -> (ProbeView, BlockView, WriteBlockStep)
    decreases n,
{
    if n == 0 {
        (v, b, WriteBlockStep::AwaitAck)
    } else {
        let (w, nb, step) = write_block_after_ack(v, b, ACK_OK, data, now);
        if step is AwaitAck {
            write_block_ok_run(w, nb, data, now, (n - 1) as nat)
        } else {
            (w, nb, step)
        }
    }
}

/// A block write whose every remaining word is acknowledged OK ends OK, reporting all
/// `count` words written.
pub proof fn lemma_write_block_all_ok(v: ProbeView, b: BlockView, data: Seq<u8>, now: u64)
    requires
        b.done < b.count,
        b.count <= usize::MAX,
    ensures
        ({
            let (w, nb, step) = write_block_ok_run(v, b, data, now, (b.count - b.done) as nat);
            &&& step == WriteBlockStep::Finished(
                WriteBlockResult { status: TransferStatus::Success, done: b.count as usize },
            )
            &&& nb.done == b.count
        }),
    decreases b.count - b.done,
{
    let (w, nb, step) = write_block_after_ack(v, b, ACK_OK, data, now);
    if b.done + 1 < b.count {
        lemma_write_block_all_ok(w, nb, data, now);
    }
}

/// A block read waiting for an acknowledge, after `n` words in a row acknowledged OK and
/// received with good parity, `words[i]` being word `i`, at tick `now`; with the buffer
/// the words are stored in. The run stops where the transfer ends.
pub open spec fn read_block_good_run(
    v: ProbeView,
    b: BlockView,
    words: Seq<u32>,
    out: Seq<u8>,
    now: u64,
    n: nat,
) -> (ProbeView, BlockView, ReadBlockStep, Seq<u8>)
    decreases n,
{
    if n == 0 {
        (v, b, ReadBlockStep::AwaitAck, out)
    } else {
        let (w1, b1, s1) = read_block_after_ack(v, b, ACK_OK, now);
        let word = words[b.done as int];
        let (w2, b2, s2) = read_block_after_data(w1, b1, word, true, out.len(), now);
        let stored = store_word(out, b.done as int, word);
        if s2 is AwaitAck {
            read_block_good_run(w2, b2, words, stored, now, (n - 1) as nat)
        } else {
            (w2, b2, s2, stored)
        }
    }
}

/// A block read whose every remaining word arrives OK with good parity, into a buffer
/// with room for all `count` words, ends OK reporting all of them read, with each word
/// stored little endian at its place and every other byte untouched.
pub proof fn lemma_read_block_all_good(
    v: ProbeView,
    b: BlockView,
    words: Seq<u32>,
    out: Seq<u8>,
    now: u64,
)
    requires
        b.done < b.count,
        b.count <= usize::MAX,
        b.count <= words.len(),
        4 * b.count <= out.len(),
    ensures
        ({
            let (w, nb, step, stored) = read_block_good_run(
                v,
                b,
                words,
                out,
                now,
                (b.count - b.done) as nat,
            );
            &&& step == ReadBlockStep::Finished(
                ReadBlockResult { status: TransferStatus::Success, done: b.count as usize },
            )
            &&& nb.done == b.count
            &&& stored.len() == out.len()
            &&& forall|i: int|
                b.done <= i < b.count ==> le_word(
                    #[trigger] stored[4 * i],
                    stored[4 * i + 1],
                    stored[4 * i + 2],
                    stored[4 * i + 3],
                ) == words[i]
            &&& forall|k: int|
                0 <= k < out.len() && !(4 * b.done <= k < 4 * b.count) ==> #[trigger] stored[k]
                    == out[k]
        }),
    decreases b.count - b.done,
{
    let (w1, b1, s1) = read_block_after_ack(v, b, ACK_OK, now);
    let word = words[b.done as int];
    let (w2, b2, s2) = read_block_after_data(w1, b1, word, true, out.len(), now);
    let stored = store_word(out, b.done as int, word);
    lemma_read_block_stores_word(out, b.done as int, word);
    if b.done + 1 < b.count {
        lemma_read_block_all_good(w2, b2, words, stored, now);
        let (w, nb, step, fin) = read_block_good_run(
            w2,
            b2,
            words,
            stored,
            now,
            (b.count - b.done - 1) as nat,
        );
        assert forall|i: int| b.done <= i < b.count implies le_word(
            #[trigger] fin[4 * i],
            fin[4 * i + 1],
            fin[4 * i + 2],
            fin[4 * i + 3],
        ) == words[i] by {
            if i == b.done {
                assert(fin[4 * i] == stored[4 * i]);
                assert(fin[4 * i + 1] == stored[4 * i + 1]);
                assert(fin[4 * i + 2] == stored[4 * i + 2]);
                assert(fin[4 * i + 3] == stored[4 * i + 3]);
            }
        }
    }
}

/// A block read whose words all arrive good, into a buffer too short for all `count`
/// words, ends with a protocol error after the words that fit, `out.len() / 4`, are read.
pub proof fn lemma_read_block_short_buffer(
    v: ProbeView,
    b: BlockView,
    words: Seq<u32>,
    out: Seq<u8>,
    now: u64,
)
    requires
        b.done < b.count,
        b.count <= usize::MAX,
        4 * b.done + 4 <= out.len(),
        out.len() < 4 * b.count,
    ensures
        ({
            let (w, nb, step, stored) = read_block_good_run(
                v,
                b,
                words,
                out,
                now,
                (out.len() / 4 - b.done) as nat,
            );
            &&& step == ReadBlockStep::Finished(
                ReadBlockResult {
                    status: TransferStatus::ProtocolError,
                    done: (out.len() / 4) as usize,
                },
            )
            &&& nb.done == out.len() / 4
        }),
    decreases out.len() / 4 - b.done,
{
    let (w1, b1, s1) = read_block_after_ack(v, b, ACK_OK, now);
    let word = words[b.done as int];
    let (w2, b2, s2) = read_block_after_data(w1, b1, word, true, out.len(), now);
    let stored = store_word(out, b.done as int, word);
    if 4 * (b.done + 1) + 4 <= out.len() {
        lemma_read_block_short_buffer(w2, b2, words, stored, now);
    }
}

/// The acknowledges of a word the target answers WAIT `waits` times before OK.
pub open spec fn waits_then_ok(waits: nat) -> Seq<u8> {
    Seq::new(waits, |i: int| ACK_WAIT).push(ACK_OK)
}

/// The acknowledges of a block transfer whose word `i` the target answers WAIT `waits[i]`
/// times before OK, word after word.
pub open spec fn block_acks(waits: Seq<nat>) -> Seq<u8>
    decreases waits.len(),
{
    if waits.len() == 0 {
        Seq::empty()
    } else {
        waits_then_ok(waits[0]) + block_acks(waits.drop_first())
    }
}

/// A block write waiting for an acknowledge, after the acknowledges `acks` in order at
/// tick `now`; the run stops where the transfer ends.
pub open spec fn write_block_run(
    v: ProbeView,
    b: BlockView,
    acks: Seq<u8>,
    data: Seq<u8>,
    now: u64,
) -> (ProbeView, BlockView, WriteBlockStep)
    decreases acks.len(),
{
    if acks.len() == 0 {
        (v, b, WriteBlockStep::AwaitAck)
    } else {
        let (w, nb, step) = write_block_after_ack(v, b, acks[0], data, now);
        if step is AwaitAck {
            write_block_run(w, nb, acks.drop_first(), data, now)
        } else {
            (w, nb, step)
        }
    }
}

/// A block read waiting for an acknowledge, after the acknowledges `acks` in order at tick
/// `now`, each OK followed by a data phase that carries word `words[i]` for word `i` with
/// good parity, into a buffer of `out_len` bytes; the run stops where the transfer ends.
pub open spec fn read_block_run(
    v: ProbeView,
    b: BlockView,
    acks: Seq<u8>,
    words: Seq<u32>,
    out_len: nat,
    now: u64,
) -> (ProbeView, BlockView, ReadBlockStep)
    decreases acks.len(),
{
    if acks.len() == 0 {
        (v, b, ReadBlockStep::AwaitAck)
    } else {
        let (w1, b1, s1) = read_block_after_ack(v, b, acks[0], now);
        if s1 is AwaitData {
            let (w2, b2, s2) = read_block_after_data(
                w1,
                b1,
                words[b1.done as int],
                true,
                out_len,
                now,
            );
            if s2 is AwaitAck {
                read_block_run(w2, b2, acks.drop_first(), words, out_len, now)
            } else {
                (w2, b2, s2)
            }
        } else if s1 is AwaitAck {
            read_block_run(w1, b1, acks.drop_first(), words, out_len, now)
        } else {
            (w1, b1, s1)
        }
    }
}

/// The first acknowledge of a word with WAITs left is WAIT and the rest are the word's
/// remaining WAITs; the first acknowledge of a word without is OK and the rest are the
/// next words'.
proof fn lemma_block_acks_first(waits: Seq<nat>)
    requires
        waits.len() > 0,
    ensures
        block_acks(waits).len() > 0,
        waits[0] > 0 ==> block_acks(waits)[0] == ACK_WAIT && block_acks(waits).drop_first()
            == block_acks(waits.update(0, (waits[0] - 1) as nat)),
        waits[0] == 0 ==> block_acks(waits)[0] == ACK_OK && block_acks(waits).drop_first()
            == block_acks(waits.drop_first()),
{
    let rest = block_acks(waits.drop_first());
    let first = waits_then_ok(waits[0]);
    assert(block_acks(waits) == first + rest);
    if waits[0] > 0 {
        let u = waits.update(0, (waits[0] - 1) as nat);
        assert(u.drop_first() =~= waits.drop_first());
        assert(block_acks(u) == waits_then_ok(u[0]) + block_acks(u.drop_first()));
        assert(first.drop_first() =~= waits_then_ok(u[0]));
        assert((first + rest).drop_first() =~= first.drop_first() + rest);
    } else {
        assert(first =~= seq![ACK_OK]);
        assert((first + rest).drop_first() =~= rest);
    }
}

proof fn lemma_write_block_waits_run(v: ProbeView, b: BlockView, waits: Seq<nat>, data: Seq<u8>, now: u64)
    requires
        b.done < b.count,
        b.count <= usize::MAX,
        waits.len() == b.count - b.done,
        waits[0] <= b.retry,
        forall|i: int| 0 <= i < waits.len() ==> waits[i] <= b.wait_retries,
    ensures
        write_block_run(v, b, block_acks(waits), data, now).2 == WriteBlockStep::Finished(
            WriteBlockResult { status: TransferStatus::Success, done: b.count as usize },
        ),
    decreases waits.len(), waits[0],
{
    let acks = block_acks(waits);
    lemma_block_acks_first(waits);
    let (w, nb, step) = write_block_after_ack(v, b, acks[0], data, now);
    if waits[0] > 0 {
        let u = waits.update(0, (waits[0] - 1) as nat);
        assert forall|i: int| 0 <= i < u.len() implies u[i] <= nb.wait_retries by {
            assert(waits[i] <= b.wait_retries);
        }
        lemma_write_block_waits_run(w, nb, u, data, now);
    } else if b.done + 1 < b.count {
        let rest = waits.drop_first();
        assert(rest[0] == waits[1]);
        assert forall|i: int| 0 <= i < rest.len() implies rest[i] <= nb.wait_retries by {
            assert(waits[i + 1] <= b.wait_retries);
        }
        lemma_write_block_waits_run(w, nb, rest, data, now);
    }
}

/// Every word of a block write gets the full WAIT budget: when the target answers each
/// of the `count` words with at most `wait_retries` WAITs before OK, the write ends OK
/// with all `count` words written, however many WAITs earlier words used.
pub proof fn lemma_write_block_waits_within_budget(
    v: ProbeView,
    swd_request: u8,
    count: nat,
    wait_retries: nat,
    waits: Seq<nat>,
    data: Seq<u8>,
    now: u64,
)
    requires
        0 < count <= usize::MAX,
        waits.len() == count,
        forall|i: int| 0 <= i < waits.len() ==> waits[i] <= wait_retries,
    ensures
        ({
            let (w, b, step) = write_block_start(v, swd_request, count, wait_retries);
            &&& step is AwaitAck
            &&& write_block_run(w, b, block_acks(waits), data, now).2 == WriteBlockStep::Finished(
                WriteBlockResult { status: TransferStatus::Success, done: count as usize },
            )
        }),
{
    let (w, b, step) = write_block_start(v, swd_request, count, wait_retries);
    lemma_write_block_waits_run(w, b, waits, data, now);
}

proof fn lemma_read_block_waits_run(
    v: ProbeView,
    b: BlockView,
    waits: Seq<nat>,
    words: Seq<u32>,
    out_len: nat,
    now: u64,
)
    requires
        b.done < b.count,
        b.count <= usize::MAX,
        4 * b.count <= out_len,
        waits.len() == b.count - b.done,
        waits[0] <= b.retry,
        forall|i: int| 0 <= i < waits.len() ==> waits[i] <= b.wait_retries,
    ensures
        read_block_run(v, b, block_acks(waits), words, out_len, now).2 == ReadBlockStep::Finished(
            ReadBlockResult { status: TransferStatus::Success, done: b.count as usize },
        ),
    decreases waits.len(), waits[0],
{
    let acks = block_acks(waits);
    lemma_block_acks_first(waits);
    let (w1, b1, s1) = read_block_after_ack(v, b, acks[0], now);
    if waits[0] > 0 {
        let u = waits.update(0, (waits[0] - 1) as nat);
        assert forall|i: int| 0 <= i < u.len() implies u[i] <= b1.wait_retries by {
            assert(waits[i] <= b.wait_retries);
        }
        lemma_read_block_waits_run(w1, b1, u, words, out_len, now);
    } else {
        let (w2, b2, s2) = read_block_after_data(w1, b1, words[b1.done as int], true, out_len, now);
        if b.done + 1 < b.count {
            let rest = waits.drop_first();
            assert(rest[0] == waits[1]);
            assert forall|i: int| 0 <= i < rest.len() implies rest[i] <= b2.wait_retries by {
                assert(waits[i + 1] <= b.wait_retries);
            }
            lemma_read_block_waits_run(w2, b2, rest, words, out_len, now);
        }
    }
}

/// Every word of a block read gets the full WAIT budget: when the target answers each of
/// the `count` words with at most `wait_retries` WAITs before OK and sends it with good
/// parity, into a buffer with room for all of them, the read ends OK with all `count`
/// words read, however many WAITs earlier words used.
pub proof fn lemma_read_block_waits_within_budget(
    v: ProbeView,
    swd_request: u8,
    out_len: nat,
    count: nat,
    wait_retries: nat,
    waits: Seq<nat>,
    words: Seq<u32>,
    now: u64,
)
    requires
        0 < count <= usize::MAX,
        4 * count <= out_len,
        waits.len() == count,
        forall|i: int| 0 <= i < waits.len() ==> waits[i] <= wait_retries,
    ensures
        ({
            let (w, b, step) = read_block_start(v, swd_request, out_len, count, wait_retries, now);
            &&& step is AwaitAck
            &&& read_block_run(w, b, block_acks(waits), words, out_len, now).2
                == ReadBlockStep::Finished(
                ReadBlockResult { status: TransferStatus::Success, done: count as usize },
            )
        }),
{
    let (w, b, step) = read_block_start(v, swd_request, out_len, count, wait_retries, now);
    lemma_read_block_waits_run(w, b, waits, words, out_len, now);
}

proof fn lemma_block_acks_then(waits: Seq<nat>, tail: Seq<u8>)
    requires
        waits.len() > 0,
    ensures
        (block_acks(waits) + tail).len() > 0,
        (block_acks(waits) + tail)[0] == block_acks(waits)[0],
        (block_acks(waits) + tail).drop_first() == block_acks(waits).drop_first() + tail,
{
    lemma_block_acks_first(waits);
    let a = block_acks(waits);
    assert((a + tail).drop_first() =~= a.drop_first() + tail);
}

proof fn lemma_write_block_wait_exhausted(v: ProbeView, b: BlockView, data: Seq<u8>, now: u64)
    requires
        b.done < b.count,
        b.count <= usize::MAX,
    ensures
        write_block_run(v, b, Seq::new(b.retry + 1, |i: int| ACK_WAIT), data, now).2
            == WriteBlockStep::Finished(
            WriteBlockResult { status: TransferStatus::Wait, done: b.done as usize },
        ),
    decreases b.retry,
{
    let acks = Seq::new(b.retry + 1, |i: int| ACK_WAIT);
    let (w, nb, step) = write_block_after_ack(v, b, ACK_WAIT, data, now);
    if b.retry > 0 {
        assert(acks.drop_first() =~= Seq::new(nb.retry + 1, |i: int| ACK_WAIT));
        lemma_write_block_wait_exhausted(w, nb, data, now);
    }
}

proof fn lemma_write_block_waits_then_exhausted(
    v: ProbeView,
    b: BlockView,
    waits: Seq<nat>,
    data: Seq<u8>,
    now: u64,
)
    requires
        b.done + waits.len() < b.count,
        b.count <= usize::MAX,
        waits.len() > 0 ==> waits[0] <= b.retry,
        waits.len() == 0 ==> b.retry == b.wait_retries,
        forall|i: int| 0 <= i < waits.len() ==> waits[i] <= b.wait_retries,
    ensures
        write_block_run(
            v,
            b,
            block_acks(waits) + Seq::new(b.wait_retries + 1, |i: int| ACK_WAIT),
            data,
            now,
        ).2 == WriteBlockStep::Finished(
            WriteBlockResult { status: TransferStatus::Wait, done: (b.done + waits.len()) as usize },
        ),
    decreases waits.len(), if waits.len() > 0 {
        waits[0]
    } else {
        0
    },
{
    let tail = Seq::new(b.wait_retries + 1, |i: int| ACK_WAIT);
    if waits.len() == 0 {
        assert(block_acks(waits) + tail =~= tail);
        lemma_write_block_wait_exhausted(v, b, data, now);
    } else {
        let acks = block_acks(waits) + tail;
        lemma_block_acks_first(waits);
        lemma_block_acks_then(waits, tail);
        let (w, nb, step) = write_block_after_ack(v, b, acks[0], data, now);
        if waits[0] > 0 {
            let u = waits.update(0, (waits[0] - 1) as nat);
            assert forall|i: int| 0 <= i < u.len() implies u[i] <= nb.wait_retries by {
                assert(waits[i] <= b.wait_retries);
            }
            lemma_write_block_waits_then_exhausted(w, nb, u, data, now);
        } else {
            let rest = waits.drop_first();
            assert forall|i: int| 0 <= i < rest.len() implies rest[i] <= nb.wait_retries by {
                assert(waits[i + 1] <= b.wait_retries);
            }
            if rest.len() > 0 {
                assert(rest[0] == waits[1]);
            }
            lemma_write_block_waits_then_exhausted(w, nb, rest, data, now);
        }
    }
}

/// The WAIT budget of a block write is per word and is `wait_retries`: when the target
/// answers each of the first `waits.len()` words with at most `wait_retries` WAITs before
/// OK and the next word with `wait_retries + 1` WAITs, the write ends with WAIT, reporting
/// exactly the words before that one as written.
pub proof fn lemma_write_block_wait_budget_exhausted(
    v: ProbeView,
    swd_request: u8,
    count: nat,
    wait_retries: nat,
    waits: Seq<nat>,
    data: Seq<u8>,
    now: u64,
)
    requires
        waits.len() < count <= usize::MAX,
        forall|i: int| 0 <= i < waits.len() ==> waits[i] <= wait_retries,
    ensures
        ({
            let (w, b, step) = write_block_start(v, swd_request, count, wait_retries);
            write_block_run(
                w,
                b,
                block_acks(waits) + Seq::new(wait_retries + 1, |i: int| ACK_WAIT),
                data,
                now,
            ).2 == WriteBlockStep::Finished(
                WriteBlockResult { status: TransferStatus::Wait, done: waits.len() as usize },
            )
        }),
{
    let (w, b, step) = write_block_start(v, swd_request, count, wait_retries);
    lemma_write_block_waits_then_exhausted(w, b, waits, data, now);
}

proof fn lemma_read_block_wait_exhausted(
    v: ProbeView,
    b: BlockView,
    words: Seq<u32>,
    out_len: nat,
    now: u64,
)
    requires
        b.done < b.count,
        b.count <= usize::MAX,
    ensures
        read_block_run(v, b, Seq::new(b.retry + 1, |i: int| ACK_WAIT), words, out_len, now).2
            == ReadBlockStep::Finished(
            ReadBlockResult { status: TransferStatus::Wait, done: b.done as usize },
        ),
    decreases b.retry,
{
    let acks = Seq::new(b.retry + 1, |i: int| ACK_WAIT);
    let (w, nb, step) = read_block_after_ack(v, b, ACK_WAIT, now);
    if b.retry > 0 {
        assert(acks.drop_first() =~= Seq::new(nb.retry + 1, |i: int| ACK_WAIT));
        lemma_read_block_wait_exhausted(w, nb, words, out_len, now);
    }
}

proof fn lemma_read_block_waits_then_exhausted(
    v: ProbeView,
    b: BlockView,
    waits: Seq<nat>,
    words: Seq<u32>,
    out_len: nat,
    now: u64,
)
    requires
        b.done + waits.len() < b.count,
        b.count <= usize::MAX,
        4 * b.count <= out_len,
        waits.len() > 0 ==> waits[0] <= b.retry,
        waits.len() == 0 ==> b.retry == b.wait_retries,
        forall|i: int| 0 <= i < waits.len() ==> waits[i] <= b.wait_retries,
    ensures
        read_block_run(
            v,
            b,
            block_acks(waits) + Seq::new(b.wait_retries + 1, |i: int| ACK_WAIT),
            words,
            out_len,
            now,
        ).2 == ReadBlockStep::Finished(
            ReadBlockResult { status: TransferStatus::Wait, done: (b.done + waits.len()) as usize },
        ),
    decreases waits.len(), if waits.len() > 0 {
        waits[0]
    } else {
        0
    },
{
    let tail = Seq::new(b.wait_retries + 1, |i: int| ACK_WAIT);
    if waits.len() == 0 {
        assert(block_acks(waits) + tail =~= tail);
        lemma_read_block_wait_exhausted(v, b, words, out_len, now);
    } else {
        let acks = block_acks(waits) + tail;
        lemma_block_acks_first(waits);
        lemma_block_acks_then(waits, tail);
        let (w1, b1, s1) = read_block_after_ack(v, b, acks[0], now);
        if waits[0] > 0 {
            let u = waits.update(0, (waits[0] - 1) as nat);
            assert forall|i: int| 0 <= i < u.len() implies u[i] <= b1.wait_retries by {
                assert(waits[i] <= b.wait_retries);
            }
            lemma_read_block_waits_then_exhausted(w1, b1, u, words, out_len, now);
        } else {
            let (w2, b2, s2) = read_block_after_data(w1, b1, words[b1.done as int], true, out_len, now);
            let rest = waits.drop_first();
            assert forall|i: int| 0 <= i < rest.len() implies rest[i] <= b2.wait_retries by {
                assert(waits[i + 1] <= b.wait_retries);
            }
            if rest.len() > 0 {
                assert(rest[0] == waits[1]);
            }
            lemma_read_block_waits_then_exhausted(w2, b2, rest, words, out_len, now);
        }
    }
}

/// The WAIT budget of a block read is per word and is `wait_retries`: when the target
/// answers each of the first `waits.len()` words with at most `wait_retries` WAITs before
/// OK and sends it with good parity, into a buffer with room for all `count` words, and
/// answers the next word with `wait_retries + 1` WAITs, the read ends with WAIT, reporting
/// exactly the words before that one as read.
pub proof fn lemma_read_block_wait_budget_exhausted(
    v: ProbeView,
    swd_request: u8,
    out_len: nat,
    count: nat,
    wait_retries: nat,
    waits: Seq<nat>,
    words: Seq<u32>,
    now: u64,
)
    requires
        waits.len() < count <= usize::MAX,
        4 * count <= out_len,
        forall|i: int| 0 <= i < waits.len() ==> waits[i] <= wait_retries,
    ensures
        ({
            let (w, b, step) = read_block_start(v, swd_request, out_len, count, wait_retries, now);
            read_block_run(
                w,
                b,
                block_acks(waits) + Seq::new(wait_retries + 1, |i: int| ACK_WAIT),
                words,
                out_len,
                now,
            ).2 == ReadBlockStep::Finished(
                ReadBlockResult { status: TransferStatus::Wait, done: waits.len() as usize },
            )
        }),
{
    let (w, b, step) = read_block_start(v, swd_request, out_len, count, wait_retries, now);
    lemma_read_block_waits_then_exhausted(w, b, waits, words, out_len, now);
}

/// A rising SWCLK edge with SWDIO released to the target.
pub open spec fn released_edge() -> WireEvent {
    WireEvent::Edge { driven: false, level: false }
}

/// Rising SWCLK edges with SWDIO driven to the low `n` bits of `bits`, LSB first.
pub open spec fn driven_edges(bits: u32, n: nat) -> Seq<WireEvent> {
    Seq::new(n, |i: int| WireEvent::Edge { driven: true, level: bit_at(bits, i as nat) })
}

/// `n` sampling cycles with SWDIO released: each reads the pins, then raises SWCLK.
pub open spec fn sample_slots(n: nat) -> Seq<WireEvent>
    decreases n,
{
    if n == 0 {
        Seq::empty()
    } else {
        sample_slots((n - 1) as nat) + seq![WireEvent::Sample, released_edge()]
    }
}

/// What the target sees of `v`'s pending program, performed from registers `hw`.
pub open spec fn wire_seen(v: ProbeView, hw: FgpioOutputs) -> Seq<WireEvent> {
    wire_events(hw, v.program)
}

proof fn lemma_quiet_write_a(v: ProbeView, hw: FgpioOutputs, o: u32)
    requires
        in_step(v, hw),
        o & SWCLK_TCK == v.output_a & SWCLK_TCK,
    ensures
        wire_seen(v.emit(PinOp::WriteOutput { port: Port::A, value: o }), hw) == wire_seen(v, hw),
{
    lemma_push_op_wire(hw, v.program, PinOp::WriteOutput { port: Port::A, value: o });
}

proof fn lemma_drive_a_quiet(v: ProbeView, hw: FgpioOutputs, mask: u32, high: bool)
    requires
        in_step(v, hw),
        mask & SWCLK_TCK == 0,
    ensures
        wire_seen(v.drive_a(mask, high), hw) == wire_seen(v, hw),
{
    let o = if high {
        v.output_a | mask
    } else {
        v.output_a & !mask
    };
    let x = v.output_a;
    assert((x | mask) & 0x0800_0000u32 == x & 0x0800_0000u32 && (x & !mask) & 0x0800_0000u32 == x
        & 0x0800_0000u32) by (bit_vector)
        requires
            mask & 0x0800_0000u32 == 0,
    ;
    lemma_quiet_write_a(v, hw, o);
}

proof fn lemma_swdio_direction_wire(v: ProbeView, hw: FgpioOutputs)
    requires
        in_step(v, hw),
    ensures
        wire_seen(v.swdio_to_output(), hw) == wire_seen(v, hw),
        wire_seen(v.swdio_to_input(), hw) == wire_seen(v, hw),
{
    lemma_push_op_wire(hw, v.program, PinOp::EnableOutputs { port: Port::A, mask: SWDIO_TMS });
    lemma_push_op_wire(hw, v.program, PinOp::DisableOutputs { port: Port::A, mask: SWDIO_TMS });
}

proof fn lemma_led_wire(v: ProbeView, hw: FgpioOutputs, lit: bool)
    requires
        in_step(v, hw),
    ensures
        wire_seen(v.led(lit), hw) == wire_seen(v, hw),
{
    let o = (v.output_a & !ACTIVITY_LED) | led_level(lit);
    let x = v.output_a;
    assert(((x & !0x0000_0400u32) | 0x0000_0400u32) & 0x0800_0000u32 == x & 0x0800_0000u32 && ((x
        & !0x0000_0400u32) | 0u32) & 0x0800_0000u32 == x & 0x0800_0000u32) by (bit_vector);
    if v.led_lit != lit {
        lemma_quiet_write_a(v, hw, o);
    }
}

proof fn lemma_poll_led_wire(v: ProbeView, hw: FgpioOutputs, now: u64)
    requires
        in_step(v, hw),
    ensures
        wire_seen(v.poll_led(now), hw) == wire_seen(v, hw),
{
    let next = vstd::wrapping::u64_specs::wrapping_add(now, v.led_toggle_ticks);
    let w = ProbeView { led_poll_count: crate::probe::ACTIVITY_LED_POLL_INTERVAL, ..v };
    lemma_led_wire(ProbeView { led_active: true, led_next_toggle: next, ..w }, hw, true);
    lemma_led_wire(ProbeView { led_next_toggle: next, ..w }, hw, !w.led_lit);
}

proof fn lemma_clock_cycle_wire(v: ProbeView, hw: FgpioOutputs, delay: u8)
    requires
        in_step(v, hw),
    ensures
        wire_seen(v.clock_cycle(delay), hw) == wire_seen(v, hw).push(
            WireEvent::Edge {
                driven: v.swdio_output_enabled,
                level: v.swdio_output_enabled && v.output_a & SWDIO_TMS != 0,
            },
        ),
{
    let p = v.program;
    let p1 = p.push(PinOp::ClearOutputs { port: Port::A, mask: SWCLK_TCK });
    let p2 = p1.push(PinOp::Delay { count: delay });
    let p3 = p2.push(PinOp::SetOutputs { port: Port::A, mask: SWCLK_TCK });
    lemma_push_op_wire(hw, p, PinOp::ClearOutputs { port: Port::A, mask: SWCLK_TCK });
    lemma_push_op_wire(hw, p1, PinOp::Delay { count: delay });
    lemma_push_op_wire(hw, p2, PinOp::SetOutputs { port: Port::A, mask: SWCLK_TCK });
    lemma_push_op_wire(hw, p3, PinOp::Delay { count: delay });
    lemma_bits();
    let x = v.output_a;
    assert(((x & !0x0800_0000u32) | 0x0800_0000u32) & 0x1000_0000u32 == x & 0x1000_0000u32)
        by (bit_vector);
}

proof fn lemma_sample_cycles_wire(hw: FgpioOutputs, p: Seq<PinOp>, delay: u8, n: nat)
    requires
        run_ops(hw, p).oe_a & SWDIO_TMS == 0,
    ensures
        wire_events(hw, sample_cycles_ops(p, delay, n)) == wire_events(hw, p) + sample_slots(n),
    decreases n,
{
    if n == 0 {
        assert(wire_events(hw, p) + sample_slots(0) =~= wire_events(hw, p));
    } else {
        let q = sample_cycles_ops(p, delay, (n - 1) as nat);
        lemma_sample_cycles_wire(hw, p, delay, (n - 1) as nat);
        lemma_sample_cycles_registers(hw, p, delay, (n - 1) as nat);
        let q1 = q.push(PinOp::ClearOutputs { port: Port::A, mask: SWCLK_TCK });
        let q2 = q1.push(PinOp::Delay { count: delay });
        let q3 = q2.push(PinOp::Sample { port: Port::A });
        let q4 = q3.push(PinOp::SetOutputs { port: Port::A, mask: SWCLK_TCK });
        lemma_push_op_wire(hw, q, PinOp::ClearOutputs { port: Port::A, mask: SWCLK_TCK });
        lemma_push_op_wire(hw, q1, PinOp::Delay { count: delay });
        lemma_push_op_wire(hw, q2, PinOp::Sample { port: Port::A });
        lemma_push_op_wire(hw, q3, PinOp::SetOutputs { port: Port::A, mask: SWCLK_TCK });
        lemma_push_op_wire(hw, q4, PinOp::Delay { count: delay });
        lemma_bits();
        assert(wire_events(hw, p) + sample_slots(n) =~= (wire_events(hw, p) + sample_slots(
            (n - 1) as nat,
        )).push(WireEvent::Sample).push(released_edge()));
    }
}

proof fn lemma_clocked_bit_wire(
    hw: FgpioOutputs,
    p: Seq<PinOp>,
    x: u32,
    high: bool,
    delay: u8,
    setup_delay: bool,
    hold_delay: bool,
)
    requires
        run_ops(hw, p).oe_a & SWDIO_TMS != 0,
    ensures
        wire_events(
            hw,
            clocked_bit_ops(p, drive_level(x, SWDIO_TMS, high), delay, setup_delay, hold_delay),
        ) == wire_events(hw, p).push(WireEvent::Edge { driven: true, level: high }),
{
    let level = drive_level(x, SWDIO_TMS, high);
    lemma_drive_level_bits(x, SWDIO_TMS, high);
    let p1 = p.push(PinOp::WriteOutput { port: Port::A, value: level });
    let p2 = if setup_delay {
        p1.push(PinOp::Delay { count: delay })
    } else {
        p1
    };
    let p3 = p2.push(PinOp::SetOutputs { port: Port::A, mask: SWCLK_TCK });
    lemma_push_op_wire(hw, p, PinOp::WriteOutput { port: Port::A, value: level });
    if setup_delay {
        lemma_push_op_wire(hw, p1, PinOp::Delay { count: delay });
    }
    lemma_push_op_wire(hw, p2, PinOp::SetOutputs { port: Port::A, mask: SWCLK_TCK });
    if hold_delay {
        lemma_push_op_wire(hw, p3, PinOp::Delay { count: delay });
    }
}

proof fn lemma_shift_out_wire(
    hw: FgpioOutputs,
    p: Seq<PinOp>,
    output: u32,
    bits: u32,
    n: nat,
    delay: u8,
    setup_delay: bool,
    hold_delay: bool,
)
    requires
        run_ops(hw, p).oe_a & SWDIO_TMS != 0,
    ensures
        wire_events(hw, shift_out_ops(p, output, SWDIO_TMS, bits, n, delay, setup_delay, hold_delay))
            == wire_events(hw, p) + driven_edges(bits, n),
    decreases n,
{
    if n == 0 {
        assert(wire_events(hw, p) + driven_edges(bits, 0) =~= wire_events(hw, p));
    } else {
        let m = (n - 1) as nat;
        lemma_shift_out_wire(hw, p, output, bits, m, delay, setup_delay, hold_delay);
        lemma_shift_out(hw, p, output, SWDIO_TMS, bits, m, delay, setup_delay, hold_delay);
        let q = shift_out_ops(p, output, SWDIO_TMS, bits, m, delay, setup_delay, hold_delay);
        let before = shifted_output(output, SWDIO_TMS, bits, m);
        lemma_clocked_bit_wire(hw, q, before, bit_at(bits, m), delay, setup_delay, hold_delay);
        assert(wire_events(hw, p) + driven_edges(bits, n) =~= (wire_events(hw, p) + driven_edges(
            bits,
            m,
        )).push(WireEvent::Edge { driven: true, level: bit_at(bits, m) }));
    }
}

proof fn lemma_write_data_bits_wire(v: ProbeView, hw: FgpioOutputs, bits: u32, n: nat)
    requires
        in_step(v, hw),
        v.swdio_output_enabled,
    ensures
        wire_seen(v.write_data_bits(bits, n), hw) == wire_seen(v, hw) + driven_edges(bits, n),
{
    lemma_shift_out_wire(hw, v.program, v.output_a, bits, n, v.half_period_delay, true, true);
    lemma_shift_out_wire(hw, v.program, v.output_a, bits, n, 0, false, false);
    lemma_shift_out_wire(hw, v.program, v.output_a, bits, n, 1, true, false);
}

proof fn lemma_request_wire(v: ProbeView, hw: FgpioOutputs, swd_request: u8)
    requires
        in_step(v, hw),
        v.swdio_output_enabled,
    ensures
        wire_seen(v.request_and_ack(swd_request), hw) == wire_seen(v, hw) + driven_edges(
            swd_request as u32,
            8,
        ) + seq![released_edge()] + sample_slots(3),
{
    let v1 = v.write_data_bits(swd_request as u32, 8);
    lemma_write_data_bits_wire(v, hw, swd_request as u32, 8);
    lemma_write_data_bits_in_step(v, hw, swd_request as u32, 8);
    let v2 = v1.swdio_to_input();
    lemma_swdio_direction_wire(v1, hw);
    lemma_swdio_direction_in_step(v1, hw);
    let v3 = v2.clock_cycle(v.write_half_period_delay);
    lemma_clock_cycle_wire(v2, hw, v.write_half_period_delay);
    lemma_clock_cycle_in_step(v2, hw, v.write_half_period_delay);
    lemma_sample_cycles_wire(hw, v3.program, v3.half_period_delay, 3);
    let pre = wire_seen(v, hw) + driven_edges(swd_request as u32, 8);
    assert(pre.push(released_edge()) + sample_slots(3) =~= pre + seq![released_edge()] + sample_slots(
        3,
    ));
}

proof fn lemma_turnaround_wire(v: ProbeView, hw: FgpioOutputs)
    requires
        in_step(v, hw),
        !v.swdio_output_enabled,
    ensures
        wire_seen(v.turnaround_to_output(), hw) == wire_seen(v, hw).push(released_edge()),
        wire_seen(v.turnaround_to_output().drive_a(SWDIO_TMS, true), hw) == wire_seen(v, hw).push(
            released_edge(),
        ),
{
    let v1 = v.clock_cycle(v.write_half_period_delay);
    lemma_clock_cycle_wire(v, hw, v.write_half_period_delay);
    lemma_clock_cycle_in_step(v, hw, v.write_half_period_delay);
    lemma_swdio_direction_wire(v1, hw);
    lemma_turnaround_in_step(v, hw);
    lemma_bits();
    lemma_drive_a_quiet(v.turnaround_to_output(), hw, SWDIO_TMS, true);
}

/// What the target sees of a fast SWD write: the probe drives the eight request bits (LSB
/// first), releases SWDIO for one turnaround cycle, samples the three acknowledge bits one
/// SWCLK cycle each; on OK it gives one more turnaround cycle with SWDIO still released
/// before it drives the 32 data bits (LSB first) and their parity; on WAIT or FAULT it
/// gives that turnaround cycle alone; on anything else it samples 34 released cycles.
pub proof fn lemma_write_transfer_wire_events(
    v: ProbeView,
    hw: FgpioOutputs,
    swd_request: u8,
    now: u64,
    ack: u8,
    data: u32,
)
    requires
        in_step(v, hw),
    ensures
        ({
            let started = v.begin_transfer(swd_request, now);
            let finished = started.after_write_ack(ack, data);
            &&& wire_seen(started, hw) == wire_seen(v, hw) + driven_edges(swd_request as u32, 8)
                + seq![released_edge()] + sample_slots(3)
            &&& wire_seen(finished, hw) == wire_seen(started, hw) + if ack == ACK_OK {
                seq![released_edge()] + driven_edges(data, 32) + seq![
                    WireEvent::Edge { driven: true, level: odd_ones_below(data, 32) },
                ]
            } else if ack == ACK_WAIT || ack == ACK_FAULT {
                seq![released_edge()]
            } else {
                sample_slots(34)
            }
        }),
{
    let v1 = v.poll_led(now);
    lemma_poll_led_wire(v, hw, now);
    lemma_poll_led_in_step(v, hw, now);
    let v2 = v1.swdio_to_output();
    lemma_swdio_direction_wire(v1, hw);
    lemma_swdio_direction_in_step(v1, hw);
    lemma_request_wire(v2, hw, swd_request);
    let started = v.begin_transfer(swd_request, now);
    lemma_begin_transfer_in_step(v, hw, swd_request, now);
    lemma_turnaround_wire(started, hw);
    let base = wire_seen(started, hw);
    if ack == ACK_OK {
        let t = started.turnaround_to_output();
        lemma_turnaround_in_step(started, hw);
        lemma_write_data_bits_wire(t, hw, data, 32);
        lemma_write_data_bits_in_step(t, hw, data, 32);
        let w = t.write_data_bits(data, 32);
        lemma_write_data_bits_wire(w, hw, parity_bit(data), 1);
        lemma_write_data_bits_in_step(w, hw, parity_bit(data), 1);
        let x = w.write_data_bits(parity_bit(data), 1);
        lemma_bits();
        lemma_drive_a_quiet(x, hw, SWDIO_TMS, true);
        lemma_parity_bit_bits(data);
        assert(bits_lsb_first(parity_bit(data), 1)[0] == bit_at(parity_bit(data), 0));
        assert(driven_edges(parity_bit(data), 1) =~= seq![
            WireEvent::Edge { driven: true, level: odd_ones_below(data, 32) },
        ]);
        assert(base.push(released_edge()) + driven_edges(data, 32) + driven_edges(parity_bit(data), 1)
            =~= base + (seq![released_edge()] + driven_edges(data, 32) + seq![
            WireEvent::Edge { driven: true, level: odd_ones_below(data, 32) },
        ]));
    } else if ack == ACK_WAIT || ack == ACK_FAULT {
        assert(base.push(released_edge()) =~= base + seq![released_edge()]);
    } else {
        lemma_recovery_wire(started, hw);
    }
}

proof fn lemma_recovery_wire(v: ProbeView, hw: FgpioOutputs)
    requires
        in_step(v, hw),
        !v.swdio_output_enabled,
    ensures
        wire_seen(v.protocol_error_recovery(), hw) == wire_seen(v, hw) + sample_slots(34),
{
    lemma_sample_cycles_wire(hw, v.program, v.half_period_delay, 34);
    let v2 = v.sample_cycles(34);
    lemma_sample_cycles_in_step(v, hw, 34);
    lemma_swdio_direction_wire(v2, hw);
    lemma_swdio_direction_in_step(v2, hw);
    lemma_bits();
    lemma_drive_a_quiet(v2.swdio_to_output(), hw, SWDIO_TMS, true);
}

/// What the target sees of a fast SWD read: the probe drives the eight request bits (LSB
/// first), releases SWDIO for one turnaround cycle and samples the three acknowledge bits
/// one SWCLK cycle each; on OK it samples the 32 data bits and the parity bit, one
/// released cycle each, and gives one turnaround cycle before taking SWDIO back; on WAIT
/// or FAULT it gives that turnaround cycle alone; on anything else it samples 34 released
/// cycles.
pub proof fn lemma_read_transfer_wire_events(
    v: ProbeView,
    hw: FgpioOutputs,
    swd_request: u8,
    now: u64,
    ack: u8,
)
    requires
        in_step(v, hw),
    ensures
        ({
            let started = v.begin_transfer(swd_request, now);
            let finished = started.after_read_ack(ack);
            &&& wire_seen(started, hw) == wire_seen(v, hw) + driven_edges(swd_request as u32, 8)
                + seq![released_edge()] + sample_slots(3)
            &&& wire_seen(finished, hw) == wire_seen(started, hw) + if ack == ACK_OK {
                sample_slots(33) + seq![released_edge()]
            } else if ack == ACK_WAIT || ack == ACK_FAULT {
                seq![released_edge()]
            } else {
                sample_slots(34)
            }
        }),
{
    lemma_write_transfer_wire_events(v, hw, swd_request, now, ack, 0);
    let started = v.begin_transfer(swd_request, now);
    lemma_begin_transfer_in_step(v, hw, swd_request, now);
    lemma_turnaround_wire(started, hw);
    let base = wire_seen(started, hw);
    if ack == ACK_OK {
        lemma_sample_cycles_wire(hw, started.program, started.half_period_delay, 32);
        let s32 = started.sample_cycles(32);
        lemma_sample_cycles_in_step(started, hw, 32);
        lemma_sample_cycles_wire(hw, s32.program, s32.half_period_delay, 1);
        let s33 = s32.sample_cycles(1);
        lemma_sample_cycles_in_step(s32, hw, 1);
        lemma_turnaround_wire(s33, hw);
        assert(sample_slots(0) =~= Seq::<WireEvent>::empty());
        assert(sample_slots(1) =~= seq![WireEvent::Sample, released_edge()]);
        assert(base + sample_slots(32) + sample_slots(1) =~= base + sample_slots(33));
        assert((base + sample_slots(33)).push(released_edge()) =~= base + (sample_slots(33)
            + seq![released_edge()]));
    } else if ack == ACK_WAIT || ack == ACK_FAULT {
        assert(base.push(released_edge()) =~= base + seq![released_edge()]);
    } else {
        lemma_recovery_wire(started, hw);
    }
}

} // verus!
