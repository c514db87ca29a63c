//! Register programs: the FGPIO accesses the probe asks the firmware to make, in order,
//! and what they do to the output registers.
use vstd::prelude::*;
use crate::pins::{SWCLK_TCK, SWDIO_TMS};

verus! {

/// One of the two FGPIO ports the probe uses.
#[derive(Clone, Copy, Debug, PartialEq, Eq)]
pub enum Port {
    A,
    B,
}

/// One access to the pad controller or to the FGPIO block.
#[derive(Clone, Copy, Debug, PartialEq, Eq)]
pub enum PinOp {
    /// Configure IOC pad `pad` as a GPIO with fast drive, with or without pull-up.
    ConfigurePad { pad: u8, pull_up: bool },
    /// Route pin `pin` of `port` to the fast GPIO block.
    AssignFgpio { port: Port, pin: u8 },
    /// Write the whole data-output register of `port` (DO).
    WriteOutput { port: Port, value: u32 },
    /// Set the bits of `mask` in the data-output register (DO_SET).
    SetOutputs { port: Port, mask: u32 },
    /// Clear the bits of `mask` in the data-output register (DO_CLR).
    ClearOutputs { port: Port, mask: u32 },
    /// Turn the bits of `mask` into outputs (OE_SET).
    EnableOutputs { port: Port, mask: u32 },
    /// Turn the bits of `mask` into inputs (OE_CLR).
    DisableOutputs { port: Port, mask: u32 },
    /// Busy-wait `count` spin-loop hints.
    Delay { count: u8 },
    /// Read the data-input register of `port` (DI) and hand the value back.
    Sample { port: Port },
}

/// The output-side registers of ports A and B: data out and output enable.
#[derive(Clone, Copy, Debug, PartialEq, Eq)]
pub struct FgpioOutputs {
    pub do_a: u32,
    pub do_b: u32,
    pub oe_a: u32,
    pub oe_b: u32,
}

/// What one access does to the output registers.
pub open spec fn apply_op(hw: FgpioOutputs, op: PinOp) -> FgpioOutputs {
    match op {
        PinOp::WriteOutput { port, value } => match port {
            Port::A => FgpioOutputs { do_a: value, ..hw },
            Port::B => FgpioOutputs { do_b: value, ..hw },
        },
        PinOp::SetOutputs { port, mask } => match port {
            Port::A => FgpioOutputs { do_a: hw.do_a | mask, ..hw },
            Port::B => FgpioOutputs { do_b: hw.do_b | mask, ..hw },
        },
        PinOp::ClearOutputs { port, mask } => match port {
            Port::A => FgpioOutputs { do_a: hw.do_a & !mask, ..hw },
            Port::B => FgpioOutputs { do_b: hw.do_b & !mask, ..hw },
        },
        PinOp::EnableOutputs { port, mask } => match port {
            Port::A => FgpioOutputs { oe_a: hw.oe_a | mask, ..hw },
            Port::B => FgpioOutputs { oe_b: hw.oe_b | mask, ..hw },
        },
        PinOp::DisableOutputs { port, mask } => match port {
            Port::A => FgpioOutputs { oe_a: hw.oe_a & !mask, ..hw },
            Port::B => FgpioOutputs { oe_b: hw.oe_b & !mask, ..hw },
        },
        _ => hw,
    }
}

/// The output registers after performing `ops` in order, starting from `hw`.
pub open spec fn run_ops(hw: FgpioOutputs, ops: Seq<PinOp>) -> FgpioOutputs
    decreases ops.len(),
{
    if ops.len() == 0 {
        hw
    } else {
        apply_op(run_ops(hw, ops.drop_last()), ops.last())
    }
}

/// SWCLK / TCK goes from low to high between `before` and `after`.
pub open spec fn rising_clock_edge(before: FgpioOutputs, after: FgpioOutputs) -> bool {
    before.do_a & SWCLK_TCK == 0 && after.do_a & SWCLK_TCK != 0
}

/// The level of the port-A pins in `mask` at each rising SWCLK / TCK edge that `ops`
/// make while those pins are outputs, starting from `hw`: the bits the probe shifts into
/// the target.
pub open spec fn levels_at_rising_edges(hw: FgpioOutputs, ops: Seq<PinOp>, mask: u32) -> Seq<bool>
    decreases ops.len(),
{
    if ops.len() == 0 {
        Seq::empty()
    } else {
        let before = run_ops(hw, ops.drop_last());
        let after = apply_op(before, ops.last());
        let earlier = levels_at_rising_edges(hw, ops.drop_last(), mask);
        if rising_clock_edge(before, after) && after.oe_a & mask != 0 {
            earlier.push(after.do_a & mask != 0)
        } else {
            earlier
        }
    }
}

/// The number of input samples `ops` take.
pub open spec fn sample_count(ops: Seq<PinOp>) -> nat
    decreases ops.len(),
{
    if ops.len() == 0 {
        0
    } else {
        sample_count(ops.drop_last()) + if ops.last() is Sample {
            1nat
        } else {
            0nat
        }
    }
}

/// Performing one more access after `ops` applies it to the registers `ops` left, adds
/// the level at the edge it makes, if it makes one, and adds the sample it takes, if any.
pub proof fn lemma_push_op(hw: FgpioOutputs, ops: Seq<PinOp>, op: PinOp, mask: u32)
    ensures
        run_ops(hw, ops.push(op)) == apply_op(run_ops(hw, ops), op),
        levels_at_rising_edges(hw, ops.push(op), mask) == if rising_clock_edge(
            run_ops(hw, ops),
            apply_op(run_ops(hw, ops), op),
        ) && apply_op(run_ops(hw, ops), op).oe_a & mask != 0 {
            levels_at_rising_edges(hw, ops, mask).push(apply_op(run_ops(hw, ops), op).do_a & mask != 0)
        } else {
            levels_at_rising_edges(hw, ops, mask)
        },
        sample_count(ops.push(op)) == sample_count(ops) + if op is Sample {
            1nat
        } else {
            0nat
        },
{
    assert(ops.push(op).drop_last() =~= ops);
}

/// What the target sees of the probe on the SWD wires: a rising SWCLK edge, with SWDIO
/// driven by the probe at `level` or released to the target (`driven` false, `level`
/// false), or the probe reading the pins.
pub ghost enum WireEvent {
    Edge { driven: bool, level: bool },
    Sample,
}

/// What the target sees of `ops`, performed in order from registers `hw`: one event per
/// sample and per rising SWCLK edge.
pub open spec fn wire_events(hw: FgpioOutputs, ops: Seq<PinOp>) -> Seq<WireEvent>
    decreases ops.len(),
{
    if ops.len() == 0 {
        Seq::empty()
    } else {
        let before = run_ops(hw, ops.drop_last());
        let after = apply_op(before, ops.last());
        let earlier = wire_events(hw, ops.drop_last());
        if ops.last() is Sample {
            earlier.push(WireEvent::Sample)
        } else if rising_clock_edge(before, after) {
            let driven = after.oe_a & SWDIO_TMS != 0;
            earlier.push(WireEvent::Edge { driven, level: driven && after.do_a & SWDIO_TMS != 0 })
        } else {
            earlier
        }
    }
}

/// Performing one more access after `ops` adds the event it makes, if any.
pub proof fn lemma_push_op_wire(hw: FgpioOutputs, ops: Seq<PinOp>, op: PinOp)
    ensures
        run_ops(hw, ops.push(op)) == apply_op(run_ops(hw, ops), op),
        wire_events(hw, ops.push(op)) == if op is Sample {
            wire_events(hw, ops).push(WireEvent::Sample)
        } else if rising_clock_edge(run_ops(hw, ops), apply_op(run_ops(hw, ops), op)) {
            let after = apply_op(run_ops(hw, ops), op);
            let driven = after.oe_a & SWDIO_TMS != 0;
            wire_events(hw, ops).push(
                WireEvent::Edge { driven, level: driven && after.do_a & SWDIO_TMS != 0 },
            )
        } else {
            wire_events(hw, ops)
        },
{
    assert(ops.push(op).drop_last() =~= ops);
}

} // verus!
