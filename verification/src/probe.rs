//! The probe's pin driver: the shadow of the output registers, SWCLK timing, the
//! activity LED, and the register program each operation queues.
use vstd::prelude::*;
use crate::pins::{
    ACTIVITY_LED, NRESET, OUTPUT_MASK_A, OUTPUT_MASK_B, PAD_NRESET, PIN_ACTIVITY_LED, PIN_NRESET,
    PIN_SWCLK_TCK, PIN_SWDIO_TMS, PIN_TDI, PIN_TDO, SWCLK_TCK, SWDIO_TMS, TDI, TDO,
};
use crate::program::{PinOp, Port};
use crate::protocol::{
    activity_led_bit, bit_at, delay_table, lemma_or_fresh_bit, led_level, normalize_swj_clock_hz,
    normalized_clock, swd_delay_for_hz, swd_write_delay_for_hz, DEFAULT_SWJ_CLOCK_HZ,
};

verus! {

/// How long the LED stays in one state while blinking, in milliseconds.
pub const ACTIVITY_LED_BLINK_TOGGLE_MS: u64 = 100;

/// Number of polls between two looks at the clock during block transfers.
pub const ACTIVITY_LED_POLL_INTERVAL: u8 = 64;

/// `2^63`: a wrapped tick difference below it counts as not negative (the deadline passed).
pub const TICK_HALF_RANGE: u64 = 0x8000_0000_0000_0000;

/// How the LED shows that the probe is busy.
#[allow(dead_code)]
#[derive(Clone, Copy)]
enum ActivityLedMode {
    SteadyBusy,
    BlinkBusy,
}

const ACTIVITY_LED_MODE: ActivityLedMode = ActivityLedMode::BlinkBusy;

/// The probe's state as contracts speak of it.
pub ghost struct ProbeView {
    /// Spin-loop hints per half SWCLK period when clocking and sampling.
    pub half_period_delay: u8,
    /// Spin-loop hints per half SWCLK period when driving data and turning around.
    pub write_half_period_delay: u8,
    /// SWDIO is an output (it is an input while the target drives it).
    pub swdio_output_enabled: bool,
    /// What the port-A data-output register holds once the program has run.
    pub output_a: u32,
    /// What the port-B data-output register holds once the program has run.
    pub output_b: u32,
    /// The LED is blinking.
    pub led_active: bool,
    /// The LED is lit.
    pub led_lit: bool,
    /// Tick at which a blinking LED toggles next.
    pub led_next_toggle: u64,
    /// Polls left before the LED looks at the clock again.
    pub led_poll_count: u8,
    /// Ticks in one LED blink phase.
    pub led_toggle_ticks: u64,
    /// Register accesses decided but not yet performed, oldest first.
    pub program: Seq<PinOp>,
}

/// The data-output level of port A that drives the pins of `mask` to `high` and SWCLK low.
pub open spec fn drive_level(output: u32, mask: u32, high: bool) -> u32 {
    if high {
        (output | mask) & !SWCLK_TCK
    } else {
        output & !(mask | SWCLK_TCK)
    }
}

/// Appends one clocked bit to `p`: the data write, an optional setup delay, the rising
/// SWCLK edge, an optional hold delay.
pub open spec fn clocked_bit_ops(
    p: Seq<PinOp>,
    level: u32,
    delay: u8,
    setup_delay: bool,
    hold_delay: bool,
) -> Seq<PinOp> {
    let p1 = p.push(PinOp::WriteOutput { port: Port::A, value: level });
    let p2 = if setup_delay {
        p1.push(PinOp::Delay { count: delay })
    } else {
        p1
    };
    let p3 = p2.push(PinOp::SetOutputs { port: Port::A, mask: SWCLK_TCK });
    if hold_delay {
        p3.push(PinOp::Delay { count: delay })
    } else {
        p3
    }
}

/// The port-A output after clocking out the low `count` bits of `bits` on `mask`,
/// starting from `output`.
pub open spec fn shifted_output(output: u32, mask: u32, bits: u32, count: nat) -> u32
    decreases count,
{
    if count == 0 {
        output
    } else {
        drive_level(
            shifted_output(output, mask, bits, (count - 1) as nat),
            mask,
            bit_at(bits, (count - 1) as nat),
        ) | SWCLK_TCK
    }
}

/// Appends to `p` the accesses that clock out the low `count` bits of `bits`, LSB first,
/// on the pins of `mask`, starting from port-A output `output`.
pub open spec fn shift_out_ops(
    p: Seq<PinOp>,
    output: u32,
    mask: u32,
    bits: u32,
    count: nat,
    delay: u8,
    setup_delay: bool,
    hold_delay: bool,
) -> Seq<PinOp>
    decreases count,
{
    if count == 0 {
        p
    } else {
        let before = shifted_output(output, mask, bits, (count - 1) as nat);
        clocked_bit_ops(
            shift_out_ops(
                p,
                output,
                mask,
                bits,
                (count - 1) as nat,
                delay,
                setup_delay,
                hold_delay,
            ),
            drive_level(before, mask, bit_at(bits, (count - 1) as nat)),
            delay,
            setup_delay,
            hold_delay,
        )
    }
}

/// Appends `count` sampling clock cycles to `p`: SWCLK low, delay, sample port A, SWCLK
/// high, delay.
pub open spec fn sample_cycles_ops(p: Seq<PinOp>, delay: u8, count: nat) -> Seq<PinOp>
    decreases count,
{
    if count == 0 {
        p
    } else {
        sample_cycles_ops(p, delay, (count - 1) as nat).push(
            PinOp::ClearOutputs { port: Port::A, mask: SWCLK_TCK },
        ).push(PinOp::Delay { count: delay }).push(PinOp::Sample { port: Port::A }).push(
            PinOp::SetOutputs { port: Port::A, mask: SWCLK_TCK },
        ).push(PinOp::Delay { count: delay })
    }
}

impl ProbeView {
    /// Queues `op`.
    pub open spec fn emit(self, op: PinOp) -> ProbeView {
        ProbeView { program: self.program.push(op), ..self }
    }

    /// After `set_clock_hz(hz)`.
    pub open spec fn with_clock(self, hz: u32) -> ProbeView {
        ProbeView {
            half_period_delay: delay_table(normalized_clock(hz)),
            write_half_period_delay: delay_table(normalized_clock(hz)),
            ..self
        }
    }

    /// After `swdio_output()`.
    pub open spec fn swdio_to_output(self) -> ProbeView {
        if self.swdio_output_enabled {
            self
        } else {
            ProbeView {
                swdio_output_enabled: true,
                ..self.emit(PinOp::EnableOutputs { port: Port::A, mask: SWDIO_TMS })
            }
        }
    }

    /// After `swdio_input()`.
    pub open spec fn swdio_to_input(self) -> ProbeView {
        if self.swdio_output_enabled {
            ProbeView {
                swdio_output_enabled: false,
                ..self.emit(PinOp::DisableOutputs { port: Port::A, mask: SWDIO_TMS })
            }
        } else {
            self
        }
    }

    /// After driving the port-A pins of `mask` to `high`; nothing is written when they
    /// already are.
    pub open spec fn drive_a(self, mask: u32, high: bool) -> ProbeView {
        let o = if high {
            self.output_a | mask
        } else {
            self.output_a & !mask
        };
        if o != self.output_a {
            ProbeView { output_a: o, ..self.emit(PinOp::WriteOutput { port: Port::A, value: o }) }
        } else {
            self
        }
    }

    /// After `set_reset(high)`.
    pub open spec fn drive_reset(self, high: bool) -> ProbeView {
        let o = if high {
            self.output_b | NRESET
        } else {
            self.output_b & !NRESET
        };
        if o != self.output_b {
            ProbeView { output_b: o, ..self.emit(PinOp::WriteOutput { port: Port::B, value: o }) }
        } else {
            self
        }
    }

    /// After lighting (`lit`) or darkening the LED.
    pub open spec fn led(self, lit: bool) -> ProbeView {
        if self.led_lit == lit {
            self
        } else {
            let o = (self.output_a & !ACTIVITY_LED) | led_level(lit);
            ProbeView {
                led_lit: lit,
                output_a: o,
                ..self.emit(PinOp::WriteOutput { port: Port::A, value: o })
            }
        }
    }

    /// After one blink step at tick `now`: the first call lights the LED and schedules a
    /// toggle; later calls toggle it once the scheduled tick has passed.
    pub open spec fn blink(self, now: u64) -> ProbeView {
        let next = vstd::wrapping::u64_specs::wrapping_add(now, self.led_toggle_ticks);
        if !self.led_active {
            ProbeView { led_active: true, led_next_toggle: next, ..self }.led(true)
        } else if vstd::wrapping::u64_specs::wrapping_sub(now, self.led_next_toggle)
            < TICK_HALF_RANGE {
            ProbeView { led_next_toggle: next, ..self }.led(!self.led_lit)
        } else {
            self
        }
    }

    /// After `activity_led_busy(now)`.
    pub open spec fn led_busy(self, now: u64) -> ProbeView {
        self.blink(now)
    }

    /// After `activity_led_idle()`.
    pub open spec fn led_idle(self) -> ProbeView {
        ProbeView { led_active: false, led_poll_count: 0, ..self }.led(false)
    }

    /// After one poll of the LED at tick `now`.
    pub open spec fn poll_led(self, now: u64) -> ProbeView {
        if self.led_poll_count != 0 {
            ProbeView { led_poll_count: (self.led_poll_count - 1) as u8, ..self }
        } else {
            ProbeView { led_poll_count: ACTIVITY_LED_POLL_INTERVAL, ..self }.led_busy(now)
        }
    }

    /// After one SWCLK cycle with `delay` per half period.
    pub open spec fn clock_cycle(self, delay: u8) -> ProbeView {
        ProbeView {
            output_a: self.output_a | SWCLK_TCK,
            program: self.program.push(PinOp::ClearOutputs { port: Port::A, mask: SWCLK_TCK }).push(
                PinOp::Delay { count: delay },
            ).push(PinOp::SetOutputs { port: Port::A, mask: SWCLK_TCK }).push(
                PinOp::Delay { count: delay },
            ),
            ..self
        }
    }

    /// After `count` sampling SWCLK cycles at the half-period delay.
    pub open spec fn sample_cycles(self, count: nat) -> ProbeView {
        ProbeView {
            output_a: self.output_a | SWCLK_TCK,
            program: sample_cycles_ops(self.program, self.half_period_delay, count),
            ..self
        }
    }

    /// After clocking out one bit on the pins of `mask`.
    pub open spec fn clock_out_bit(
        self,
        mask: u32,
        high: bool,
        delay: u8,
        setup_delay: bool,
        hold_delay: bool,
    ) -> ProbeView {
        let level = drive_level(self.output_a, mask, high);
        ProbeView {
            output_a: level | SWCLK_TCK,
            program: clocked_bit_ops(self.program, level, delay, setup_delay, hold_delay),
            ..self
        }
    }

    /// After clocking out the low `count` bits of `bits`, LSB first, on the pins of `mask`.
    pub open spec fn shift_out(
        self,
        mask: u32,
        bits: u32,
        count: nat,
        delay: u8,
        setup_delay: bool,
        hold_delay: bool,
    ) -> ProbeView {
        ProbeView {
            output_a: shifted_output(self.output_a, mask, bits, count),
            program: shift_out_ops(
                self.program,
                self.output_a,
                mask,
                bits,
                count,
                delay,
                setup_delay,
                hold_delay,
            ),
            ..self
        }
    }

    /// After `swd_write_bits(bits, count)`.
    pub open spec fn write_bits(self, bits: u32, count: nat) -> ProbeView {
        self.shift_out(SWDIO_TMS, bits, count, self.half_period_delay, true, true)
    }

    /// After `swd_write_data_bits(bits, count)`.
    pub open spec fn write_data_bits(self, bits: u32, count: nat) -> ProbeView {
        if self.write_half_period_delay == 0 {
            self.shift_out(SWDIO_TMS, bits, count, 0, false, false)
        } else if self.write_half_period_delay != 1 {
            self.write_bits(bits, count)
        } else {
            self.shift_out(SWDIO_TMS, bits, count, 1, true, false)
        }
    }

    /// After `swd_write_bit_cycle(high)`.
    pub open spec fn write_bit_cycle(self, high: bool) -> ProbeView {
        let level = drive_level(self.output_a, SWDIO_TMS, high);
        ProbeView {
            output_a: level | SWCLK_TCK,
            program: self.program.push(PinOp::WriteOutput { port: Port::A, value: level }).push(
                PinOp::Delay { count: self.half_period_delay },
            ).push(PinOp::WriteOutput { port: Port::A, value: level | SWCLK_TCK }).push(
                PinOp::Delay { count: self.half_period_delay },
            ),
            ..self
        }
    }

    /// After `jtag_cycle_tdio(high)`: TDI driven, TDO sampled before the rising edge.
    pub open spec fn tdi_tdo_cycle(self, high: bool) -> ProbeView {
        let level = drive_level(self.output_a, TDI, high);
        let d = self.half_period_delay;
        ProbeView {
            output_a: level | SWCLK_TCK,
            program: self.program.push(PinOp::WriteOutput { port: Port::A, value: level }).push(
                PinOp::Delay { count: d },
            ).push(PinOp::Sample { port: Port::A }).push(
                PinOp::SetOutputs { port: Port::A, mask: SWCLK_TCK },
            ).push(PinOp::Delay { count: d }),
            ..self
        }
    }

    /// After the request phase of a fast transfer: the eight request bits, SWDIO handed
    /// to the target, one turnaround cycle, three acknowledge samples.
    pub open spec fn request_and_ack(self, swd_request: u8) -> ProbeView {
        self.write_data_bits(swd_request as u32, 8).swdio_to_input().clock_cycle(
            self.write_half_period_delay,
        ).sample_cycles(3)
    }

    /// After recovering from a protocol error: SWDIO released for 34 cycles, then driven
    /// high again.
    pub open spec fn protocol_error_recovery(self) -> ProbeView {
        self.swdio_to_input().sample_cycles(34).swdio_to_output().drive_a(SWDIO_TMS, true)
    }

    /// After the start of a fast transfer at tick `now`: LED poll, SWDIO taken, request
    /// and acknowledge phase.
    pub open spec fn begin_transfer(self, swd_request: u8, now: u64) -> ProbeView {
        self.poll_led(now).swdio_to_output().request_and_ack(swd_request)
    }

    /// After the turnaround that follows a WAIT or FAULT, or precedes the data phase: one
    /// cycle, SWDIO taken back.
    pub open spec fn turnaround_to_output(self) -> ProbeView {
        self.clock_cycle(self.write_half_period_delay).swdio_to_output()
    }
}

/// The initial register program: pad setup, FGPIO routing, initial levels, directions.
pub open spec fn init_program(output_a: u32, output_b: u32) -> Seq<PinOp> {
    Seq::empty()
        .push(PinOp::ConfigurePad { pad: PIN_TDO, pull_up: false })
        .push(PinOp::ConfigurePad { pad: PIN_SWCLK_TCK, pull_up: false })
        .push(PinOp::ConfigurePad { pad: PIN_SWDIO_TMS, pull_up: true })
        .push(PinOp::ConfigurePad { pad: PIN_TDI, pull_up: false })
        .push(PinOp::ConfigurePad { pad: PAD_NRESET, pull_up: true })
        .push(PinOp::ConfigurePad { pad: PIN_ACTIVITY_LED, pull_up: false })
        .push(PinOp::AssignFgpio { port: Port::A, pin: PIN_TDO })
        .push(PinOp::AssignFgpio { port: Port::A, pin: PIN_SWCLK_TCK })
        .push(PinOp::AssignFgpio { port: Port::A, pin: PIN_SWDIO_TMS })
        .push(PinOp::AssignFgpio { port: Port::A, pin: PIN_TDI })
        .push(PinOp::AssignFgpio { port: Port::A, pin: PIN_ACTIVITY_LED })
        .push(PinOp::AssignFgpio { port: Port::B, pin: PIN_NRESET })
        .push(PinOp::WriteOutput { port: Port::A, value: output_a })
        .push(PinOp::WriteOutput { port: Port::B, value: output_b })
        .push(PinOp::EnableOutputs { port: Port::A, mask: OUTPUT_MASK_A })
        .push(PinOp::EnableOutputs { port: Port::B, mask: OUTPUT_MASK_B })
        .push(PinOp::DisableOutputs { port: Port::A, mask: TDO })
}

/// The state of a fresh probe whose LED blinks with `led_toggle_ticks` per phase.
pub open spec fn initial_view(led_toggle_ticks: u64) -> ProbeView {
    let output_a = SWDIO_TMS | TDI | led_level(false);
    let output_b = NRESET;
    ProbeView {
        half_period_delay: delay_table(DEFAULT_SWJ_CLOCK_HZ),
        write_half_period_delay: delay_table(DEFAULT_SWJ_CLOCK_HZ),
        swdio_output_enabled: true,
        output_a,
        output_b,
        led_active: false,
        led_lit: false,
        led_next_toggle: 0,
        led_poll_count: 0,
        led_toggle_ticks,
        program: init_program(output_a, output_b),
    }
}

/// The SWD / JTAG pins of the probe and the shadow of their output registers.
pub struct ProbePins {
    half_period_delay: u8,
    write_half_period_delay: u8,
    swdio_output_enabled: bool,
    output_a: u32,
    output_b: u32,
    activity_led_active: bool,
    activity_led_lit: bool,
    activity_led_next_toggle: u64,
    activity_led_poll_count: u8,
    activity_led_toggle_ticks: u64,
    program: Vec<PinOp>,
}

impl View for ProbePins {
    type V = ProbeView;

    closed spec fn view(&self) -> ProbeView {
        ProbeView {
            half_period_delay: self.half_period_delay,
            write_half_period_delay: self.write_half_period_delay,
            swdio_output_enabled: self.swdio_output_enabled,
            output_a: self.output_a,
            output_b: self.output_b,
            led_active: self.activity_led_active,
            led_lit: self.activity_led_lit,
            led_next_toggle: self.activity_led_next_toggle,
            led_poll_count: self.activity_led_poll_count,
            led_toggle_ticks: self.activity_led_toggle_ticks,
            program: self.program@,
        }
    }
}

impl ProbePins {
    /// Takes the probe pins: queues their pad setup, routes them to the fast GPIO block,
    /// drives SWDIO, TDI and nRESET high with the LED dark and SWCLK low, and makes every
    /// pin but TDO an output. SWCLK runs at 8 MHz.
    pub fn new(led_toggle_ticks: u64) -> (pins: Self)
        ensures
            pins@ == initial_view(led_toggle_ticks),
    {
        let output_a = (SWDIO_TMS | TDI) | activity_led_bit(false);
        let output_b = NRESET;
        let mut program: Vec<PinOp> = Vec::new();
        program.push(PinOp::ConfigurePad { pad: PIN_TDO, pull_up: false });
        program.push(PinOp::ConfigurePad { pad: PIN_SWCLK_TCK, pull_up: false });
        program.push(PinOp::ConfigurePad { pad: PIN_SWDIO_TMS, pull_up: true });
        program.push(PinOp::ConfigurePad { pad: PIN_TDI, pull_up: false });
        program.push(PinOp::ConfigurePad { pad: PAD_NRESET, pull_up: true });
        program.push(PinOp::ConfigurePad { pad: PIN_ACTIVITY_LED, pull_up: false });
        program.push(PinOp::AssignFgpio { port: Port::A, pin: PIN_TDO });
        program.push(PinOp::AssignFgpio { port: Port::A, pin: PIN_SWCLK_TCK });
        program.push(PinOp::AssignFgpio { port: Port::A, pin: PIN_SWDIO_TMS });
        program.push(PinOp::AssignFgpio { port: Port::A, pin: PIN_TDI });
        program.push(PinOp::AssignFgpio { port: Port::A, pin: PIN_ACTIVITY_LED });
        program.push(PinOp::AssignFgpio { port: Port::B, pin: PIN_NRESET });
        program.push(PinOp::WriteOutput { port: Port::A, value: output_a });
        program.push(PinOp::WriteOutput { port: Port::B, value: output_b });
        program.push(PinOp::EnableOutputs { port: Port::A, mask: OUTPUT_MASK_A });
        program.push(PinOp::EnableOutputs { port: Port::B, mask: OUTPUT_MASK_B });
        program.push(PinOp::DisableOutputs { port: Port::A, mask: TDO });
        let pins = ProbePins {
            half_period_delay: swd_delay_for_hz(DEFAULT_SWJ_CLOCK_HZ),
            write_half_period_delay: swd_write_delay_for_hz(DEFAULT_SWJ_CLOCK_HZ),
            swdio_output_enabled: true,
            output_a,
            output_b,
            activity_led_active: false,
            activity_led_lit: false,
            activity_led_next_toggle: 0,
            activity_led_poll_count: 0,
            activity_led_toggle_ticks: led_toggle_ticks,
            program,
        };
        assert(pins@.program =~= init_program(output_a, output_b));
        pins
    }

    /// Hands over the queued register program, oldest access first, and starts a new one.
    pub fn take_program(&mut self) -> (ops: Vec<PinOp>)
        ensures
            ops@ == old(self)@.program,
            final(self)@ == (ProbeView { program: Seq::empty(), ..old(self)@ }),
    {
        let mut ops: Vec<PinOp> = Vec::new();
        std::mem::swap(&mut ops, &mut self.program);
        ops
    }

    /// Sets the SWCLK / TCK frequency; probe-rs's 1 MHz default runs at 8 MHz and every
    /// request above 8 MHz is capped at 8 MHz.
    pub fn set_clock_hz(&mut self, hz: u32)
        ensures
            final(self)@ == old(self)@.with_clock(hz),
    {
        let hz = normalize_swj_clock_hz(hz);
        self.half_period_delay = swd_delay_for_hz(hz);
        self.write_half_period_delay = swd_write_delay_for_hz(hz);
    }

    /// Makes SWDIO an output (the host drives it).
    pub fn swdio_output(&mut self)
        ensures
            final(self)@ == old(self)@.swdio_to_output(),
    {
        if !self.swdio_output_enabled {
            self.program.push(PinOp::EnableOutputs { port: Port::A, mask: SWDIO_TMS });
            self.swdio_output_enabled = true;
        }
    }

    /// Makes SWDIO an input (the target drives it).
    pub fn swdio_input(&mut self)
        ensures
            final(self)@ == old(self)@.swdio_to_input(),
    {
        if self.swdio_output_enabled {
            self.program.push(PinOp::DisableOutputs { port: Port::A, mask: SWDIO_TMS });
            self.swdio_output_enabled = false;
        }
    }

    /// Drives SWDIO / TMS to `high`.
    pub fn set_swdio_tms(&mut self, high: bool)
        ensures
            final(self)@ == old(self)@.drive_a(SWDIO_TMS, high),
    {
        self.write_a_level(SWDIO_TMS, high);
    }

    /// Drives TDI to `high`.
    pub fn set_tdi(&mut self, high: bool)
        ensures
            final(self)@ == old(self)@.drive_a(TDI, high),
    {
        self.write_a_level(TDI, high);
    }

    /// Drives SWCLK / TCK to `high`.
    pub fn set_swclk_tck(&mut self, high: bool)
        ensures
            final(self)@ == old(self)@.drive_a(SWCLK_TCK, high),
    {
        self.write_a_level(SWCLK_TCK, high);
    }

    /// Drives nRESET to `high`; nothing is written when it already is.
    pub fn set_reset(&mut self, high: bool)
        ensures
            final(self)@ == old(self)@.drive_reset(high),
    {
        let output_b = if high {
            self.output_b | NRESET
        } else {
            self.output_b & !NRESET
        };
        if output_b != self.output_b {
            self.output_b = output_b;
            self.program.push(PinOp::WriteOutput { port: Port::B, value: self.output_b });
        }
    }

    /// Shows activity at tick `now`: the LED blinks while the probe is busy.
    pub fn activity_led_busy(&mut self, now: u64)
        ensures
            final(self)@ == old(self)@.led_busy(now),
    {
        match ACTIVITY_LED_MODE {
            ActivityLedMode::SteadyBusy => self.set_activity_led(true),
            ActivityLedMode::BlinkBusy => self.blink_activity_led(now),
        }
    }

    /// Shows that the probe is idle: the LED goes dark and stops blinking.
    pub fn activity_led_idle(&mut self)
        ensures
            final(self)@ == old(self)@.led_idle(),
            !final(self)@.led_lit,
    {
        self.activity_led_active = false;
        self.activity_led_poll_count = 0;
        self.set_activity_led(false);
    }

    /// SWDIO is high in the port-A input sample `di_a`.
    pub fn read_swdio(&self, di_a: u32) -> (high: bool)
        ensures
            high == (di_a & SWDIO_TMS != 0),
    {
        di_a & SWDIO_TMS != 0
    }

    /// TDO is high in the port-A input sample `di_a`.
    pub fn read_tdo(&self, di_a: u32) -> (high: bool)
        ensures
            high == (di_a & TDO != 0),
    {
        di_a & TDO != 0
    }

    /// One SWCLK / TCK cycle: low, half period, high, half period.
    pub fn swclk_cycle(&mut self)
        ensures
            final(self)@ == old(self)@.clock_cycle(old(self)@.half_period_delay),
    {
        self.program.push(PinOp::ClearOutputs { port: Port::A, mask: SWCLK_TCK });
        self.delay_half();
        self.output_a = self.output_a | SWCLK_TCK;
        self.program.push(PinOp::SetOutputs { port: Port::A, mask: SWCLK_TCK });
        self.delay_half();
    }

    /// One SWCLK cycle that samples SWDIO while the clock is low; the sample is the only
    /// one the cycle takes.
    pub fn swclk_sample_swdio(&mut self)
        ensures
            final(self)@ == old(self)@.sample_cycles(1),
    {
        self.program.push(PinOp::ClearOutputs { port: Port::A, mask: SWCLK_TCK });
        self.delay_half();
        self.program.push(PinOp::Sample { port: Port::A });
        self.output_a = self.output_a | SWCLK_TCK;
        self.program.push(PinOp::SetOutputs { port: Port::A, mask: SWCLK_TCK });
        self.delay_half();
        assert(sample_cycles_ops(old(self).program@, self.half_period_delay, 0) == old(
            self,
        ).program@);
        assert(self.program@ =~= sample_cycles_ops(old(self).program@, self.half_period_delay, 1));
    }

    /// Drives one SWDIO bit and clocks it out with full data writes.
    pub fn swd_write_bit_cycle(&mut self, high: bool)
        ensures
            final(self)@ == old(self)@.write_bit_cycle(high),
    {
        if high {
            self.output_a = (self.output_a | SWDIO_TMS) & !SWCLK_TCK;
        } else {
            self.output_a = self.output_a & !(SWDIO_TMS | SWCLK_TCK);
        }
        self.program.push(PinOp::WriteOutput { port: Port::A, value: self.output_a });
        self.delay_half();
        self.output_a = self.output_a | SWCLK_TCK;
        self.program.push(PinOp::WriteOutput { port: Port::A, value: self.output_a });
        self.delay_half();
    }

    /// One TCK cycle.
    pub fn tck_cycle(&mut self)
        ensures
            final(self)@ == old(self)@.clock_cycle(old(self)@.half_period_delay),
    {
        self.swclk_cycle();
    }

    /// One TCK cycle that samples TDO while the clock is low.
    pub fn tck_sample_tdo(&mut self)
        ensures
            final(self)@ == old(self)@.sample_cycles(1),
    {
        self.program.push(PinOp::ClearOutputs { port: Port::A, mask: SWCLK_TCK });
        self.delay_half();
        self.program.push(PinOp::Sample { port: Port::A });
        self.output_a = self.output_a | SWCLK_TCK;
        self.program.push(PinOp::SetOutputs { port: Port::A, mask: SWCLK_TCK });
        self.delay_half();
        assert(sample_cycles_ops(old(self).program@, self.half_period_delay, 0) == old(
            self,
        ).program@);
        assert(self.program@ =~= sample_cycles_ops(old(self).program@, self.half_period_delay, 1));
    }

    /// One TCK cycle that drives TDI to `high` (with the data-drive delay).
    pub fn jtag_cycle_tdi(&mut self, high: bool)
        ensures
            final(self)@ == old(self)@.clock_out_bit(
                TDI,
                high,
                old(self)@.write_half_period_delay,
                true,
                true,
            ),
    {
        let delay = self.write_half_period_delay;
        if high {
            self.output_a = (self.output_a | TDI) & !SWCLK_TCK;
        } else {
            self.output_a = self.output_a & !(TDI | SWCLK_TCK);
        }
        self.program.push(PinOp::WriteOutput { port: Port::A, value: self.output_a });
        self.program.push(PinOp::Delay { count: delay });
        self.output_a = self.output_a | SWCLK_TCK;
        self.program.push(PinOp::SetOutputs { port: Port::A, mask: SWCLK_TCK });
        self.program.push(PinOp::Delay { count: delay });
    }

    /// One TCK cycle that drives TDI to `high` and samples TDO while the clock is low.
    pub fn jtag_cycle_tdio(&mut self, high: bool)
        ensures
            final(self)@ == old(self)@.tdi_tdo_cycle(high),
    {
        let delay = self.half_period_delay;
        if high {
            self.output_a = (self.output_a | TDI) & !SWCLK_TCK;
        } else {
            self.output_a = self.output_a & !(TDI | SWCLK_TCK);
        }
        self.program.push(PinOp::WriteOutput { port: Port::A, value: self.output_a });
        self.program.push(PinOp::Delay { count: delay });
        self.program.push(PinOp::Sample { port: Port::A });
        self.output_a = self.output_a | SWCLK_TCK;
        self.program.push(PinOp::SetOutputs { port: Port::A, mask: SWCLK_TCK });
        self.program.push(PinOp::Delay { count: delay });
    }

    /// The CMSIS-DAP pin byte for the port samples `di_a` and `di_b`: bit 0 SWCLK/TCK,
    /// bit 1 SWDIO/TMS, bit 2 TDI, bit 3 TDO, bit 5 nTRST (always reported high), bit 7
    /// nRESET.
    pub fn current_pin_state(&self, di_a: u32, di_b: u32) -> (pins: u8)
        ensures
            pins == (if di_a & SWCLK_TCK != 0 { 0x01u8 } else { 0u8 }) + (if di_a & SWDIO_TMS != 0 {
                0x02u8
            } else {
                0u8
            }) + (if di_a & TDI != 0 {
                0x04u8
            } else {
                0u8
            }) + (if di_a & TDO != 0 {
                0x08u8
            } else {
                0u8
            }) + 0x20u8 + (if di_b & NRESET != 0 {
                0x80u8
            } else {
                0u8
            }),
    {
        let mut pins: u8 = 0;
        if di_a & SWCLK_TCK != 0 {
            pins |= 0x01;
        }
        if di_a & SWDIO_TMS != 0 {
            pins |= 0x02;
        }
        if di_a & TDI != 0 {
            pins |= 0x04;
        }
        if di_a & TDO != 0 {
            pins |= 0x08;
        }
        pins |= 0x20;
        if di_b & NRESET != 0 {
            pins |= 0x80;
        }
        proof {
            lemma_or_fresh_bit();
        }
        pins
    }

    fn write_a_level(&mut self, mask: u32, high: bool)
        ensures
            final(self)@ == old(self)@.drive_a(mask, high),
    {
        let output_a = if high {
            self.output_a | mask
        } else {
            self.output_a & !mask
        };
        if output_a != self.output_a {
            self.output_a = output_a;
            self.program.push(PinOp::WriteOutput { port: Port::A, value: self.output_a });
        }
    }

    fn set_activity_led(&mut self, lit: bool)
        ensures
            final(self)@ == old(self)@.led(lit),
    {
        if self.activity_led_lit == lit {
            return ;
        }
        self.activity_led_lit = lit;
        let output_a = (self.output_a & !ACTIVITY_LED) | activity_led_bit(lit);
        self.output_a = output_a;
        self.program.push(PinOp::WriteOutput { port: Port::A, value: output_a });
    }

    fn blink_activity_led(&mut self, now: u64)
        ensures
            final(self)@ == old(self)@.blink(now),
    {
        if !self.activity_led_active {
            self.activity_led_active = true;
            self.activity_led_next_toggle = now.wrapping_add(self.activity_led_toggle_ticks);
            self.set_activity_led(true);
            return ;
        }
        if now.wrapping_sub(self.activity_led_next_toggle) < TICK_HALF_RANGE {
            self.activity_led_next_toggle = now.wrapping_add(self.activity_led_toggle_ticks);
            let lit = !self.activity_led_lit;
            self.set_activity_led(lit);
        }
    }

    pub(crate) fn poll_activity_led(&mut self, now: u64)
        ensures
            final(self)@ == old(self)@.poll_led(now),
    {
        if self.activity_led_poll_count != 0 {
            self.activity_led_poll_count = self.activity_led_poll_count - 1;
            return ;
        }
        self.activity_led_poll_count = ACTIVITY_LED_POLL_INTERVAL;
        self.activity_led_busy(now);
    }

    fn delay_half(&mut self)
        ensures
            final(self)@ == old(self)@.emit(PinOp::Delay { count: old(self)@.half_period_delay }),
    {
        self.program.push(PinOp::Delay { count: self.half_period_delay });
    }

    pub(crate) fn swclk_turnaround_cycle(&mut self)
        ensures
            final(self)@ == old(self)@.clock_cycle(old(self)@.write_half_period_delay),
    {
        let delay = self.write_half_period_delay;
        self.program.push(PinOp::ClearOutputs { port: Port::A, mask: SWCLK_TCK });
        self.program.push(PinOp::Delay { count: delay });
        self.output_a = self.output_a | SWCLK_TCK;
        self.program.push(PinOp::SetOutputs { port: Port::A, mask: SWCLK_TCK });
        self.program.push(PinOp::Delay { count: delay });
    }

    /// Clocks out the low `count` bits of `bits`, LSB first, with SWDIO driven before each
    /// rising SWCLK edge (`count` above 32 sends zeros after bit 31).
    pub fn swd_write_bits(&mut self, bits: u32, count: usize)
        ensures
            final(self)@ == old(self)@.write_bits(bits, count as nat),
    {
        let delay = self.half_period_delay;
        self.shift_out_swdio(bits, count, delay, true, true);
    }

    /// Clocks out data bits with the data-drive delay: no delays at all when it is 0, a
    /// setup delay only when it is 1, and full half periods otherwise.
    pub fn swd_write_data_bits(&mut self, bits: u32, count: usize)
        ensures
            final(self)@ == old(self)@.write_data_bits(bits, count as nat),
    {
        let delay = self.write_half_period_delay;
        if delay == 0 {
            self.shift_out_swdio(bits, count, 0, false, false);
            return ;
        }
        if delay != 1 {
            self.swd_write_bits(bits, count);
            return ;
        }
        self.shift_out_swdio(bits, count, 1, true, false);
    }

    /// `count` SWCLK cycles that each sample SWDIO while the clock is low; the samples are
    /// read back with `swdio_bits_from_samples`.
    pub fn swclk_sample_swdio_bits(&mut self, count: usize)
        ensures
            final(self)@ == old(self)@.sample_cycles(count as nat),
    {
        let delay = self.half_period_delay;
        let mut bit: usize = 0;
        while bit < count
            invariant
                bit <= count,
                delay == old(self)@.half_period_delay,
                self@ == (ProbeView {
                    program: sample_cycles_ops(old(self)@.program, delay, bit as nat),
                    ..old(self)@
                }),
            decreases count - bit,
        {
            self.program.push(PinOp::ClearOutputs { port: Port::A, mask: SWCLK_TCK });
            self.program.push(PinOp::Delay { count: delay });
            self.program.push(PinOp::Sample { port: Port::A });
            self.program.push(PinOp::SetOutputs { port: Port::A, mask: SWCLK_TCK });
            self.program.push(PinOp::Delay { count: delay });
            bit += 1;
        }
        self.output_a = self.output_a | SWCLK_TCK;
    }

    /// Three SWCLK cycles that sample the SWD acknowledge; read it back with
    /// `ack_from_samples`.
    pub fn swclk_sample_swdio_3bits(&mut self)
        ensures
            final(self)@ == old(self)@.sample_cycles(3),
    {
        let delay = self.half_period_delay;
        self.program.push(PinOp::ClearOutputs { port: Port::A, mask: SWCLK_TCK });
        self.program.push(PinOp::Delay { count: delay });
        self.program.push(PinOp::Sample { port: Port::A });
        self.program.push(PinOp::SetOutputs { port: Port::A, mask: SWCLK_TCK });
        self.program.push(PinOp::Delay { count: delay });
        self.program.push(PinOp::ClearOutputs { port: Port::A, mask: SWCLK_TCK });
        self.program.push(PinOp::Delay { count: delay });
        self.program.push(PinOp::Sample { port: Port::A });
        self.program.push(PinOp::SetOutputs { port: Port::A, mask: SWCLK_TCK });
        self.program.push(PinOp::Delay { count: delay });
        self.program.push(PinOp::ClearOutputs { port: Port::A, mask: SWCLK_TCK });
        self.program.push(PinOp::Delay { count: delay });
        self.program.push(PinOp::Sample { port: Port::A });
        self.program.push(PinOp::SetOutputs { port: Port::A, mask: SWCLK_TCK });
        self.program.push(PinOp::Delay { count: delay });
        self.output_a = self.output_a | SWCLK_TCK;
        proof {
            reveal_with_fuel(sample_cycles_ops, 4);
        }
        assert(self.program@ =~= sample_cycles_ops(old(self).program@, delay, 3));
    }

    /// Request phase of a fast transfer: request byte, SWDIO released, turnaround, three
    /// acknowledge samples.
    pub(crate) fn swd_write_request_read_ack(&mut self, swd_request: u8)
        ensures
            final(self)@ == old(self)@.request_and_ack(swd_request),
    {
        self.swd_write_data_bits(swd_request as u32, 8);
        self.swdio_input();
        self.swclk_turnaround_cycle();
        self.swclk_sample_swdio_3bits();
    }

    /// After an unexpected acknowledge: SWDIO released for 34 cycles (a full data phase
    /// with parity and turnaround), then taken back and driven high.
    pub(crate) fn finish_protocol_error_fast(&mut self)
        ensures
            final(self)@ == old(self)@.protocol_error_recovery(),
    {
        self.swdio_input();
        self.swclk_sample_swdio_bits(34);
        self.swdio_output();
        self.set_swdio_tms(true);
    }

    fn shift_out_swdio(
        &mut self,
        bits: u32,
        count: usize,
        delay: u8,
        setup_delay: bool,
        hold_delay: bool,
    )
        ensures
            final(self)@ == old(self)@.shift_out(
                SWDIO_TMS,
                bits,
                count as nat,
                delay,
                setup_delay,
                hold_delay,
            ),
    {
        let mut output = self.output_a;
        let mut rest = bits;
        let mut i: usize = 0;
        assert(bits >> 0u32 == bits) by (bit_vector);
        while i < count
            invariant
                i <= count,
                output == old(self)@.shift_out(
                    SWDIO_TMS,
                    bits,
                    i as nat,
                    delay,
                    setup_delay,
                    hold_delay,
                ).output_a,
                self@ == (ProbeView {
                    output_a: old(self)@.output_a,
                    ..old(self)@.shift_out(SWDIO_TMS, bits, i as nat, delay, setup_delay, hold_delay)
                }),
                rest == remaining_bits(bits, i as nat),
            decreases count - i,
        {
            proof {
                lemma_remaining_bits_step(bits, i as nat);
            }
            if rest & 1 != 0 {
                output = (output | SWDIO_TMS) & !SWCLK_TCK;
            } else {
                output = output & !(SWDIO_TMS | SWCLK_TCK);
            }
            self.program.push(PinOp::WriteOutput { port: Port::A, value: output });
            if setup_delay {
                self.program.push(PinOp::Delay { count: delay });
            }
            output = output | SWCLK_TCK;
            self.program.push(PinOp::SetOutputs { port: Port::A, mask: SWCLK_TCK });
            if hold_delay {
                self.program.push(PinOp::Delay { count: delay });
            }
            rest = rest >> 1u32;
            i += 1;
        }
        self.output_a = output;
    }
}

/// The bits of `bits` not yet sent after `i` have been shifted out.
pub open spec fn remaining_bits(bits: u32, i: nat) -> u32 {
    if i < 32 {
        bits >> (i as u32)
    } else {
        0
    }
}

proof fn lemma_remaining_bits_step(bits: u32, i: nat)
    ensures
        (remaining_bits(bits, i) & 1 != 0) == bit_at(bits, i),
        remaining_bits(bits, i) >> 1u32 == remaining_bits(bits, i + 1),
{
    if i < 32 {
        let j = i as u32;
        assert(((bits >> j) & 1 != 0) == ((bits >> j) & 1 == 1) && (bits >> j) >> 1u32 == if j + 1
            < 32 {
            bits >> ((j + 1) as u32)
        } else {
            0u32
        }) by (bit_vector)
            requires
                j < 32,
        ;
    } else {
        assert(0u32 & 1 == 0 && 0u32 >> 1u32 == 0) by (bit_vector);
    }
}

} // verus!
