use yblink::pins::{
    ACTIVITY_LED, NRESET, OUTPUT_MASK_A, OUTPUT_MASK_B, PIN_ACTIVITY_LED, PIN_NRESET, PIN_SWCLK_TCK,
    PIN_SWDIO_TMS, PIN_TDI, PIN_TDO, SWCLK_TCK, SWDIO_TMS, TDI, TDO,
};
use yblink::probe::ProbePins;
use yblink::program::{PinOp, Port};

/// FGPIO output registers of ports A and B, as the firmware's executor sees them.
#[derive(Clone, Copy, Debug, Default, PartialEq)]
struct Regs {
    do_a: u32,
    do_b: u32,
    oe_a: u32,
    oe_b: u32,
}

/// Runs `ops`, returning the SWDIO levels at the rising SWCLK edges while SWDIO is an
/// output, the TDI levels at those edges, and the number of samples taken.
fn run(regs: &mut Regs, ops: &[PinOp]) -> (Vec<bool>, Vec<bool>, usize) {
    let mut swdio = Vec::new();
    let mut tdi = Vec::new();
    let mut samples = 0;
    for op in ops {
        let before = *regs;
        match *op {
            PinOp::WriteOutput { port: Port::A, value } => regs.do_a = value,
            PinOp::WriteOutput { port: Port::B, value } => regs.do_b = value,
            PinOp::SetOutputs { port: Port::A, mask } => regs.do_a |= mask,
            PinOp::SetOutputs { port: Port::B, mask } => regs.do_b |= mask,
            PinOp::ClearOutputs { port: Port::A, mask } => regs.do_a &= !mask,
            PinOp::ClearOutputs { port: Port::B, mask } => regs.do_b &= !mask,
            PinOp::EnableOutputs { port: Port::A, mask } => regs.oe_a |= mask,
            PinOp::EnableOutputs { port: Port::B, mask } => regs.oe_b |= mask,
            PinOp::DisableOutputs { port: Port::A, mask } => regs.oe_a &= !mask,
            PinOp::DisableOutputs { port: Port::B, mask } => regs.oe_b &= !mask,
            PinOp::Sample { .. } => samples += 1,
            _ => {}
        }
        if before.do_a & SWCLK_TCK == 0 && regs.do_a & SWCLK_TCK != 0 {
            if regs.oe_a & SWDIO_TMS != 0 {
                swdio.push(regs.do_a & SWDIO_TMS != 0);
            }
            tdi.push(regs.do_a & TDI != 0);
        }
    }
    (swdio, tdi, samples)
}

fn bits(value: u32, count: usize) -> Vec<bool> {
    (0..count).map(|i| i < 32 && (value >> i) & 1 != 0).collect()
}

fn fresh() -> (ProbePins, Regs) {
    let mut pins = ProbePins::new(1000);
    let mut regs = Regs::default();
    let ops = pins.take_program();
    run(&mut regs, &ops);
    (pins, regs)
}

#[test]
fn new_probe_configures_pins() {
    let mut pins = ProbePins::new(1000);
    let ops = pins.take_program();
    let out_a = SWDIO_TMS | TDI | ACTIVITY_LED;
    let expected = vec![
        PinOp::ConfigurePad { pad: 26, pull_up: false },
        PinOp::ConfigurePad { pad: 27, pull_up: false },
        PinOp::ConfigurePad { pad: 28, pull_up: true },
        PinOp::ConfigurePad { pad: 29, pull_up: false },
        PinOp::ConfigurePad { pad: 42, pull_up: true },
        PinOp::ConfigurePad { pad: 10, pull_up: false },
        PinOp::AssignFgpio { port: Port::A, pin: 26 },
        PinOp::AssignFgpio { port: Port::A, pin: 27 },
        PinOp::AssignFgpio { port: Port::A, pin: 28 },
        PinOp::AssignFgpio { port: Port::A, pin: 29 },
        PinOp::AssignFgpio { port: Port::A, pin: 10 },
        PinOp::AssignFgpio { port: Port::B, pin: 10 },
        PinOp::WriteOutput { port: Port::A, value: out_a },
        PinOp::WriteOutput { port: Port::B, value: NRESET },
        PinOp::EnableOutputs { port: Port::A, mask: OUTPUT_MASK_A },
        PinOp::EnableOutputs { port: Port::B, mask: OUTPUT_MASK_B },
        PinOp::DisableOutputs { port: Port::A, mask: TDO },
    ];
    assert_eq!(ops, expected);
    assert!(pins.take_program().is_empty());
    let mut regs = Regs::default();
    run(&mut regs, &ops);
    assert_eq!(regs.do_a, out_a);
    assert_eq!(regs.oe_a & TDO, 0);
    assert_ne!(regs.oe_a & SWDIO_TMS, 0);
}

#[test]
fn default_clock_is_8_mhz() {
    let (mut pins, _) = fresh();
    pins.swclk_cycle();
    assert_eq!(
        pins.take_program(),
        vec![
            PinOp::ClearOutputs { port: Port::A, mask: SWCLK_TCK },
            PinOp::Delay { count: 3 },
            PinOp::SetOutputs { port: Port::A, mask: SWCLK_TCK },
            PinOp::Delay { count: 3 },
        ]
    );
}

#[test]
fn set_clock_hz_maps_probe_rs_default_and_caps() {
    let (mut pins, _) = fresh();
    pins.set_clock_hz(1_000_000);
    pins.tck_cycle();
    assert_eq!(pins.take_program()[1], PinOp::Delay { count: 3 });
    pins.set_clock_hz(250_000);
    pins.tck_cycle();
    assert_eq!(pins.take_program()[1], PinOp::Delay { count: 96 });
    pins.set_clock_hz(2_000_000);
    pins.tck_cycle();
    assert_eq!(pins.take_program()[1], PinOp::Delay { count: 10 });
    pins.set_clock_hz(50_000_000);
    pins.tck_cycle();
    assert_eq!(pins.take_program()[1], PinOp::Delay { count: 3 });
}

#[test]
fn swdio_direction_changes_only_when_needed() {
    let (mut pins, _) = fresh();
    pins.swdio_output();
    assert!(pins.take_program().is_empty());
    pins.swdio_input();
    pins.swdio_input();
    assert_eq!(pins.take_program(), vec![PinOp::DisableOutputs { port: Port::A, mask: SWDIO_TMS }]);
    pins.swdio_output();
    assert_eq!(pins.take_program(), vec![PinOp::EnableOutputs { port: Port::A, mask: SWDIO_TMS }]);
}

#[test]
fn levels_are_written_only_on_change() {
    let (mut pins, regs) = fresh();
    pins.set_swdio_tms(true);
    pins.set_tdi(true);
    pins.set_swclk_tck(false);
    assert!(pins.take_program().is_empty());
    pins.set_swdio_tms(false);
    assert_eq!(
        pins.take_program(),
        vec![PinOp::WriteOutput { port: Port::A, value: regs.do_a & !SWDIO_TMS }]
    );
    pins.set_swclk_tck(true);
    assert_eq!(
        pins.take_program(),
        vec![PinOp::WriteOutput { port: Port::A, value: (regs.do_a & !SWDIO_TMS) | SWCLK_TCK }]
    );
}

#[test]
fn reset_is_written_only_on_change() {
    let (mut pins, _) = fresh();
    pins.set_reset(true);
    assert!(pins.take_program().is_empty());
    pins.set_reset(false);
    pins.set_reset(false);
    assert_eq!(pins.take_program(), vec![PinOp::WriteOutput { port: Port::B, value: 0 }]);
    pins.set_reset(true);
    assert_eq!(pins.take_program(), vec![PinOp::WriteOutput { port: Port::B, value: NRESET }]);
}

#[test]
fn activity_led_blinks_while_busy_and_goes_dark_when_idle() {
    let (mut pins, regs) = fresh();
    let dark = regs.do_a;
    let lit = dark & !ACTIVITY_LED;
    pins.activity_led_busy(5_000);
    assert_eq!(pins.take_program(), vec![PinOp::WriteOutput { port: Port::A, value: lit }]);
    pins.activity_led_busy(5_999);
    assert!(pins.take_program().is_empty());
    pins.activity_led_busy(6_000);
    assert_eq!(pins.take_program(), vec![PinOp::WriteOutput { port: Port::A, value: dark }]);
    pins.activity_led_busy(6_500);
    assert!(pins.take_program().is_empty());
    pins.activity_led_busy(7_000);
    assert_eq!(pins.take_program(), vec![PinOp::WriteOutput { port: Port::A, value: lit }]);
    pins.activity_led_idle();
    assert_eq!(pins.take_program(), vec![PinOp::WriteOutput { port: Port::A, value: dark }]);
    pins.activity_led_idle();
    assert!(pins.take_program().is_empty());
}

#[test]
fn activity_led_toggle_survives_tick_wraparound() {
    let mut pins = ProbePins::new(1000);
    pins.take_program();
    pins.activity_led_busy(u64::MAX - 10);
    assert_eq!(pins.take_program().len(), 1);
    pins.activity_led_busy(u64::MAX);
    assert!(pins.take_program().is_empty());
    pins.activity_led_busy(989);
    assert_eq!(pins.take_program().len(), 1);
}

#[test]
fn swd_write_bits_sends_lsb_first() {
    let (mut pins, mut regs) = fresh();
    pins.swd_write_bits(0b1011, 4);
    let ops = pins.take_program();
    assert_eq!(ops.len(), 16);
    let (swdio, _, samples) = run(&mut regs, &ops);
    assert_eq!(swdio, vec![true, true, false, true]);
    assert_eq!(samples, 0);
    pins.swd_write_data_bits(0xdead_beef, 32);
    let (swdio, _, _) = run(&mut regs, &pins.take_program());
    assert_eq!(swdio, bits(0xdead_beef, 32));
    pins.swd_write_bits(0xffff_ffff, 35);
    let (swdio, _, _) = run(&mut regs, &pins.take_program());
    assert_eq!(swdio, bits(0xffff_ffff, 35));
    assert_eq!(swdio[32..], [false, false, false]);
}

#[test]
fn swd_write_bit_cycle_uses_full_writes() {
    let (mut pins, mut regs) = fresh();
    let base = regs.do_a;
    pins.swd_write_bit_cycle(false);
    let ops = pins.take_program();
    let low = base & !(SWDIO_TMS | SWCLK_TCK);
    assert_eq!(
        ops,
        vec![
            PinOp::WriteOutput { port: Port::A, value: low },
            PinOp::Delay { count: 3 },
            PinOp::WriteOutput { port: Port::A, value: low | SWCLK_TCK },
            PinOp::Delay { count: 3 },
        ]
    );
    assert_eq!(run(&mut regs, &ops).0, vec![false]);
}

#[test]
fn sampling_cycles_take_one_sample_per_cycle() {
    let (mut pins, mut regs) = fresh();
    pins.swclk_sample_swdio();
    assert_eq!(
        pins.take_program(),
        vec![
            PinOp::ClearOutputs { port: Port::A, mask: SWCLK_TCK },
            PinOp::Delay { count: 3 },
            PinOp::Sample { port: Port::A },
            PinOp::SetOutputs { port: Port::A, mask: SWCLK_TCK },
            PinOp::Delay { count: 3 },
        ]
    );
    pins.swclk_sample_swdio_bits(32);
    assert_eq!(run(&mut regs, &pins.take_program()).2, 32);
    pins.swclk_sample_swdio_3bits();
    let ops = pins.take_program();
    assert_eq!(run(&mut regs, &ops).2, 3);
    pins.swclk_sample_swdio_bits(3);
    assert_eq!(pins.take_program(), ops);
    pins.tck_sample_tdo();
    assert_eq!(run(&mut regs, &pins.take_program()).2, 1);
}

#[test]
fn sampling_zero_cycles_records_swclk_high() {
    let (mut pins, _) = fresh();
    pins.set_swclk_tck(false);
    pins.take_program();
    pins.swclk_sample_swdio_bits(0);
    assert!(pins.take_program().is_empty());
    // The shadow now holds SWCLK high although nothing was written: a later level change
    // writes it out.
    pins.set_swdio_tms(false);
    let ops = pins.take_program();
    match ops[0] {
        PinOp::WriteOutput { value, .. } => assert_ne!(value & SWCLK_TCK, 0),
        _ => panic!("expected a data write"),
    }
}

#[test]
fn jtag_cycles_drive_tdi() {
    let (mut pins, mut regs) = fresh();
    pins.jtag_cycle_tdi(false);
    pins.jtag_cycle_tdi(true);
    pins.jtag_cycle_tdio(false);
    let ops = pins.take_program();
    let (_, tdi, samples) = run(&mut regs, &ops);
    assert_eq!(tdi, vec![false, true, false]);
    assert_eq!(samples, 1);
    assert_eq!(ops[10], PinOp::Sample { port: Port::A });
}

#[test]
fn pin_state_byte() {
    let (pins, _) = fresh();
    assert_eq!(pins.current_pin_state(0, 0), 0x20);
    assert_eq!(pins.current_pin_state(SWCLK_TCK | SWDIO_TMS | TDI | TDO, NRESET), 0xAF);
    assert_eq!(pins.current_pin_state(SWDIO_TMS, 0), 0x22);
    assert_eq!(pins.current_pin_state(TDO | ACTIVITY_LED, !0), 0xA8);
    assert!(pins.read_swdio(SWDIO_TMS));
    assert!(!pins.read_swdio(!SWDIO_TMS));
    assert!(pins.read_tdo(TDO));
    assert!(!pins.read_tdo(SWDIO_TMS));
}

#[test]
fn pin_bits_match_pin_numbers() {
    assert_eq!(SWCLK_TCK, 1 << PIN_SWCLK_TCK);
    assert_eq!(SWDIO_TMS, 1 << PIN_SWDIO_TMS);
    assert_eq!(TDI, 1 << PIN_TDI);
    assert_eq!(TDO, 1 << PIN_TDO);
    assert_eq!(NRESET, 1 << PIN_NRESET);
    assert_eq!(ACTIVITY_LED, 1 << PIN_ACTIVITY_LED);
    assert_eq!(OUTPUT_MASK_A, SWCLK_TCK | SWDIO_TMS | TDI | ACTIVITY_LED);
    assert_eq!(OUTPUT_MASK_B, NRESET);
}

#[test]
fn shadow_registers_track_hardware() {
    let (mut pins, mut regs) = fresh();
    pins.swd_write_bits(0x5a, 8);
    pins.swdio_input();
    pins.swclk_sample_swdio_bits(5);
    pins.swdio_output();
    pins.jtag_cycle_tdio(true);
    pins.activity_led_busy(0);
    pins.set_swclk_tck(false);
    pins.swd_write_bit_cycle(true);
    pins.set_reset(false);
    run(&mut regs, &pins.take_program());
    // Forcing SWDIO low writes the shadow with SWDIO cleared: it must equal the hardware.
    pins.set_swdio_tms(false);
    let ops = pins.take_program();
    assert_eq!(ops, vec![PinOp::WriteOutput { port: Port::A, value: regs.do_a & !SWDIO_TMS }]);
    run(&mut regs, &ops);
    pins.set_reset(true);
    assert_eq!(pins.take_program(), vec![PinOp::WriteOutput { port: Port::B, value: regs.do_b | NRESET }]);
    assert_ne!(regs.oe_a & SWDIO_TMS, 0);
}
