use yblink::pins::{SWCLK_TCK, SWDIO_TMS};
use yblink::probe::ProbePins;
use yblink::program::{PinOp, Port};
use yblink::protocol::{
    make_swd_request, ReadBlockResult, TransferResult, TransferStatus, WriteBlockResult, ACK_FAULT,
    ACK_NO_RESPONSE, ACK_OK, ACK_WAIT,
};
use yblink::transfer::{
    fast_path_supported, swd_read_transfer_result, FastTransfer, ReadBlockStep, WriteBlockStep,
};

#[derive(Clone, Copy, Debug, Default)]
struct Regs {
    do_a: u32,
    oe_a: u32,
}

/// Runs `ops`: the SWDIO levels driven at rising SWCLK edges and the samples taken.
fn run(regs: &mut Regs, ops: &[PinOp]) -> (Vec<bool>, usize) {
    let mut swdio = Vec::new();
    let mut samples = 0;
    for op in ops {
        let before = *regs;
        match *op {
            PinOp::WriteOutput { port: Port::A, value } => regs.do_a = value,
            PinOp::SetOutputs { port: Port::A, mask } => regs.do_a |= mask,
            PinOp::ClearOutputs { port: Port::A, mask } => regs.do_a &= !mask,
            PinOp::EnableOutputs { port: Port::A, mask } => regs.oe_a |= mask,
            PinOp::DisableOutputs { port: Port::A, mask } => regs.oe_a &= !mask,
            PinOp::Sample { .. } => samples += 1,
            _ => {}
        }
        if before.do_a & SWCLK_TCK == 0 && regs.do_a & SWCLK_TCK != 0 && regs.oe_a & SWDIO_TMS != 0 {
            swdio.push(regs.do_a & SWDIO_TMS != 0);
        }
    }
    (swdio, samples)
}

fn bits(value: u32, count: usize) -> Vec<bool> {
    (0..count).map(|i| (value >> i) & 1 != 0).collect()
}

fn fresh() -> (ProbePins, Regs) {
    let mut pins = ProbePins::new(1000);
    let mut regs = Regs::default();
    run(&mut regs, &pins.take_program());
    (pins, regs)
}

fn good_samples(word: u32) -> Vec<u32> {
    data_samples(word, word.count_ones() % 2 == 1)
}

fn data_samples(word: u32, parity: bool) -> Vec<u32> {
    let mut s: Vec<u32> = (0..32).map(|i| if (word >> i) & 1 != 0 { SWDIO_TMS } else { 0 }).collect();
    s.push(if parity { SWDIO_TMS } else { 0 });
    s
}

#[test]
fn write_transfer_ok_puts_request_data_and_parity_on_the_wire() {
    let (mut pins, mut regs) = fresh();
    let request = make_swd_request(0x01);
    pins.swd_write_transfer_fast(request, 0);
    let (wire, samples) = run(&mut regs, &pins.take_program());
    assert_eq!(wire, bits(request as u32, 8));
    assert_eq!(samples, 3);
    let status = pins.swd_write_transfer_finish(ACK_OK, 0x1234_5678);
    assert_eq!(status, TransferStatus::Success);
    let (wire, samples) = run(&mut regs, &pins.take_program());
    let mut expected = bits(0x1234_5678, 32);
    expected.push(0x1234_5678u32.count_ones() % 2 == 1);
    assert_eq!(wire, expected);
    assert_eq!(samples, 0);
    assert_ne!(regs.oe_a & SWDIO_TMS, 0);
    assert_ne!(regs.do_a & SWDIO_TMS, 0);
}

#[test]
fn write_transfer_acknowledge_statuses() {
    for (ack, status, samples) in [
        (ACK_WAIT, TransferStatus::Wait, 0),
        (ACK_FAULT, TransferStatus::Fault, 0),
        (ACK_NO_RESPONSE, TransferStatus::NoAck, 34),
        (0b000, TransferStatus::ProtocolError, 34),
        (0b101, TransferStatus::ProtocolError, 34),
    ] {
        let (mut pins, mut regs) = fresh();
        pins.swd_write_transfer_fast(0xA3, 0);
        run(&mut regs, &pins.take_program());
        assert_eq!(pins.swd_write_transfer_finish(ack, 0xffff_ffff), status);
        let (wire, taken) = run(&mut regs, &pins.take_program());
        assert!(wire.is_empty(), "nothing driven after ack {ack:#b}");
        assert_eq!(taken, samples);
        assert_ne!(regs.oe_a & SWDIO_TMS, 0, "SWDIO taken back");
    }
}

#[test]
fn read_transfer_phases() {
    let (mut pins, mut regs) = fresh();
    let request = make_swd_request(0x02);
    pins.swd_read_transfer_fast(request, 0);
    let (wire, samples) = run(&mut regs, &pins.take_program());
    assert_eq!(wire, bits(0xA5, 8));
    assert_eq!(samples, 3);
    assert_eq!(pins.swd_read_transfer_ack(ACK_OK), None);
    let (wire, samples) = run(&mut regs, &pins.take_program());
    assert!(wire.is_empty());
    assert_eq!(samples, 33);
    let good = swd_read_transfer_result(&good_samples(0x2ba0_1477));
    assert_eq!(good, TransferResult { status: TransferStatus::Success, data: 0x2ba0_1477 });
    let bad = swd_read_transfer_result(&data_samples(0x2ba0_1477, 0x2ba0_1477u32.count_ones() % 2 == 0));
    assert_eq!(bad, TransferResult { status: TransferStatus::ParityError, data: 0x2ba0_1477 });
    let zero = swd_read_transfer_result(&data_samples(0, false));
    assert_eq!(zero.status, TransferStatus::Success);
}

#[test]
fn read_transfer_acknowledge_outcomes() {
    for (ack, status) in [
        (ACK_WAIT, TransferStatus::Wait),
        (ACK_FAULT, TransferStatus::Fault),
        (ACK_NO_RESPONSE, TransferStatus::NoAck),
        (0b110, TransferStatus::ProtocolError),
    ] {
        let (mut pins, _) = fresh();
        pins.swd_read_transfer_fast(0x87, 0);
        pins.take_program();
        assert_eq!(pins.swd_read_transfer_ack(ack), Some(TransferResult { status, data: 0 }));
    }
}

#[test]
fn write_block_sends_each_word_little_endian() {
    let (mut pins, mut regs) = fresh();
    let data = [0x78u8, 0x56, 0x34, 0x12, 0xef, 0xbe, 0xad, 0xde];
    let (mut xfer, step) = pins.swd_write_block_fast(0xBB, &data, 2, 0);
    assert_eq!(step, WriteBlockStep::AwaitAck);
    run(&mut regs, &pins.take_program());
    let step = pins.swd_write_block_ack(&mut xfer, ACK_OK, &data, 0);
    assert_eq!(step, WriteBlockStep::AwaitAck);
    let (wire, samples) = run(&mut regs, &pins.take_program());
    let mut expected = bits(0x1234_5678, 32);
    expected.push(0x1234_5678u32.count_ones() % 2 == 1);
    expected.extend(bits(0xBB, 8));
    assert_eq!(wire, expected);
    assert_eq!(samples, 3);
    let step = pins.swd_write_block_ack(&mut xfer, ACK_OK, &data, 0);
    assert_eq!(step, WriteBlockStep::Finished(WriteBlockResult { status: TransferStatus::Success, done: 2 }));
    let (wire, _) = run(&mut regs, &pins.take_program());
    assert_eq!(wire[..32], bits(0xdead_beef, 32)[..]);
}

#[test]
fn write_block_edge_cases() {
    let (mut pins, _) = fresh();
    let (_, step) = pins.swd_write_block_fast(0xBB, &[], 0, 3);
    assert_eq!(step, WriteBlockStep::Finished(WriteBlockResult { status: TransferStatus::Success, done: 0 }));
    assert!(pins.take_program().is_empty());

    let data = [0u8; 8];
    let (mut xfer, _) = pins.swd_write_block_fast(0xBB, &data, 2, 1);
    assert_eq!(pins.swd_write_block_ack(&mut xfer, ACK_WAIT, &data, 0), WriteBlockStep::AwaitAck);
    assert_eq!(
        pins.swd_write_block_ack(&mut xfer, ACK_WAIT, &data, 0),
        WriteBlockStep::Finished(WriteBlockResult { status: TransferStatus::Wait, done: 0 })
    );

    let (mut xfer, _) = pins.swd_write_block_fast(0xBB, &data, 2, 1);
    assert_eq!(pins.swd_write_block_ack(&mut xfer, ACK_OK, &data, 0), WriteBlockStep::AwaitAck);
    assert_eq!(pins.swd_write_block_ack(&mut xfer, ACK_WAIT, &data, 0), WriteBlockStep::AwaitAck);
    assert_eq!(
        pins.swd_write_block_ack(&mut xfer, ACK_FAULT, &data, 0),
        WriteBlockStep::Finished(WriteBlockResult { status: TransferStatus::Fault, done: 1 })
    );

    let (mut xfer, _) = pins.swd_write_block_fast(0xBB, &data, 2, 1);
    assert_eq!(
        pins.swd_write_block_ack(&mut xfer, ACK_NO_RESPONSE, &data, 0),
        WriteBlockStep::Finished(WriteBlockResult { status: TransferStatus::NoAck, done: 0 })
    );
    let (mut xfer, _) = pins.swd_write_block_fast(0xBB, &data, 2, 1);
    assert_eq!(
        pins.swd_write_block_ack(&mut xfer, 0, &data, 0),
        WriteBlockStep::Finished(WriteBlockResult { status: TransferStatus::ProtocolError, done: 0 })
    );
}

#[test]
fn read_block_stores_words_little_endian() {
    let (mut pins, mut regs) = fresh();
    let mut out = [0u8; 8];
    let (mut xfer, step) = pins.swd_read_block_fast(0x9F, out.len(), 2, 0, 0);
    assert_eq!(step, ReadBlockStep::AwaitAck);
    let (wire, samples) = run(&mut regs, &pins.take_program());
    assert_eq!(wire, bits(0x9F, 8));
    assert_eq!(samples, 3);
    assert_eq!(pins.swd_read_block_ack(&mut xfer, ACK_OK, 0), ReadBlockStep::AwaitData);
    assert_eq!(run(&mut regs, &pins.take_program()).1, 33);
    let step = pins.swd_read_block_data(&mut xfer, &good_samples(0x1234_5678), &mut out, 0);
    assert_eq!(step, ReadBlockStep::AwaitAck);
    assert_eq!(pins.swd_read_block_ack(&mut xfer, ACK_OK, 0), ReadBlockStep::AwaitData);
    let step = pins.swd_read_block_data(&mut xfer, &good_samples(0xdead_beef), &mut out, 0);
    assert_eq!(step, ReadBlockStep::Finished(ReadBlockResult { status: TransferStatus::Success, done: 2 }));
    assert_eq!(out, [0x78, 0x56, 0x34, 0x12, 0xef, 0xbe, 0xad, 0xde]);
}

#[test]
fn read_block_edge_cases() {
    let (mut pins, _) = fresh();
    let (_, step) = pins.swd_read_block_fast(0x9F, 3, 1, 0, 0);
    assert_eq!(step, ReadBlockStep::Finished(ReadBlockResult { status: TransferStatus::ProtocolError, done: 0 }));
    let (_, step) = pins.swd_read_block_fast(0x9F, 0, 0, 0, 0);
    assert_eq!(step, ReadBlockStep::Finished(ReadBlockResult { status: TransferStatus::Success, done: 0 }));

    let mut out = [0u8; 6];
    let (mut xfer, _) = pins.swd_read_block_fast(0x9F, out.len(), 2, 0, 0);
    pins.swd_read_block_ack(&mut xfer, ACK_OK, 0);
    let step = pins.swd_read_block_data(&mut xfer, &good_samples(7), &mut out, 0);
    assert_eq!(step, ReadBlockStep::Finished(ReadBlockResult { status: TransferStatus::ProtocolError, done: 1 }));
    assert_eq!(out, [7, 0, 0, 0, 0, 0]);

    let mut out = [0u8; 8];
    let (mut xfer, _) = pins.swd_read_block_fast(0x9F, out.len(), 2, 1, 0);
    assert_eq!(pins.swd_read_block_ack(&mut xfer, ACK_WAIT, 0), ReadBlockStep::AwaitAck);
    assert_eq!(
        pins.swd_read_block_ack(&mut xfer, ACK_WAIT, 0),
        ReadBlockStep::Finished(ReadBlockResult { status: TransferStatus::Wait, done: 0 })
    );
    let (mut xfer, _) = pins.swd_read_block_fast(0x9F, out.len(), 2, 1, 0);
    pins.swd_read_block_ack(&mut xfer, ACK_OK, 0);
    let step = pins.swd_read_block_data(&mut xfer, &data_samples(7, false), &mut out, 0);
    assert_eq!(step, ReadBlockStep::Finished(ReadBlockResult { status: TransferStatus::ParityError, done: 0 }));
    assert_eq!(out, [0u8; 8]);
    let (mut xfer, _) = pins.swd_read_block_fast(0x9F, out.len(), 2, 1, 0);
    assert_eq!(
        pins.swd_read_block_ack(&mut xfer, ACK_FAULT, 0),
        ReadBlockStep::Finished(ReadBlockResult { status: TransferStatus::Fault, done: 0 })
    );
}

#[test]
fn fast_path_dispatch() {
    assert!(fast_path_supported(1, 0, false));
    assert!(!fast_path_supported(2, 0, false));
    assert!(!fast_path_supported(1, 1, false));
    assert!(!fast_path_supported(1, 0, true));
    let (mut pins, _) = fresh();
    assert_eq!(pins.swd_transfer(0x02, 2, 0, false, 0), None);
    assert!(pins.take_program().is_empty());
    assert_eq!(pins.swd_transfer(0x02, 1, 0, false, 0), Some(FastTransfer::Read));
    assert!(!pins.take_program().is_empty());
    assert_eq!(pins.swd_transfer(0x01, 1, 0, false, 0), Some(FastTransfer::Write));
    assert_eq!(pins.swd_transfer_precomputed(0xA5, 1, 0, false, 0), Some(FastTransfer::Read));
    assert_eq!(pins.swd_transfer_precomputed(0xA3, 1, 0, false, 0), Some(FastTransfer::Write));
    assert_eq!(pins.swd_transfer_precomputed(0xA3, 1, 0, true, 0), None);
    pins.take_program();
    let data = [0u8; 4];
    assert!(pins.swd_write_block(0x01, &data, 1, 0, 1, 0, false).is_some());
    assert!(pins.swd_write_block(0x01, &data, 1, 0, 1, 2, false).is_none());
    assert!(pins.swd_read_block(0x03, 4, 1, 0, 1, 0, false, 0).is_some());
    assert!(pins.swd_read_block(0x03, 4, 1, 0, 0, 0, false, 0).is_none());
}

#[test]
fn activity_led_is_polled_every_65th_transfer() {
    let (mut pins, mut regs) = fresh();
    let led = 1u32 << 10;
    let mut changes = Vec::new();
    for k in 0..140u64 {
        let before = regs.do_a & led;
        pins.swd_write_transfer_fast(0xA3, k * 1000);
        run(&mut regs, &pins.take_program());
        if regs.do_a & led != before {
            changes.push(k);
        }
        pins.swd_write_transfer_finish(ACK_WAIT, 0);
        run(&mut regs, &pins.take_program());
    }
    // Polls at transfers 0, 65 and 130 look at the clock; each finds the toggle due.
    assert_eq!(changes, vec![0, 65, 130]);
}

#[test]
fn write_block_needs_only_the_current_word() {
    let (mut pins, _) = fresh();
    // Off the fast path the data is never looked at.
    assert!(pins.swd_write_block(0x01, &[], 4, 0, 2, 0, false).is_none());
    assert!(pins.take_program().is_empty());
    // Two words asked for, one present: the first word goes out and the second is
    // requested; its bytes are needed only once its acknowledge arrives.
    let data = [1u8, 2, 3, 4];
    let (mut xfer, step) = pins.swd_write_block_fast(0xBB, &data, 2, 0);
    assert_eq!(step, WriteBlockStep::AwaitAck);
    assert_eq!(xfer.done(), 0);
    assert_eq!(pins.swd_write_block_ack(&mut xfer, ACK_OK, &data, 0), WriteBlockStep::AwaitAck);
    assert_eq!(xfer.done(), 1);
}
