//! Fast SWD transfers: single reads and writes and block transfers, as steps that queue
//! register programs and decide on the acknowledge and data the target sends back.
use vstd::prelude::*;
use crate::pins::SWDIO_TMS;
use crate::probe::{ProbePins, ProbeView};
use crate::protocol::{
    make_swd_request, swd_request_spec,
    bit_of, le_byte, le_word, odd_ones_below, odd_parity, samples_word, swdio_bits_from_samples,
    swdio_high,
    word_from_le_bytes, word_to_le_bytes, ReadBlockResult, TransferResult, TransferStatus,
    WriteBlockResult, ACK_FAULT, ACK_NO_RESPONSE, ACK_OK, ACK_WAIT,
};

verus! {

/// The status a fast transfer reports for acknowledge `ack` (before any data phase).
pub open spec fn ack_status(ack: u8) -> TransferStatus {
    if ack == ACK_OK {
        TransferStatus::Success
    } else if ack == ACK_WAIT {
        TransferStatus::Wait
    } else if ack == ACK_FAULT {
        TransferStatus::Fault
    } else if ack == ACK_NO_RESPONSE {
        TransferStatus::NoAck
    } else {
        TransferStatus::ProtocolError
    }
}

/// The parity bit sent after `data`.
pub open spec fn parity_bit(data: u32) -> u32 {
    if odd_ones_below(data, 32) {
        1
    } else {
        0
    }
}

/// The word carried by the first 32 SWDIO samples of `samples`, first sample in bit 0.
pub open spec fn sampled_word(samples: Seq<u32>, data: u32) -> bool {
    forall|i: u32| i < 32 ==> #[trigger] bit_of(data, i) == swdio_high(samples[i as int])
}

impl ProbeView {
    /// After the acknowledge `ack` of a fast write of `write_data`: on OK a turnaround,
    /// the 32 data bits and their parity; on WAIT or FAULT a turnaround; on anything else
    /// the protocol-error recovery. SWDIO ends up an output, driven high.
    pub open spec fn after_write_ack(self, ack: u8, write_data: u32) -> ProbeView {
        if ack == ACK_OK {
            self.turnaround_to_output().write_data_bits(write_data, 32).write_data_bits(
                parity_bit(write_data),
                1,
            ).drive_a(SWDIO_TMS, true)
        } else if ack == ACK_WAIT || ack == ACK_FAULT {
            self.turnaround_to_output().drive_a(SWDIO_TMS, true)
        } else {
            self.protocol_error_recovery()
        }
    }

    /// After the acknowledge `ack` of a fast read: on OK 32 data samples, one parity
    /// sample and a turnaround; on WAIT or FAULT a turnaround; on anything else the
    /// protocol-error recovery. SWDIO ends up an output, driven high.
    pub open spec fn after_read_ack(self, ack: u8) -> ProbeView {
        if ack == ACK_OK {
            self.sample_cycles(32).sample_cycles(1).turnaround_to_output().drive_a(SWDIO_TMS, true)
        } else if ack == ACK_WAIT || ack == ACK_FAULT {
            self.turnaround_to_output().drive_a(SWDIO_TMS, true)
        } else {
            self.protocol_error_recovery()
        }
    }
}

/// What a fast read reports once its acknowledge `ack` is known: nothing yet on OK (the
/// data phase follows), the acknowledge's status with no data otherwise.
pub open spec fn read_ack_outcome(ack: u8) -> Option<TransferResult> {
    if ack == ACK_OK {
        None
    } else {
        Some(TransferResult { status: ack_status(ack), data: 0 })
    }
}

/// The outcome of a fast read whose data phase sampled `samples`: the word of the first 32
/// samples, and OK exactly when the 33rd sample carries its parity.
pub open spec fn read_result_of_samples(samples: Seq<u32>) -> TransferResult {
    let data = samples_word(samples, 32);
    TransferResult {
        status: if swdio_high(samples[32]) == odd_ones_below(data, 32) {
            TransferStatus::Success
        } else {
            TransferStatus::ParityError
        },
        data,
    }
}

/// The outcome of a fast read whose data phase sampled `samples`: the word of the first 32
/// samples, and OK exactly when the 33rd sample carries its parity.
pub fn swd_read_transfer_result(samples: &[u32]) -> (r: TransferResult)
    requires
        33 <= samples@.len(),
    ensures
        r == read_result_of_samples(samples@),
        sampled_word(samples@, r.data),
        r.status == (if swdio_high(samples@[32]) == odd_ones_below(r.data, 32) {
            TransferStatus::Success
        } else {
            TransferStatus::ParityError
        }),
{
    let data = swdio_bits_from_samples(samples, 32);
    let parity = samples[32] & SWDIO_TMS != 0;
    if parity == odd_parity(data) {
        TransferResult { status: TransferStatus::Success, data }
    } else {
        TransferResult { status: TransferStatus::ParityError, data }
    }
}

impl ProbePins {
    /// Starts a fast SWD write with the encoded request `swd_request` at tick `now`:
    /// polls the LED, takes SWDIO, sends the request and samples the acknowledge. Decode
    /// the three samples with `ack_from_samples` and finish with
    /// `swd_write_transfer_finish`.
    pub fn swd_write_transfer_fast(&mut self, swd_request: u8, now: u64)
        ensures
            final(self)@ == old(self)@.begin_transfer(swd_request, now),
    {
        self.poll_activity_led(now);
        self.swdio_output();
        self.swd_write_request_read_ack(swd_request);
    }

    /// Finishes a fast SWD write of `write_data` once the acknowledge `ack` is known.
    pub fn swd_write_transfer_finish(&mut self, ack: u8, write_data: u32) -> (status:
        TransferStatus)
        ensures
            final(self)@ == old(self)@.after_write_ack(ack, write_data),
            status == ack_status(ack),
    {
        match ack {
            0b001 => {
                self.swclk_turnaround_cycle();
                self.swdio_output();
                self.swd_write_data_bits(write_data, 32);
                let parity: u32 = if odd_parity(write_data) {
                    1
                } else {
                    0
                };
                self.swd_write_data_bits(parity, 1);
                self.set_swdio_tms(true);
                TransferStatus::Success
            },
            0b010 => {
                self.swclk_turnaround_cycle();
                self.swdio_output();
                self.set_swdio_tms(true);
                TransferStatus::Wait
            },
            0b100 => {
                self.swclk_turnaround_cycle();
                self.swdio_output();
                self.set_swdio_tms(true);
                TransferStatus::Fault
            },
            0b111 => {
                self.finish_protocol_error_fast();
                TransferStatus::NoAck
            },
            _ => {
                self.finish_protocol_error_fast();
                TransferStatus::ProtocolError
            },
        }
    }

    /// Starts a fast SWD read with the encoded request `swd_request` at tick `now`; the
    /// same request phase as a write.
    pub fn swd_read_transfer_fast(&mut self, swd_request: u8, now: u64)
        ensures
            final(self)@ == old(self)@.begin_transfer(swd_request, now),
    {
        self.poll_activity_led(now);
        self.swdio_output();
        self.swd_write_request_read_ack(swd_request);
    }

    /// Continues a fast SWD read once the acknowledge `ack` is known. On OK it queues the
    /// data phase and returns `None`; decode its 33 samples with
    /// `swd_read_transfer_result`. Otherwise it returns the outcome.
    pub fn swd_read_transfer_ack(&mut self, ack: u8) -> (r: Option<TransferResult>)
        ensures
            final(self)@ == old(self)@.after_read_ack(ack),
            r == read_ack_outcome(ack),
    {
        match ack {
            0b001 => {
                self.swclk_sample_swdio_bits(32);
                self.swclk_sample_swdio();
                self.swclk_turnaround_cycle();
                self.swdio_output();
                self.set_swdio_tms(true);
                None
            },
            0b010 => {
                self.swclk_turnaround_cycle();
                self.swdio_output();
                self.set_swdio_tms(true);
                Some(TransferResult { status: TransferStatus::Wait, data: 0 })
            },
            0b100 => {
                self.swclk_turnaround_cycle();
                self.swdio_output();
                self.set_swdio_tms(true);
                Some(TransferResult { status: TransferStatus::Fault, data: 0 })
            },
            0b111 => {
                self.finish_protocol_error_fast();
                Some(TransferResult { status: TransferStatus::NoAck, data: 0 })
            },
            _ => {
                self.finish_protocol_error_fast();
                Some(TransferResult { status: TransferStatus::ProtocolError, data: 0 })
            },
        }
    }
}

/// Progress of a fast block transfer as contracts speak of it.
pub ghost struct BlockView {
    /// The encoded SWD request repeated for every word.
    pub swd_request: u8,
    /// Words to transfer.
    pub count: nat,
    /// WAIT acknowledges tolerated per word.
    pub wait_retries: nat,
    /// Words transferred so far.
    pub done: nat,
    /// WAIT acknowledges still tolerated for the current word.
    pub retry: nat,
}

/// What a block transfer waits for next, or how it ended.
#[derive(Clone, Copy, Debug, PartialEq, Eq)]
pub enum WriteBlockStep {
    /// Decode the three acknowledge samples and call `swd_write_block_ack`.
    AwaitAck,
    Finished(WriteBlockResult),
}

/// What a block read waits for next, or how it ended.
#[derive(Clone, Copy, Debug, PartialEq, Eq)]
pub enum ReadBlockStep {
    /// Decode the three acknowledge samples and call `swd_read_block_ack`.
    AwaitAck,
    /// Hand the 33 data-phase samples to `swd_read_block_data`.
    AwaitData,
    Finished(ReadBlockResult),
}

/// A fast block write in progress.
pub struct WriteBlockTransfer {
    swd_request: u8,
    count: usize,
    wait_retries: usize,
    done: usize,
    retry: usize,
}

/// A fast block read in progress.
pub struct ReadBlockTransfer {
    swd_request: u8,
    count: usize,
    wait_retries: usize,
    done: usize,
    retry: usize,
}

impl View for WriteBlockTransfer {
    type V = BlockView;

    closed spec fn view(&self) -> BlockView {
        BlockView {
            swd_request: self.swd_request,
            count: self.count as nat,
            wait_retries: self.wait_retries as nat,
            done: self.done as nat,
            retry: self.retry as nat,
        }
    }
}

/// A block write's counts fit in a `usize`.
pub proof fn lemma_write_block_bounds(transfer: &WriteBlockTransfer)
    ensures
        transfer@.count <= usize::MAX,
        transfer@.wait_retries <= usize::MAX,
        transfer@.done <= usize::MAX,
        transfer@.retry <= usize::MAX,
{
}

/// A block read's counts fit in a `usize`.
pub proof fn lemma_read_block_bounds(transfer: &ReadBlockTransfer)
    ensures
        transfer@.count <= usize::MAX,
        transfer@.wait_retries <= usize::MAX,
        transfer@.done <= usize::MAX,
        transfer@.retry <= usize::MAX,
{
}

impl WriteBlockTransfer {
    /// Words written so far; the current word is bytes `4 * done .. 4 * done + 4`.
    pub fn done(&self) -> (done: usize)
        ensures
            done == self@.done,
    {
        self.done
    }
}

impl View for ReadBlockTransfer {
    type V = BlockView;

    closed spec fn view(&self) -> BlockView {
        BlockView {
            swd_request: self.swd_request,
            count: self.count as nat,
            wait_retries: self.wait_retries as nat,
            done: self.done as nat,
            retry: self.retry as nat,
        }
    }
}

/// The word the block write sends as word `i`: bytes `4i .. 4i + 4`, little endian.
pub open spec fn block_word(data: Seq<u8>, i: int) -> u32 {
    le_word(data[4 * i], data[4 * i + 1], data[4 * i + 2], data[4 * i + 3]) as u32
}

/// The state after starting a block write of `count` words.
pub open spec fn write_block_start(
    v: ProbeView,
    swd_request: u8,
    count: nat,
    wait_retries: nat,
) -> (ProbeView, BlockView, WriteBlockStep) {
    let b = BlockView { swd_request, count, wait_retries, done: 0, retry: wait_retries };
    let w = v.swdio_to_output();
    if count == 0 {
        (w, b, WriteBlockStep::Finished(WriteBlockResult { status: TransferStatus::Success, done: 0 }))
    } else {
        (w.request_and_ack(swd_request), b, WriteBlockStep::AwaitAck)
    }
}

/// The state after acknowledge `ack` for the current word of a block write at tick `now`:
/// OK sends the word, polls the LED and requests the next word (or ends with OK after the
/// last); WAIT requests the word again while retries are left; anything else ends the
/// transfer with the acknowledge's status and the words sent so far.
pub open spec fn write_block_after_ack(
    v: ProbeView,
    b: BlockView,
    ack: u8,
    data: Seq<u8>,
    now: u64,
) -> (ProbeView, BlockView, WriteBlockStep) {
    let w = v.after_write_ack(ack, block_word(data, b.done as int));
    if ack == ACK_OK {
        let sent = BlockView { done: b.done + 1, ..b };
        let polled = w.poll_led(now);
        if b.done + 1 < b.count {
            (
                polled.request_and_ack(b.swd_request),
                BlockView { retry: b.wait_retries, ..sent },
                WriteBlockStep::AwaitAck,
            )
        } else {
            (
                polled,
                sent,
                WriteBlockStep::Finished(
                    WriteBlockResult { status: TransferStatus::Success, done: (b.done + 1) as usize },
                ),
            )
        }
    } else if ack == ACK_WAIT && b.retry > 0 {
        (
            w.request_and_ack(b.swd_request),
            BlockView { retry: (b.retry - 1) as nat, ..b },
            WriteBlockStep::AwaitAck,
        )
    } else {
        (
            w,
            b,
            WriteBlockStep::Finished(WriteBlockResult { status: ack_status(ack), done: b.done as usize }),
        )
    }
}

/// The state once a block read is ready for its next word at tick `now`: ends with OK when
/// all words are read, with a protocol error when `out_len` bytes cannot hold the next
/// word, and otherwise starts the next word's transfer with a fresh retry budget.
pub open spec fn read_block_next(v: ProbeView, b: BlockView, out_len: nat, now: u64) -> (
    ProbeView,
    BlockView,
    ReadBlockStep,
) {
    if b.done >= b.count {
        (v, b, ReadBlockStep::Finished(ReadBlockResult { status: TransferStatus::Success, done: b.done as usize }))
    } else if 4 * b.done + 4 > out_len {
        (
            v,
            b,
            ReadBlockStep::Finished(
                ReadBlockResult { status: TransferStatus::ProtocolError, done: b.done as usize },
            ),
        )
    } else {
        (
            v.begin_transfer(b.swd_request, now),
            BlockView { retry: b.wait_retries, ..b },
            ReadBlockStep::AwaitAck,
        )
    }
}

/// The state after starting a block read of `count` words into `out_len` bytes.
pub open spec fn read_block_start(
    v: ProbeView,
    swd_request: u8,
    out_len: nat,
    count: nat,
    wait_retries: nat,
    now: u64,
) -> (ProbeView, BlockView, ReadBlockStep) {
    read_block_next(
        v.swdio_to_output(),
        BlockView { swd_request, count, wait_retries, done: 0, retry: wait_retries },
        out_len,
        now,
    )
}

/// The state after acknowledge `ack` for the current word of a block read at tick `now`:
/// OK waits for the data phase; WAIT starts the word's transfer again while retries are
/// left; anything else ends the transfer with the acknowledge's status.
pub open spec fn read_block_after_ack(v: ProbeView, b: BlockView, ack: u8, now: u64) -> (
    ProbeView,
    BlockView,
    ReadBlockStep,
) {
    let w = v.after_read_ack(ack);
    if ack == ACK_OK {
        (w, b, ReadBlockStep::AwaitData)
    } else if ack == ACK_WAIT && b.retry > 0 {
        (
            w.begin_transfer(b.swd_request, now),
            BlockView { retry: (b.retry - 1) as nat, ..b },
            ReadBlockStep::AwaitAck,
        )
    } else {
        (
            w,
            b,
            ReadBlockStep::Finished(ReadBlockResult { status: ack_status(ack), done: b.done as usize }),
        )
    }
}

/// The output buffer after storing `word` little endian as word `i`.
pub open spec fn store_word(out: Seq<u8>, i: int, word: u32) -> Seq<u8> {
    out.update(4 * i, le_byte(word, 0)).update(4 * i + 1, le_byte(word, 1)).update(
        4 * i + 2,
        le_byte(word, 2),
    ).update(4 * i + 3, le_byte(word, 3))
}

/// The state after the data phase of the current word of a block read, whose samples
/// carry `word` with matching parity (`parity_ok`) or not: a parity error ends the
/// transfer; a good word is stored, the LED polled and the next word started.
pub open spec fn read_block_after_data(
    v: ProbeView,
    b: BlockView,
    word: u32,
    parity_ok: bool,
    out_len: nat,
    now: u64,
) -> (ProbeView, BlockView, ReadBlockStep) {
    if !parity_ok {
        (
            v,
            b,
            ReadBlockStep::Finished(
                ReadBlockResult { status: TransferStatus::ParityError, done: b.done as usize },
            ),
        )
    } else {
        read_block_next(v.poll_led(now), BlockView { done: b.done + 1, ..b }, out_len, now)
    }
}

impl ProbePins {
    /// Starts a fast block write of `count` little-endian words from `data` with the
    /// encoded request `swd_request`, tolerating `wait_retries` WAITs per word.
    pub fn swd_write_block_fast(
        &mut self,
        swd_request: u8,
        data: &[u8],
        count: usize,
        wait_retries: usize,
    ) -> (r: (WriteBlockTransfer, WriteBlockStep))
        requires
            count > 0 ==> 4 <= data@.len(),
        ensures
            (final(self)@, r.0@, r.1) == write_block_start(
                old(self)@,
                swd_request,
                count as nat,
                wait_retries as nat,
            ),
    {
        self.swdio_output();
        let transfer = WriteBlockTransfer {
            swd_request,
            count,
            wait_retries,
            done: 0,
            retry: wait_retries,
        };
        if count == 0 {
            return (
                transfer,
                WriteBlockStep::Finished(
                    WriteBlockResult { status: TransferStatus::Success, done: 0 },
                ),
            );
        }
        self.swd_write_request_read_ack(swd_request);
        (transfer, WriteBlockStep::AwaitAck)
    }

    /// Continues a fast block write once the acknowledge `ack` for its current word is
    /// known, at tick `now`; `data` holds at least that word.
    pub fn swd_write_block_ack(
        &mut self,
        transfer: &mut WriteBlockTransfer,
        ack: u8,
        data: &[u8],
        now: u64,
    ) -> (step: WriteBlockStep)
        requires
            old(transfer)@.done < old(transfer)@.count,
            old(transfer)@.retry <= old(transfer)@.wait_retries,
            4 * old(transfer)@.done + 4 <= data@.len(),
        ensures
            (final(self)@, final(transfer)@, step) == write_block_after_ack(
                old(self)@,
                old(transfer)@,
                ack,
                data@,
                now,
            ),
    {
        let data_len = data.len();
        assert(4 * transfer.done + 4 <= data_len);
        let input = 4 * transfer.done;
        let write_data = word_from_le_bytes(data, input);
        let status = self.swd_write_transfer_finish(ack, write_data);
        match status {
            TransferStatus::Success => {
                transfer.done = transfer.done + 1;
                self.poll_activity_led(now);
                if transfer.done < transfer.count {
                    transfer.retry = transfer.wait_retries;
                    self.swd_write_request_read_ack(transfer.swd_request);
                    WriteBlockStep::AwaitAck
                } else {
                    WriteBlockStep::Finished(
                        WriteBlockResult { status: TransferStatus::Success, done: transfer.done },
                    )
                }
            },
            TransferStatus::Wait => {
                if transfer.retry == 0 {
                    return WriteBlockStep::Finished(
                        WriteBlockResult { status: TransferStatus::Wait, done: transfer.done },
                    );
                }
                transfer.retry = transfer.retry - 1;
                self.swd_write_request_read_ack(transfer.swd_request);
                WriteBlockStep::AwaitAck
            },
            _ => WriteBlockStep::Finished(WriteBlockResult { status, done: transfer.done }),
        }
    }

    /// Starts a fast block read of `count` words into a buffer of `out_len` bytes with
    /// the encoded request `swd_request` at tick `now`, tolerating `wait_retries` WAITs
    /// per word.
    pub fn swd_read_block_fast(
        &mut self,
        swd_request: u8,
        out_len: usize,
        count: usize,
        wait_retries: usize,
        now: u64,
    ) -> (r: (ReadBlockTransfer, ReadBlockStep))
        ensures
            (final(self)@, r.0@, r.1) == read_block_start(
                old(self)@,
                swd_request,
                out_len as nat,
                count as nat,
                wait_retries as nat,
                now,
            ),
    {
        self.swdio_output();
        let mut transfer = ReadBlockTransfer {
            swd_request,
            count,
            wait_retries,
            done: 0,
            retry: wait_retries,
        };
        let step = self.read_block_next_word(&mut transfer, out_len, now);
        (transfer, step)
    }

    /// Continues a fast block read once the acknowledge `ack` for its current word is
    /// known, at tick `now`.
    pub fn swd_read_block_ack(&mut self, transfer: &mut ReadBlockTransfer, ack: u8, now: u64) -> (step:
        ReadBlockStep)
        ensures
            (final(self)@, final(transfer)@, step) == read_block_after_ack(
                old(self)@,
                old(transfer)@,
                ack,
                now,
            ),
    {
        match self.swd_read_transfer_ack(ack) {
            None => ReadBlockStep::AwaitData,
            Some(result) => {
                match result.status {
                    TransferStatus::Wait => {
                        if transfer.retry == 0 {
                            return ReadBlockStep::Finished(
                                ReadBlockResult { status: TransferStatus::Wait, done: transfer.done },
                            );
                        }
                        transfer.retry = transfer.retry - 1;
                        self.swd_read_transfer_fast(transfer.swd_request, now);
                        ReadBlockStep::AwaitAck
                    },
                    status => ReadBlockStep::Finished(
                        ReadBlockResult { status, done: transfer.done },
                    ),
                }
            },
        }
    }

    /// Finishes the current word of a fast block read from its 33 data-phase samples, at
    /// tick `now`: a good word is stored little endian in `out` at word `done`.
    pub fn swd_read_block_data(
        &mut self,
        transfer: &mut ReadBlockTransfer,
        samples: &[u32],
        out: &mut [u8],
        now: u64,
    ) -> (step: ReadBlockStep)
        requires
            33 <= samples@.len(),
            old(transfer)@.done < old(transfer)@.count,
            4 * old(transfer)@.done + 4 <= old(out)@.len(),
        ensures
            ({
                let result = read_result_of_samples(samples@);
                &&& (final(self)@, final(transfer)@, step) == read_block_after_data(
                    old(self)@,
                    old(transfer)@,
                    result.data,
                    result.status == TransferStatus::Success,
                    old(out)@.len(),
                    now,
                )
                &&& final(out)@ == if result.status == TransferStatus::Success {
                    store_word(old(out)@, old(transfer)@.done as int, result.data)
                } else {
                    old(out)@
                }
            }),
    {
        let result = swd_read_transfer_result(samples);
        match result.status {
            TransferStatus::Success => {},
            _ => {
                return ReadBlockStep::Finished(
                    ReadBlockResult { status: TransferStatus::ParityError, done: transfer.done },
                );
            },
        }
        let out_len = out.len();
        assert(4 * transfer.done + 4 <= out_len);
        let output = 4 * transfer.done;
        let bytes = word_to_le_bytes(result.data);
        out[output] = bytes.0;
        out[output + 1] = bytes.1;
        out[output + 2] = bytes.2;
        out[output + 3] = bytes.3;
        transfer.done = transfer.done + 1;
        self.poll_activity_led(now);
        self.read_block_next_word(transfer, out.len(), now)
    }

    fn read_block_next_word(&mut self, transfer: &mut ReadBlockTransfer, out_len: usize, now: u64) -> (step:
        ReadBlockStep)
        ensures
            (final(self)@, final(transfer)@, step) == read_block_next(
                old(self)@,
                old(transfer)@,
                out_len as nat,
                now,
            ),
    {
        if transfer.done >= transfer.count {
            return ReadBlockStep::Finished(
                ReadBlockResult { status: TransferStatus::Success, done: transfer.done },
            );
        }
        if out_len / 4 <= transfer.done {
            return ReadBlockStep::Finished(
                ReadBlockResult { status: TransferStatus::ProtocolError, done: transfer.done },
            );
        }
        transfer.retry = transfer.wait_retries;
        self.swd_read_transfer_fast(transfer.swd_request, now);
        ReadBlockStep::AwaitAck
    }
}

/// Which fast transfer a request takes.
#[derive(Clone, Copy, Debug, PartialEq, Eq)]
pub enum FastTransfer {
    /// Finish with `swd_write_transfer_finish`.
    Write,
    /// Continue with `swd_read_transfer_ack`.
    Read,
}

/// The fast paths handle exactly one turnaround cycle, no idle cycles after a transfer and
/// no data phase after WAIT or FAULT.
pub open spec fn fast_path_applies(turnaround: u8, idle_cycles: u8, data_phase_on_wait_fault: bool) -> bool {
    turnaround == 1 && idle_cycles == 0 && !data_phase_on_wait_fault
}

/// Whether the fast paths handle the given SWD transfer configuration.
pub fn fast_path_supported(turnaround: u8, idle_cycles: u8, data_phase_on_wait_fault: bool) -> (r:
    bool)
    ensures
        r == fast_path_applies(turnaround, idle_cycles, data_phase_on_wait_fault),
{
    turnaround == 1 && idle_cycles == 0 && !data_phase_on_wait_fault
}

impl ProbePins {
    /// Starts a block write of the CMSIS-DAP request `request` on the fast path, or does
    /// nothing and returns `None` where the configuration needs the generic path.
    pub fn swd_write_block(
        &mut self,
        request: u8,
        data: &[u8],
        count: usize,
        wait_retries: usize,
        turnaround: u8,
        idle_cycles: u8,
        data_phase_on_wait_fault: bool,
    ) -> (r: Option<(WriteBlockTransfer, WriteBlockStep)>)
        requires
            fast_path_applies(turnaround, idle_cycles, data_phase_on_wait_fault) && count > 0 ==> 4
                <= data@.len(),
        ensures
            fast_path_applies(turnaround, idle_cycles, data_phase_on_wait_fault) ==> r is Some && (
            final(self)@, (r->0).0@, (r->0).1) == write_block_start(
                old(self)@,
                swd_request_spec(request),
                count as nat,
                wait_retries as nat,
            ),
            !fast_path_applies(turnaround, idle_cycles, data_phase_on_wait_fault) ==> r is None
                && final(self)@ == old(self)@,
    {
        if fast_path_supported(turnaround, idle_cycles, data_phase_on_wait_fault) {
            Some(self.swd_write_block_fast(make_swd_request(request), data, count, wait_retries))
        } else {
            None
        }
    }

    /// Starts a block read of the CMSIS-DAP request `request` into a buffer of `out_len`
    /// bytes on the fast path, or does nothing and returns `None` where the configuration
    /// needs the generic path.
    pub fn swd_read_block(
        &mut self,
        request: u8,
        out_len: usize,
        count: usize,
        wait_retries: usize,
        turnaround: u8,
        idle_cycles: u8,
        data_phase_on_wait_fault: bool,
        now: u64,
    ) -> (r: Option<(ReadBlockTransfer, ReadBlockStep)>)
        ensures
            fast_path_applies(turnaround, idle_cycles, data_phase_on_wait_fault) ==> r is Some && (
            final(self)@, (r->0).0@, (r->0).1) == read_block_start(
                old(self)@,
                swd_request_spec(request),
                out_len as nat,
                count as nat,
                wait_retries as nat,
                now,
            ),
            !fast_path_applies(turnaround, idle_cycles, data_phase_on_wait_fault) ==> r is None
                && final(self)@ == old(self)@,
    {
        if fast_path_supported(turnaround, idle_cycles, data_phase_on_wait_fault) {
            Some(
                self.swd_read_block_fast(
                    make_swd_request(request),
                    out_len,
                    count,
                    wait_retries,
                    now,
                ),
            )
        } else {
            None
        }
    }

    /// Starts a single transfer of the CMSIS-DAP request `request` (bit 1 set: read) on
    /// the fast path and says which way to finish it, or does nothing and returns `None`
    /// where the configuration needs the generic path.
    pub fn swd_transfer(
        &mut self,
        request: u8,
        turnaround: u8,
        idle_cycles: u8,
        data_phase_on_wait_fault: bool,
        now: u64,
    ) -> (r: Option<FastTransfer>)
        ensures
            r == if !fast_path_applies(turnaround, idle_cycles, data_phase_on_wait_fault) {
                None
            } else if request & 0x02 == 0 {
                Some(FastTransfer::Write)
            } else {
                Some(FastTransfer::Read)
            },
            final(self)@ == if r is Some {
                old(self)@.begin_transfer(swd_request_spec(request), now)
            } else {
                old(self)@
            },
    {
        if !fast_path_supported(turnaround, idle_cycles, data_phase_on_wait_fault) {
            return None;
        }
        let swd_request = make_swd_request(request);
        if request & 0x02 == 0 {
            self.swd_write_transfer_fast(swd_request, now);
            Some(FastTransfer::Write)
        } else {
            self.swd_read_transfer_fast(swd_request, now);
            Some(FastTransfer::Read)
        }
    }

    /// Starts a single transfer of the already encoded SWD request `swd_request` (bit 2
    /// set: read) on the fast path, or does nothing and returns `None` where the
    /// configuration needs the generic path.
    pub fn swd_transfer_precomputed(
        &mut self,
        swd_request: u8,
        turnaround: u8,
        idle_cycles: u8,
        data_phase_on_wait_fault: bool,
        now: u64,
    ) -> (r: Option<FastTransfer>)
        ensures
            r == if !fast_path_applies(turnaround, idle_cycles, data_phase_on_wait_fault) {
                None
            } else if swd_request & 0x04 == 0 {
                Some(FastTransfer::Write)
            } else {
                Some(FastTransfer::Read)
            },
            final(self)@ == if r is Some {
                old(self)@.begin_transfer(swd_request, now)
            } else {
                old(self)@
            },
    {
        if !fast_path_supported(turnaround, idle_cycles, data_phase_on_wait_fault) {
            return None;
        }
        if swd_request & 0x04 == 0 {
            self.swd_write_transfer_fast(swd_request, now);
            Some(FastTransfer::Write)
        } else {
            self.swd_read_transfer_fast(swd_request, now);
            Some(FastTransfer::Read)
        }
    }
}

} // verus!
