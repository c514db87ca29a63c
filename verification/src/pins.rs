//! Pin assignment of the probe on the HPM5301EVKLite J3 header.
use vstd::prelude::*;

verus! {

/// TDO input: PA26.
pub const PIN_TDO: u8 = 26;

/// SWCLK / TCK output: PA27.
pub const PIN_SWCLK_TCK: u8 = 27;

/// SWDIO / TMS, bidirectional: PA28.
pub const PIN_SWDIO_TMS: u8 = 28;

/// TDI output: PA29.
pub const PIN_TDI: u8 = 29;

/// nRESET output: PB10.
pub const PIN_NRESET: u8 = 10;

/// Activity LED output, active low: PA10.
pub const PIN_ACTIVITY_LED: u8 = 10;

/// IOC pad number of PB10 (port B starts at pad 32).
pub const PAD_NRESET: u8 = 42;

/// Port-A bit of SWCLK / TCK (`1 << 27`).
pub const SWCLK_TCK: u32 = 0x0800_0000;

/// Port-A bit of SWDIO / TMS (`1 << 28`).
pub const SWDIO_TMS: u32 = 0x1000_0000;

/// Port-A bit of TDI (`1 << 29`).
pub const TDI: u32 = 0x2000_0000;

/// Port-A bit of TDO (`1 << 26`).
pub const TDO: u32 = 0x0400_0000;

/// Port-B bit of nRESET (`1 << 10`).
pub const NRESET: u32 = 0x0000_0400;

/// Port-A bit of the activity LED (`1 << 10`).
pub const ACTIVITY_LED: u32 = 0x0000_0400;

/// Port-A pins the probe drives: SWCLK, SWDIO, TDI and the LED.
pub const OUTPUT_MASK_A: u32 = 0x3800_0400;

/// Port-B pins the probe drives: nRESET.
pub const OUTPUT_MASK_B: u32 = 0x0000_0400;

/// The LED lights when its pin is driven high (it does not: it is wired active low).
pub const ACTIVITY_LED_ACTIVE_HIGH: bool = false;

/// Each pin bit is the bit of its pin number, and the output masks are the unions of
/// the driven pins.
pub proof fn lemma_pin_masks()
    ensures
        SWCLK_TCK == 1u32 << PIN_SWCLK_TCK,
        SWDIO_TMS == 1u32 << PIN_SWDIO_TMS,
        TDI == 1u32 << PIN_TDI,
        TDO == 1u32 << PIN_TDO,
        NRESET == 1u32 << PIN_NRESET,
        ACTIVITY_LED == 1u32 << PIN_ACTIVITY_LED,
        OUTPUT_MASK_A == SWCLK_TCK | SWDIO_TMS | TDI | ACTIVITY_LED,
        OUTPUT_MASK_B == NRESET,
{
    assert(0x0800_0000u32 == 1u32 << 27u8 && 0x1000_0000u32 == 1u32 << 28u8 && 0x2000_0000u32 == 1u32
        << 29u8 && 0x0400_0000u32 == 1u32 << 26u8 && 0x0000_0400u32 == 1u32 << 10u8 && 0x3800_0400u32
        == 0x0800_0000u32 | 0x1000_0000u32 | 0x2000_0000u32 | 0x0000_0400u32) by (bit_vector);
}

} // verus!
