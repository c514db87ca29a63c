use yblink::protocol::{
    ack_from_samples, activity_led_bit, delay_half_count, make_swd_request,
    normalize_swj_clock_hz, odd_parity, swd_delay_for_hz, swd_write_delay_for_hz,
    swdio_bits_from_samples, word_from_le_bytes, word_to_le_bytes, ACK_FAULT, ACK_NO_RESPONSE,
    ACK_OK, ACK_WAIT,
};

const SWDIO: u32 = 1 << 28;

#[test]
fn odd_parity_counts_set_bits() {
    assert!(!odd_parity(0));
    assert!(odd_parity(1));
    assert!(!odd_parity(0xffff_ffff));
    assert!(odd_parity(0x8000_0000));
    assert!(!odd_parity(0x8000_0001));
    assert!(odd_parity(0x0000_0007));
    for v in [0u32, 1, 3, 0x1234_5678, 0xdead_beef, 0x8000_0000, 0x7fff_ffff, 0x5555_5555] {
        assert_eq!(odd_parity(v), v.count_ones() % 2 == 1, "value {v:#x}");
    }
}

#[test]
fn make_swd_request_encodes_known_packets() {
    // DP write ABORT, DP read IDCODE, AP write, AP read, DP read CTRL/STAT, DP write SELECT.
    assert_eq!(make_swd_request(0x00), 0x81);
    assert_eq!(make_swd_request(0x02), 0xA5);
    assert_eq!(make_swd_request(0x01), 0xA3);
    assert_eq!(make_swd_request(0x03), 0x87);
    assert_eq!(make_swd_request(0x06), 0x8D);
    assert_eq!(make_swd_request(0x08), 0xB1);
    assert_eq!(make_swd_request(0x0E), 0xBD);
}

#[test]
fn make_swd_request_has_start_stop_park_and_even_parity() {
    for dap in 0u8..=0xff {
        let r = make_swd_request(dap);
        assert_eq!(r & 1, 1, "start bit");
        assert_eq!((r >> 6) & 1, 0, "stop bit");
        assert_eq!(r >> 7, 1, "park bit");
        assert_eq!((r >> 1) & 0x0f, dap & 0x0f);
        assert_eq!(((r >> 1) & 0x1f).count_ones() % 2, 0, "parity over APnDP..A3 and parity");
    }
}

#[test]
fn swd_delay_table_boundaries() {
    let table = [
        (0u32, 96u8),
        (250_000, 96),
        (250_001, 48),
        (500_000, 48),
        (500_001, 24),
        (1_000_000, 24),
        (1_000_001, 10),
        (2_000_000, 10),
        (2_000_001, 7),
        (3_000_000, 7),
        (3_000_001, 5),
        (4_000_000, 5),
        (4_000_001, 3),
        (8_000_000, 3),
        (8_000_001, 1),
        (20_000_000, 1),
        (20_000_001, 0),
        (u32::MAX, 0),
    ];
    for (hz, delay) in table {
        assert_eq!(swd_delay_for_hz(hz), delay, "{hz} Hz");
        assert_eq!(swd_write_delay_for_hz(hz), delay, "{hz} Hz");
    }
}

#[test]
fn clock_requests_are_normalized() {
    assert_eq!(normalize_swj_clock_hz(1_000_000), 8_000_000);
    assert_eq!(normalize_swj_clock_hz(500_000), 500_000);
    assert_eq!(normalize_swj_clock_hz(0), 0);
    assert_eq!(normalize_swj_clock_hz(7_999_999), 7_999_999);
    assert_eq!(normalize_swj_clock_hz(8_000_000), 8_000_000);
    assert_eq!(normalize_swj_clock_hz(8_000_001), 8_000_000);
    assert_eq!(normalize_swj_clock_hz(50_000_000), 8_000_000);
    assert_eq!(normalize_swj_clock_hz(u32::MAX), 8_000_000);
}

#[test]
fn activity_led_is_active_low() {
    assert_eq!(activity_led_bit(true), 0);
    assert_eq!(activity_led_bit(false), 1 << 10);
}

#[test]
fn delay_half_count_returns_for_every_count() {
    for n in [0u8, 1, 2, 3, 4, 5, 7, 10, 24, 48, 96, 255] {
        assert_eq!(delay_half_count(n).len(), n as usize);
    }
}

#[test]
fn le_word_packing() {
    let bytes = [0x78u8, 0x56, 0x34, 0x12, 0xef, 0xbe, 0xad, 0xde];
    assert_eq!(word_from_le_bytes(&bytes, 0), 0x1234_5678);
    assert_eq!(word_from_le_bytes(&bytes, 4), 0xdead_beef);
    assert_eq!(word_from_le_bytes(&bytes, 2), 0xbeef_1234);
    assert_eq!(word_to_le_bytes(0x1234_5678), (0x78, 0x56, 0x34, 0x12));
    for w in [0u32, 1, 0xdead_beef, u32::MAX, 0x0102_0304] {
        let (a, b, c, d) = word_to_le_bytes(w);
        assert_eq!(word_from_le_bytes(&[a, b, c, d], 0), w);
        assert_eq!([a, b, c, d], w.to_le_bytes());
    }
}

#[test]
fn samples_assemble_lsb_first() {
    let samples: Vec<u32> = (0..32)
        .map(|i| if (0xdead_beefu32 >> i) & 1 != 0 { SWDIO | 0x3 } else { 0x3 })
        .collect();
    assert_eq!(swdio_bits_from_samples(&samples, 32), 0xdead_beef);
    assert_eq!(swdio_bits_from_samples(&samples, 8), 0xef);
    assert_eq!(swdio_bits_from_samples(&samples, 0), 0);
    let all_high = vec![u32::MAX; 32];
    assert_eq!(swdio_bits_from_samples(&all_high, 32), u32::MAX);
}

#[test]
fn ack_samples_decode() {
    assert_eq!(ack_from_samples(&[SWDIO, 0, 0]), ACK_OK);
    assert_eq!(ack_from_samples(&[0, SWDIO, 0]), ACK_WAIT);
    assert_eq!(ack_from_samples(&[0, 0, SWDIO]), ACK_FAULT);
    assert_eq!(ack_from_samples(&[SWDIO, SWDIO, SWDIO]), ACK_NO_RESPONSE);
    assert_eq!(ack_from_samples(&[!SWDIO, !SWDIO, !SWDIO]), 0);
}
