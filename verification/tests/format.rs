use jellypilot_iced::detail::humanized_size;
use jellypilot_iced::format::{binary_size, bitrate_label, decimal_chars, div_round_half_even_u128, push_padded, push_signed};
use jellypilot_iced::player_info::{bitrate, bytes};

fn float_size(value: u64) -> String {
    const MIB: f64 = 1024.0 * 1024.0;
    const GIB: f64 = MIB * 1024.0;
    if value as f64 >= GIB {
        format!("{:.1} GiB", value as f64 / GIB)
    } else {
        format!("{:.1} MiB", value as f64 / MIB)
    }
}

fn float_bitrate(value: u64) -> String {
    if value >= 1_000_000 {
        format!("{:.1} Mbps", value as f64 / 1_000_000.0)
    } else {
        format!("{:.0} kbps", value as f64 / 1000.0)
    }
}

/// A small deterministic generator, enough to spread samples over `u64`.
fn samples() -> Vec<u64> {
    let mut out = vec![
        0,
        1,
        999,
        1000,
        1499,
        1500,
        2500,
        3500,
        999_499,
        999_500,
        999_999,
        1_000_000,
        1_050_000,
        1_150_000,
        1_250_000,
        (1 << 20) - 1,
        1 << 20,
        (1 << 20) + (1 << 20) / 20,
        3 * (1 << 20) / 20,
        (1 << 30) - 1,
        1 << 30,
        (1 << 30) + (1 << 30) / 20,
        (1 << 30) + 3 * ((1 << 30) / 20),
        (1 << 53) - 1,
        1 << 53,
        (1 << 53) + 1,
        (1 << 53) + 3,
        u64::MAX - 1,
        u64::MAX,
    ];
    let mut x: u64 = 0x9E37_79B9_7F4A_7C15;
    for i in 0..4000u32 {
        x ^= x << 13;
        x ^= x >> 7;
        x ^= x << 17;
        let bits = 1 + (i % 64);
        out.push(if bits == 64 { x } else { x & ((1u64 << bits) - 1) });
    }
    for k in 0..2000u64 {
        // Exact tenths ties of both units.
        out.push(k * (1 << 20) / 20 * 1 + (1 << 20) / 20);
        out.push((k + 20) * ((1 << 30) / 20));
        out.push(k * 100_000 + 50_000);
        out.push(k * 1000 + 500);
    }
    out
}

#[test]
fn binary_sizes_match_float_formatting() {
    for value in samples() {
        assert_eq!(binary_size(value), float_size(value), "{value}");
        assert_eq!(humanized_size(value), float_size(value), "{value}");
        assert_eq!(bytes(value), float_size(value), "{value}");
    }
}

#[test]
fn bitrates_match_float_formatting() {
    for value in samples() {
        assert_eq!(bitrate_label(value), float_bitrate(value), "{value}");
        assert_eq!(bitrate(value), float_bitrate(value), "{value}");
    }
}

#[test]
fn sizes_and_rates_on_chosen_values() {
    assert_eq!(humanized_size(0), "0.0 MiB");
    assert_eq!(humanized_size(1 << 20), "1.0 MiB");
    assert_eq!(humanized_size(1536 << 20), "1.5 GiB");
    assert_eq!(humanized_size(u64::MAX), "17179869184.0 GiB");
    assert_eq!(bitrate(0), "0 kbps");
    assert_eq!(bitrate(1500), "2 kbps");
    assert_eq!(bitrate(2500), "2 kbps");
    assert_eq!(bitrate(999_999), "1000 kbps");
    assert_eq!(bitrate(1_000_000), "1.0 Mbps");
    assert_eq!(bitrate(8_250_000), "8.2 Mbps");
}

#[test]
fn decimal_and_padding() {
    assert_eq!(decimal_chars(0).into_iter().collect::<String>(), "0");
    assert_eq!(decimal_chars(u128::MAX).into_iter().collect::<String>(), u128::MAX.to_string());
    for n in [i64::MIN, -100, -1, 0, 7, 42, i64::MAX] {
        let mut out = String::from(">");
        push_signed(&mut out, n);
        assert_eq!(out, format!(">{n}"));
    }
    for n in [i32::MIN, -10, -9, -1, 0, 1, 9, 10, 99, 100, i32::MAX] {
        let mut out = String::new();
        push_padded(&mut out, n);
        assert_eq!(out, format!("{n:02}"));
    }
}

#[test]
fn rounding_ties_go_to_even() {
    assert_eq!(div_round_half_even_u128(5, 10), 0);
    assert_eq!(div_round_half_even_u128(15, 10), 2);
    assert_eq!(div_round_half_even_u128(25, 10), 2);
    assert_eq!(div_round_half_even_u128(26, 10), 3);
    assert_eq!(div_round_half_even_u128(24, 10), 2);
    assert_eq!(div_round_half_even_u128(0, 7), 0);
}
