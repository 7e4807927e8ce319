use slcanx::config::{
    append_dec, bitrate_command, bitrate_index, close_command, data_bitrate_command,
    open_command, sample_point_commands,
};
use slcanx::message::SlcanError;

#[test]
fn nine_canonical_bit_rates_have_an_index() {
    let rates = [10_000u32, 20_000, 50_000, 100_000, 125_000, 250_000, 500_000, 800_000, 1_000_000];
    for (i, rate) in rates.iter().enumerate() {
        assert_eq!(bitrate_index(*rate), Some(i as u8));
        assert_eq!(bitrate_command(*rate), format!("S{}", i));
    }
}

#[test]
fn other_bit_rates_are_written_out() {
    assert_eq!(bitrate_index(83_333), None);
    assert_eq!(bitrate_command(83_333), "y83333");
    assert_eq!(bitrate_command(0), "y0");
    assert_eq!(bitrate_command(999_999), "y999999");
    assert_eq!(bitrate_command(1_000_001), "y1000001");
    assert_eq!(bitrate_command(u32::MAX), "y4294967295");
}

#[test]
fn data_bit_rate_in_whole_megabits() {
    for m in 1u32..=15 {
        let text = data_bitrate_command(m).unwrap();
        assert_eq!(text, format!("Y{}", m));
    }
    assert_eq!(data_bitrate_command(7).unwrap(), "Y7");
    assert_eq!(data_bitrate_command(2).unwrap(), "Y2");
    assert_eq!(data_bitrate_command(15).unwrap(), "Y15");
}

#[test]
fn data_bit_rate_outside_the_device_range_is_refused() {
    for bad in [0u32, 16, 17, 100, 999_999, 1_000_000, 7_000_000, 15_000_000, u32::MAX] {
        assert!(matches!(data_bitrate_command(bad), Err(SlcanError::InvalidArgument)));
    }
}

#[test]
fn sample_points_in_tenths_of_a_percent() {
    assert_eq!(sample_point_commands(Some(800), Some(750)), vec!["p800", "P750"]);
    assert_eq!(sample_point_commands(Some(875), None), vec!["p875"]);
    assert_eq!(sample_point_commands(None, Some(0)), vec!["P0"]);
    assert!(sample_point_commands(None, None).is_empty());
}

#[test]
fn open_and_close() {
    assert_eq!(open_command(), "O");
    assert_eq!(close_command(), "C");
}

#[test]
fn decimal_text() {
    let mut text = String::from("x");
    append_dec(&mut text, 0);
    append_dec(&mut text, 10);
    append_dec(&mut text, 909);
    assert_eq!(text, "x010909");
}
