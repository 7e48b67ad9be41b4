use hall_effect_keyboard::hardware::{
    adc_reading, decoded_mux, decoded_mux_on_a9, decoder_levels, i2c_recovery_steps,
    mux_channel_levels, BusStep,
};

#[test]
fn mux_channel_levels_encode_channel() {
    assert_eq!(mux_channel_levels(0), [false, false, false]);
    assert_eq!(mux_channel_levels(5), [true, false, true]);
    assert_eq!(mux_channel_levels(6), [false, true, true]);
    assert_eq!(mux_channel_levels(7), [true, true, true]);
}

#[test]
fn decoder_levels_select_outputs() {
    assert_eq!(decoder_levels(0), [false, false, false]);
    assert_eq!(decoder_levels(3), [true, true, false]);
    assert_eq!(decoder_levels(4), [false, false, true]);
    assert_eq!(decoder_levels(5), [true, false, true]);
}

#[test]
fn decoder_outputs_map_to_muxes() {
    assert_eq!(decoded_mux(0), 9);
    assert_eq!(decoded_mux(3), 12);
    assert!(decoded_mux_on_a9(0));
    assert!(decoded_mux_on_a9(1));
    assert!(!decoded_mux_on_a9(2));
    assert!(!decoded_mux_on_a9(3));
}

#[test]
fn adc_reading_conversion() {
    assert_eq!(adc_reading(Some(4095)), 4095);
    assert_eq!(adc_reading(None), 0);
    assert_eq!(adc_reading(Some(70000)), 4464);
}

#[test]
fn i2c_recovery_sequence() {
    let steps = i2c_recovery_steps();
    assert_eq!(steps.len(), 3 + 9 * 4 + 8);
    assert_eq!(&steps[0..3], &[BusStep::Scl(true), BusStep::Sda(true), BusStep::Delay(4800)]);
    let pulses = steps
        .windows(2)
        .filter(|w| w[0] == BusStep::Scl(false) && w[1] == BusStep::Delay(2400))
        .count();
    assert_eq!(pulses, 10);
    assert_eq!(
        &steps[steps.len() - 8..],
        &[
            BusStep::Scl(false),
            BusStep::Delay(2400),
            BusStep::Sda(false),
            BusStep::Delay(2400),
            BusStep::Scl(true),
            BusStep::Delay(2400),
            BusStep::Sda(true),
            BusStep::Delay(4800),
        ]
    );
}

#[test]
fn address_levels_use_low_three_bits() {
    assert_eq!(mux_channel_levels(9), [true, false, false]);
    assert_eq!(mux_channel_levels(usize::MAX), [true, true, true]);
    assert_eq!(decoder_levels(13), [true, false, true]);
    assert_eq!(decoder_levels(8), [false, false, false]);
}
