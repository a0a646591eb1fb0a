use nucleation::design::{plan_width_map, BusAlign, WidthAdapt};

#[test]
fn a_narrow_word_aligned_to_the_msb_ties_the_low_sink_bit() {
    let m = plan_width_map(3, 4, WidthAdapt { align: BusAlign::Msb, truncate: false }).unwrap();
    assert_eq!(m.shift, 1);
    assert_eq!(m.from_bit, 0);
    assert_eq!(m.bits, 3);
    assert_eq!(m.tied_zero, vec![0u8]);
    assert!(m.dropped.is_empty());
}

#[test]
fn a_word_shifted_past_the_destination_is_refused() {
    let e = plan_width_map(4, 4, WidthAdapt { align: BusAlign::Shift(5), truncate: false }).unwrap_err();
    assert_eq!(
        e,
        "a 4-bit word shifted 5 lands entirely outside a 4-bit destination, so              there is nothing to connect"
    );
}

#[test]
fn dropping_driver_bits_needs_truncate() {
    let adapt = WidthAdapt { align: BusAlign::Lsb, truncate: false };
    let e = plan_width_map(8, 4, adapt).unwrap_err();
    assert_eq!(
        e,
        "connecting a 8-bit driver to a 4-bit sink shifted 0 would drop bits 4..7 of the driver word \u{2014} losing the high bits silently is not something a router should decide, so pass truncate to accept it (or align/shift so it fits)"
    );
    let m = plan_width_map(8, 4, WidthAdapt { align: BusAlign::Lsb, truncate: true }).unwrap();
    assert_eq!(m.dropped, vec![4u8, 5, 6, 7]);
    assert_eq!(m.bits, 4);
}
