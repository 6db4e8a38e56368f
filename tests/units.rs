use rabu::units::{BitDepth, Channels, Samples};

#[test]
fn bit_depth_to_u16() {
    assert_eq!(BitDepth::Bits8.to_u16(), 8);
    assert_eq!(BitDepth::Bits16.to_u16(), 16);
    assert_eq!(BitDepth::Bits24.to_u16(), 24);
    assert_eq!(BitDepth::Bits32.to_u16(), 32);
}

#[test]
fn channels_conversions() {
    let channels = Channels::from(6);
    assert_eq!(channels, Channels(6));
    assert_eq!(channels.value(), 6);
    assert_eq!(channels.as_u32(), 6);
    assert_eq!(channels.as_u64(), 6u64);
    assert_eq!(channels.as_usize(), 6usize);
    assert_eq!(u32::from(Channels(u32::MAX)), u32::MAX);
    assert!(Channels(1) < Channels(2));
}

#[test]
fn samples_conversions() {
    let samples = Samples::from(132_300);
    assert_eq!(samples, Samples(132_300));
    assert_eq!(samples.value(), 132_300);
    assert_eq!(samples.as_u64(), 132_300);
    assert_eq!(samples.as_usize(), 132_300usize);
    assert_eq!(u64::from(Samples(u64::MAX)), u64::MAX);
    assert!(Samples(3) > Samples(2));
}

#[test]
fn samples_and_channels_arithmetic() {
    assert_eq!(Samples(30) + Samples(12), Samples(42));
    assert_eq!(Samples(30) - Samples(12), Samples(18));
    assert_eq!(Channels(2) + Channels(1), Channels(3));
    assert_eq!(Channels(2) - Channels(2), Channels(0));
}
