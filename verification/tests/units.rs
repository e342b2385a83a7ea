use fancy_status::utils::byte_size::{size_magnitude, unitize, ByteSize, Unit};

#[test]
fn unit_sequencing() {
    assert_eq!(Unit::B as u8, 0);
    assert_eq!(Unit::KiB as u8, 1);
    assert_eq!(Unit::MiB as u8, 2);
    assert_eq!(Unit::GiB as u8, 3);
    assert_eq!(Unit::TiB as u8, 4);
    assert_eq!(Unit::PiB as u8, 5);
    assert_eq!(Unit::EiB as u8, 6);
}

#[test]
fn unit_from_magnitude() {
    assert_eq!(Unit::B, 0.into());
    assert_eq!(Unit::KiB, 1.into());
    assert_eq!(Unit::MiB, 2.into());
    assert_eq!(Unit::GiB, 3.into());
    assert_eq!(Unit::TiB, 4.into());
    assert_eq!(Unit::PiB, 5.into());
    assert_eq!(Unit::EiB, 6.into());
}

#[test]
fn unit_stringify() {
    assert_eq!(Unit::B.to_string(), "B");
    assert_eq!(Unit::KiB.to_string(), "KiB");
    assert_eq!(Unit::MiB.to_string(), "MiB");
    assert_eq!(Unit::GiB.to_string(), "GiB");
    assert_eq!(Unit::TiB.to_string(), "TiB");
    assert_eq!(Unit::PiB.to_string(), "PiB");
    assert_eq!(Unit::EiB.to_string(), "EiB");
}

#[test]
fn unit_ordering() {
    assert!(Unit::B < Unit::KiB);
    assert!(Unit::KiB < Unit::MiB);
    assert!(Unit::MiB < Unit::GiB);
    assert!(Unit::GiB < Unit::TiB);
    assert!(Unit::TiB < Unit::PiB);
    assert!(Unit::PiB < Unit::EiB);
}

#[test]
fn byte_size() {
    assert_eq!(ByteSize(0_u8).to_string(), "0 B");
    assert_eq!(ByteSize(27_u16).to_string(), "27 B");
    assert_eq!(ByteSize(999_u32).to_string(), "999 B");
    assert_eq!(ByteSize(1_000_u64).to_string(), "1000 B");
    assert_eq!(ByteSize(1_023_u64).to_string(), "1023 B");
    assert_eq!(ByteSize(1_024_u64).to_string(), "1.0 KiB");
    assert_eq!(ByteSize(1_728_u64).to_string(), "1.7 KiB");
    assert_eq!(ByteSize(110_592_u64).to_string(), "108.0 KiB");
    assert_eq!(ByteSize(7_077_888_u64).to_string(), "6.8 MiB");
    assert_eq!(ByteSize(452_984_832_u64).to_string(), "432.0 MiB");
    assert_eq!(ByteSize(28_991_029_248_u64).to_string(), "27.0 GiB");
    assert_eq!(ByteSize(1_855_425_871_872_u64).to_string(), "1.7 TiB");
    assert_eq!(ByteSize(9_223_372_036_854_775_807_u64).to_string(), "8.0 EiB");
}

#[test]
fn magnitudes() {
    assert_eq!(size_magnitude(0), 0);
    assert_eq!(size_magnitude(1023), 0);
    assert_eq!(size_magnitude(1024), 1);
    assert_eq!(size_magnitude(1 << 20), 2);
    assert_eq!(size_magnitude(u64::MAX), 6);
}

#[test]
fn unitize_tenths() {
    let (t, u) = unitize(1024);
    assert_eq!((t, u), (10, Unit::KiB));
    let (t, u) = unitize(1728);
    assert_eq!((t, u), (17, Unit::KiB));
    let (t, u) = unitize(500);
    assert_eq!((t, u), (5000, Unit::B));
}
