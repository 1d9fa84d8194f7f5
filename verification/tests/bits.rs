//! Bit-range derivation and access-mode translation.

use atdf::register::Access as SourceAccess;
use atdf::svd::Access;
use atdf::svd::bit_range;

#[test]
fn range_of_0x30() {
    let br = bit_range(0x30).unwrap();
    assert_eq!(br.offset, 4);
    assert_eq!(br.width, 2);
}

#[test]
fn range_of_non_contiguous_mask_is_none() {
    assert!(bit_range(0b1011).is_none());
}

#[test]
fn range_of_lowest_bit() {
    let br = bit_range(0x01).unwrap();
    assert_eq!(br.offset, 0);
    assert_eq!(br.width, 1);
}

#[test]
fn range_of_highest_bit() {
    let br = bit_range(0x8000_0000).unwrap();
    assert_eq!(br.offset, 31);
    assert_eq!(br.width, 1);
}

#[test]
fn range_of_full_mask() {
    let br = bit_range(0xffff_ffff).unwrap();
    assert_eq!(br.offset, 0);
    assert_eq!(br.width, 32);
}

#[test]
fn range_recomposes_mask() {
    for mask in [0x30u32, 0x01, 0xe0, 0x0f00, 0x8000_0000, 0x7fff_fff0] {
        let br = bit_range(mask).unwrap();
        assert_eq!(((1u64 << br.width) - 1) << br.offset, mask as u64);
    }
}

#[test]
fn split_masks_are_rejected() {
    for mask in [0b101u32, 0b1011, 0x81, 0x0f0f, 0x8000_0001] {
        assert!(bit_range(mask).is_none());
    }
}

#[test]
fn bidirectional_translates_to_read_write() {
    assert_eq!(Access::from(SourceAccess::Bidirectional), Access::ReadWrite);
}

#[test]
fn access_passes_through_otherwise() {
    assert_eq!(Access::from(SourceAccess::ReadOnly), Access::ReadOnly);
    assert_eq!(Access::from(SourceAccess::WriteOnly), Access::WriteOnly);
    assert_eq!(Access::from(SourceAccess::ReadWrite), Access::ReadWrite);
}

#[test]
fn source_access_defaults_to_read_write() {
    assert_eq!(SourceAccess::default(), SourceAccess::ReadWrite);
}
