use underlying_streams::throw::Throw;
use underlying_streams::util::{checked_cast_to_u32, clamp_to_usize};

#[test]
fn lengths_cast_to_32_bits() {
    assert_eq!(checked_cast_to_u32(0), Ok(0));
    assert_eq!(checked_cast_to_u32(65536), Ok(65536));
    assert_eq!(checked_cast_to_u32(u32::MAX as usize), Ok(u32::MAX));
    if let Some(len) = (u32::MAX as usize).checked_add(1) {
        assert_eq!(checked_cast_to_u32(len), Err(Throw::TooLarge));
    }
}

#[test]
fn view_lengths_convert_unchanged() {
    assert_eq!(clamp_to_usize(0), 0);
    assert_eq!(clamp_to_usize(1024), 1024);
    assert_eq!(clamp_to_usize(u32::MAX) as u64, u32::MAX as u64);
}
