use acs::parsing::{AcsCharacterInfoFlags, AcsLocator, BranchInfo, List16, List8, Parse};
use acs::{AcsError, AcsString};

fn utf16_string(units: &[u16]) -> Vec<u8> {
    let mut out = (units.len() as u32).to_le_bytes().to_vec();
    for u in units {
        out.extend_from_slice(&u.to_le_bytes());
    }
    if !units.is_empty() {
        out.extend_from_slice(&[0, 0]);
    }
    out
}

#[test]
fn list16_reads_exactly_its_count() {
    let data = [2u8, 0, 1, 0, 2, 0, 3, 0, 4, 0, 0xEE, 0xEE];
    let (list, end) = List16::<BranchInfo>::parse(&data, 0).unwrap();
    assert_eq!(list.items.len(), 2);
    assert_eq!(end, 10);
    assert_eq!(list.items[0], BranchInfo { frame_index: 1, probability: 2 });
    assert_eq!(list.items[1], BranchInfo { frame_index: 3, probability: 4 });
}

#[test]
fn list16_with_missing_elements_is_truncated() {
    let data = [3u8, 0, 1, 0, 2, 0, 3, 0, 4, 0];
    assert_eq!(List16::<BranchInfo>::parse(&data, 0).err(), Some(AcsError::Truncated));
    assert_eq!(List16::<BranchInfo>::parse(&[1u8], 0).err(), Some(AcsError::Truncated));
}

#[test]
fn list8_and_empty_lists() {
    let data = [0u8, 0, 0];
    let (list, end) = List8::<BranchInfo>::parse(&data, 1).unwrap();
    assert!(list.items.is_empty());
    assert_eq!(end, 2);
}

#[test]
fn empty_string_reads_four_bytes() {
    let data = [0u8, 0, 0, 0, 0x41, 0];
    let (s, end) = AcsString::parse(&data, 0).unwrap();
    assert_eq!(end, 4);
    assert_eq!(s.to_string(), "");
}

#[test]
fn string_reads_count_units_and_terminator() {
    let data = utf16_string(&[0x48, 0x69, 0x21]);
    let (s, end) = AcsString::parse(&data, 0).unwrap();
    assert_eq!(end, 4 + 2 * 3 + 2);
    assert_eq!(s.to_string(), "Hi!");
}

#[test]
fn string_without_terminator_is_truncated() {
    let mut data = utf16_string(&[0x48, 0x69]);
    data.truncate(data.len() - 1);
    assert_eq!(AcsString::parse(&data, 0).err(), Some(AcsError::Truncated));
    let huge = [0xFFu8, 0xFF, 0xFF, 0xFF, 0x41, 0];
    assert_eq!(AcsString::parse(&huge, 0).err(), Some(AcsError::Truncated));
}

#[test]
fn unpaired_surrogates_become_replacement_characters() {
    let data = utf16_string(&[0x61, 0xD800, 0x62, 0xDC00, 0xD83D, 0xDE00]);
    let (s, _) = AcsString::parse(&data, 0).unwrap();
    assert_eq!(s.to_string(), "a\u{FFFD}b\u{FFFD}\u{1F600}");
    let data = utf16_string(&[0xDBFF]);
    let (s, end) = AcsString::parse(&data, 0).unwrap();
    assert_eq!(end, 8);
    assert_eq!(s.to_string(), "\u{FFFD}");
}

#[test]
fn character_flags_are_big_endian_and_keep_unknown_bits() {
    let data = [0x80u8, 0x00, 0x02, 0x10];
    let (flags, end) = AcsCharacterInfoFlags::parse(&data, 0).unwrap();
    assert_eq!(end, 4);
    assert_eq!(flags.bits(), 0x8000_0210);
    assert!(flags.contains(AcsCharacterInfoFlags::VOICE_OUTPUT_ENABLED));
    assert!(flags.contains(AcsCharacterInfoFlags::WORD_BALLOON_DISABLED));
    assert!(!flags.contains(AcsCharacterInfoFlags::WORD_BALLOON_ENABLED));
}

#[test]
fn locator_reads_offset_and_size() {
    let data = [0x10u8, 0x00, 0x00, 0x00, 0x04, 0x00, 0x00, 0x00];
    let (loc, end) = AcsLocator::parse(&data, 0).unwrap();
    assert_eq!(loc, AcsLocator { offset: 16, size: 4 });
    assert_eq!(end, 8);
    assert_eq!(AcsLocator::parse(&data, 1).err(), Some(AcsError::Truncated));
    assert_eq!(AcsLocator::parse(&data, 100).err(), Some(AcsError::Truncated));
}

#[test]
fn locator_bytes_past_the_end_are_truncated() {
    let data = [1u8, 2, 3, 4, 5];
    let mut out = vec![9u8];
    AcsLocator { offset: 1, size: 2 }.read_bytes(&data, &mut out).unwrap();
    assert_eq!(out, vec![9, 2, 3]);
    let mut out = vec![];
    AcsLocator { offset: 0, size: 5 }.read_bytes(&data, &mut out).unwrap();
    assert_eq!(out, data.to_vec());
    let mut out = vec![7u8];
    assert_eq!(AcsLocator { offset: 3, size: 10 }.read_bytes(&data, &mut out), Err(AcsError::Truncated));
    assert_eq!(out, vec![7]);
    assert_eq!(AcsLocator { offset: 10, size: 0 }.read_bytes(&data, &mut out), Err(AcsError::Truncated));
    assert_eq!(out, vec![7]);
}
