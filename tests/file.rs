use acs::{AcsAudioIndex, AcsError, AcsFile, AcsImageIndex, AcsImagePixel, CompressionError};
use std::time::Duration;

fn put_string(out: &mut Vec<u8>, s: &str) {
    let units: Vec<u16> = s.encode_utf16().collect();
    out.extend_from_slice(&(units.len() as u32).to_le_bytes());
    for u in &units {
        out.extend_from_slice(&u.to_le_bytes());
    }
    if !units.is_empty() {
        out.extend_from_slice(&[0, 0]);
    }
}

fn put_u16(out: &mut Vec<u8>, v: u16) {
    out.extend_from_slice(&v.to_le_bytes());
}

fn put_u32(out: &mut Vec<u8>, v: u32) {
    out.extend_from_slice(&v.to_le_bytes());
}

const COMPRESSED: [u8; 19] = [0x00, 0x40, 0x00, 0x04, 0x10, 0xD0, 0x90, 0x80, 0x42, 0xED, 0x98, 0x01, 0xB7, 0xFF,
    0xFF, 0xFF, 0xFF, 0xFF, 0xFF];

fn image_entry(width: u16, height: u16, compressed: bool, data: &[u8]) -> Vec<u8> {
    let mut out = vec![0u8];
    put_u16(&mut out, width);
    put_u16(&mut out, height);
    out.push(compressed as u8);
    put_u32(&mut out, data.len() as u32);
    out.extend_from_slice(data);
    put_u32(&mut out, 2);
    put_u32(&mut out, 7);
    out.extend_from_slice(&[0xAA, 0xBB]);
    out
}

/// A small character: 2 by 2 pixels, transparent index 5, two palette
/// colours, one animation of one frame, three images and one sound.
fn sample_file() -> Vec<u8> {
    let mut out = vec![0u8; 36];
    out[0..4].copy_from_slice(&0xABCD_ABC3u32.to_le_bytes());

    let character_offset = out.len() as u32;
    put_u16(&mut out, 2);
    put_u16(&mut out, 1);
    out.extend_from_slice(&[0; 8]);
    out.extend_from_slice(&[0x11; 16]);
    put_u16(&mut out, 2);
    put_u16(&mut out, 2);
    out.push(5);
    out.extend_from_slice(&[0, 0, 2, 0]);
    put_u16(&mut out, 2);
    put_u16(&mut out, 0);
    put_u32(&mut out, 2);
    out.extend_from_slice(&[0x10, 0x20, 0x30, 0, 0x40, 0x50, 0x60, 0]);
    out.push(0);
    put_u16(&mut out, 1);
    put_string(&mut out, "Idle");
    put_u16(&mut out, 1);
    put_string(&mut out, "Wave");
    let character_size = out.len() as u32 - character_offset;

    let entry_offset = out.len() as u32;
    put_string(&mut out, "Wave");
    out.push(0);
    put_string(&mut out, "Idle");
    put_u16(&mut out, 1);
    put_u16(&mut out, 1);
    put_u32(&mut out, 0);
    out.extend_from_slice(&3i16.to_le_bytes());
    out.extend_from_slice(&(-4i16).to_le_bytes());
    put_u16(&mut out, 0);
    put_u16(&mut out, 10);
    out.extend_from_slice(&(-1i16).to_le_bytes());
    out.push(1);
    put_u16(&mut out, 0);
    put_u16(&mut out, 50);
    out.push(0);

    let animations_offset = out.len() as u32;
    put_u32(&mut out, 1);
    put_string(&mut out, "Wave");
    put_u32(&mut out, entry_offset);
    put_u32(&mut out, 0);

    let images = [
        image_entry(2, 2, false, &[1, 5, 0, 1]),
        image_entry(8, 4, true, &COMPRESSED),
        image_entry(1, 1, true, &[0x01, 0x02]),
    ];
    let mut image_offsets = vec![];
    for image in &images {
        image_offsets.push(out.len() as u32);
        out.extend_from_slice(image);
    }
    let images_offset = out.len() as u32;
    put_u32(&mut out, images.len() as u32);
    for (image, offset) in images.iter().zip(&image_offsets) {
        put_u32(&mut out, *offset);
        put_u32(&mut out, image.len() as u32);
        put_u32(&mut out, 0x1234);
    }

    let sound_offset = out.len() as u32;
    out.extend_from_slice(b"RIF");
    let audio_offset = out.len() as u32;
    put_u32(&mut out, 1);
    put_u32(&mut out, sound_offset);
    put_u32(&mut out, 3);
    put_u32(&mut out, 0);

    let locators = [
        (character_offset, character_size),
        (animations_offset, 0),
        (images_offset, 0),
        (audio_offset, 0),
    ];
    for (i, (offset, size)) in locators.iter().enumerate() {
        out[4 + 8 * i..8 + 8 * i].copy_from_slice(&offset.to_le_bytes());
        out[8 + 8 * i..12 + 8 * i].copy_from_slice(&size.to_le_bytes());
    }
    out
}

#[test]
fn opens_and_reads_the_character() {
    let file = AcsFile::open(sample_file()).unwrap();
    assert_eq!(file.char_size(), (2, 2));
    assert_eq!(file.counts(), (1, 3, 1));
    let character = file.character();
    assert_eq!(character.transparent_color_index, 5);
    assert_eq!(character.major_version, 1);
    assert!(character.voice_info.is_none());
    assert!(character.balloon_info.is_none());
    assert_eq!(character.palette_colors.items.len(), 2);
    assert_eq!(character.states.items.len(), 1);
    assert_eq!(character.states.items[0].name.to_string(), "Idle");
    assert_eq!(character.states.items[0].animations.items[0].to_string(), "Wave");
}

#[test]
fn animations_frames_and_images() {
    let file = AcsFile::open(sample_file()).unwrap();
    let animations = file.animations();
    assert_eq!(animations.len(), 1);
    let animation = animations[0].as_ref().unwrap();
    assert_eq!(animation.name().to_string(), "Wave");
    assert_eq!(animation.return_animation().to_string(), "Idle");
    let frames = animation.frames();
    assert_eq!(frames.len(), 1);
    assert_eq!(frames[0].duration_millis(), 100);
    assert_eq!(frames[0].duration(), Duration::from_millis(100));
    assert_eq!(frames[0].audio_index(), Some(AcsAudioIndex(0)));
    let images = frames[0].images();
    assert_eq!(images.len(), 1);
    assert_eq!(images[0].image_index(), AcsImageIndex(0));
    assert_eq!(images[0].offset(), (3, -4));
}

#[test]
fn pixels_are_read_top_down_through_the_palette() {
    let file = AcsFile::open(sample_file()).unwrap();
    let image = file.image(AcsImageIndex(0)).unwrap();
    assert_eq!(image.size(), (2, 2));
    assert_eq!(image.pixel(0, 0).unwrap().as_argb(), 0xFF30_2010);
    assert_eq!(image.pixel(1, 0).unwrap().as_argb(), 0xFF60_5040);
    assert_eq!(image.pixel(0, 1).unwrap().as_argb(), 0xFF60_5040);
    let mut argb = vec![];
    image.read_argb(&mut argb).unwrap();
    assert_eq!(argb, vec![0xFF30_2010, 0xFF60_5040, 0xFF60_5040, 0]);
    assert_eq!(image.pixel(2, 0).err(), Some(AcsError::IndexOutOfRange));
    assert_eq!(image.pixel(0, 2).err(), Some(AcsError::IndexOutOfRange));
}

#[test]
fn transparent_index_gives_a_clear_pixel() {
    let file = AcsFile::open(sample_file()).unwrap();
    let image = file.image(AcsImageIndex(0)).unwrap();
    let pixel = image.pixel(1, 1).unwrap();
    assert_eq!(pixel, AcsImagePixel::zero());
    assert_eq!(pixel.a(), 0);
}

#[test]
fn compressed_image_is_inflated() {
    let file = AcsFile::open(sample_file()).unwrap();
    let image = file.image(AcsImageIndex(1)).unwrap();
    assert_eq!(image.size(), (8, 4));
    // The first stored byte, 0x20, is the bottom-left pixel: no palette entry.
    assert_eq!(image.pixel(0, 3).err(), Some(AcsError::InvalidPaletteIndex));
    assert_eq!(image.pixel(1, 3).unwrap().as_argb(), 0xFF30_2010);
    assert_eq!(image.pixel(4, 3).unwrap().as_argb(), 0xFF60_5040);
    let mut argb = vec![1u32];
    assert_eq!(image.read_argb(&mut argb), Err(AcsError::InvalidPaletteIndex));
    assert_eq!(argb, vec![1]);
}

#[test]
fn bad_compressed_image_is_reported() {
    let file = AcsFile::open(sample_file()).unwrap();
    assert_eq!(
        file.image(AcsImageIndex(2)).err(),
        Some(AcsError::InvalidCompressedData(CompressionError::InvalidHeader))
    );
}

#[test]
fn image_index_out_of_range() {
    let file = AcsFile::open(sample_file()).unwrap();
    assert_eq!(file.image(AcsImageIndex(3)).err(), Some(AcsError::IndexOutOfRange));
}

#[test]
fn audio_bytes_are_copied() {
    let file = AcsFile::open(sample_file()).unwrap();
    let mut out = vec![];
    file.audio(AcsAudioIndex(0), &mut out).unwrap();
    assert_eq!(out, b"RIF".to_vec());
    assert_eq!(file.audio(AcsAudioIndex(1), &mut out), Err(AcsError::IndexOutOfRange));
}

#[test]
fn audio_past_the_end_is_truncated() {
    let mut data = sample_file();
    let n = data.len();
    // The sound's locator is the last entry but one of the file: its size field.
    data[n - 8..n - 4].copy_from_slice(&1000u32.to_le_bytes());
    let file = AcsFile::open(data).unwrap();
    let mut out = vec![1u8];
    assert_eq!(file.audio(AcsAudioIndex(0), &mut out), Err(AcsError::Truncated));
    assert_eq!(out, vec![1]);
}

#[test]
fn bad_magic_is_rejected() {
    let mut data = sample_file();
    data[0] ^= 1;
    assert_eq!(AcsFile::open(data).err(), Some(AcsError::BadMagic));
}

#[test]
fn truncated_files_are_rejected() {
    let data = sample_file();
    assert_eq!(AcsFile::open(data[..3].to_vec()).err(), Some(AcsError::Truncated));
    assert_eq!(AcsFile::open(data[..20].to_vec()).err(), Some(AcsError::Truncated));
    assert_eq!(AcsFile::open(data[..100].to_vec()).err(), Some(AcsError::Truncated));
    let mut moved = data.clone();
    moved[4..8].copy_from_slice(&0xFFFF_0000u32.to_le_bytes());
    assert_eq!(AcsFile::open(moved).err(), Some(AcsError::Truncated));
}

#[test]
fn pixel_channels() {
    let p = AcsImagePixel::new(0x12, 0x34, 0x56, 0x78);
    assert_eq!(p.as_argb(), 0x1234_5678);
    assert_eq!((p.a(), p.r(), p.g(), p.b()), (0x12, 0x34, 0x56, 0x78));
    assert_eq!(AcsImagePixel::zero().as_argb(), 0);
}
