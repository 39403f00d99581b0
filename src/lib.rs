use vstd::prelude::*;

pub mod bytes;
pub mod error;
pub mod compression;
pub mod bit_reader;
pub mod parsing;

pub use crate::error::{AcsError, AcsResult, CompressionError};
pub use crate::parsing::AcsString;

use crate::bytes::{fits, le32};
use crate::compression::{decompress, decompress_spec};
use crate::parsing::{
    AcsAnimationInfo, AcsAnimationInfoEntry, AcsAudioInfo, AcsCharacterInfo, AcsFrameInfo, AcsHeader,
    AcsImageInfo, AcsImageInfoEntry, List32, PaletteColor, Parse, ACS_MAGIC,
};

verus! {

/// The bytes of `data` hold a character file that opens: a header with the
/// right magic number, and character information and lists of animations,
/// images and sounds where it says.
pub open spec fn opens(data: Seq<u8>) -> bool {
    &&& fits(data, 0, 36)
    &&& le32(data, 0) == ACS_MAGIC
    &&& AcsCharacterInfo::spec_end(data, le32(data, 4)) is Some
    &&& List32::<AcsAnimationInfo>::spec_end(data, le32(data, 12)) is Some
    &&& List32::<AcsImageInfo>::spec_end(data, le32(data, 20)) is Some
    &&& List32::<AcsAudioInfo>::spec_end(data, le32(data, 28)) is Some
}

/// A character file held in memory, with its top-level records read.
pub struct AcsFile {
    data: Vec<u8>,
    character: AcsCharacterInfo,
    animations: List32<AcsAnimationInfo>,
    images: List32<AcsImageInfo>,
    audio: List32<AcsAudioInfo>,
}

/// An animation whose record has been read.
pub struct AcsAnimation {
    info: AcsAnimationInfoEntry,
}

/// A frame of an animation.
pub struct AcsFrame<'b> {
    info: &'b AcsFrameInfo,
}

/// An image of a frame and where it is drawn.
pub struct AcsFrameImage<'b> {
    info: &'b parsing::AcsFrameImage,
}

/// An image, with its pixel data inflated when it is stored compressed.
pub struct AcsImage<'a> {
    file: &'a AcsFile,
    info: AcsImageInfoEntry,
    decompressed_data: Vec<u8>,
}

/// A pixel as alpha, red, green and blue, from the most significant byte down.
#[derive(Clone, Copy, Eq, PartialEq, Debug, Structural)]
pub struct AcsImagePixel(u32);

/// The index of an image of the file.
#[derive(Copy, Clone, Debug, Eq, PartialEq, Hash, Structural)]
pub struct AcsImageIndex(pub u32);

/// The index of a sound of the file.
#[derive(Copy, Clone, Debug, Eq, PartialEq, Hash, Structural)]
pub struct AcsAudioIndex(pub u16);

/// The pixel value with the given channels.
pub open spec fn argb(a: int, r: int, g: int, b: int) -> int {
    a * 0x100_0000 + r * 0x1_0000 + g * 0x100 + b
}

/// Where the palette index of pixel (`x`, `y`), counted from the top left, is
/// stored in an image `w` pixels wide and `h` high whose rows are stored from
/// the bottom up.
pub open spec fn pixel_offset(w: int, h: int, x: int, y: int) -> int {
    x + (h - y - 1) * w
}

/// The colour of pixel (`x`, `y`) of an image `w` by `h` with palette indices
/// `pixels`: transparent for the index `transparent`, else the opaque palette colour.
pub open spec fn pixel_spec(
    palette: Seq<PaletteColor>,
    transparent: u8,
    pixels: Seq<u8>,
    w: int,
    h: int,
    x: int,
    y: int,
) -> Result<u32, AcsError> {
    if !(0 <= x < w && 0 <= y < h) {
        Err(AcsError::IndexOutOfRange)
    } else if pixel_offset(w, h, x, y) >= pixels.len() {
        Err(AcsError::Truncated)
    } else {
        let c = pixels[pixel_offset(w, h, x, y)];
        if c == transparent {
            Ok(0)
        } else if c < palette.len() {
            let q = palette[c as int].color;
            Ok(argb(0xFF, q.2 as int, q.1 as int, q.0 as int) as u32)
        } else {
            Err(AcsError::InvalidPaletteIndex)
        }
    }
}

/// The stored pixel data of the image record at `pos`.
pub open spec fn entry_data(data: Seq<u8>, pos: int) -> Seq<u8> {
    data.subrange(pos + 10, pos + 10 + le32(data, pos + 6))
}

/// The palette indices of the image record at `pos`: its stored data,
/// inflated when the record's compression flag is set.
pub open spec fn image_pixels(data: Seq<u8>, pos: int) -> Seq<u8> {
    if data[pos + 5] != 0 {
        decompress_spec(entry_data(data, pos), Seq::empty())->Ok_0
    } else {
        entry_data(data, pos)
    }
}

impl AcsFile {
    /// The bytes of the file.
    pub closed spec fn bytes(&self) -> Seq<u8> {
        self.data@
    }

    pub closed spec fn spec_character(&self) -> AcsCharacterInfo {
        self.character
    }

    pub closed spec fn spec_animations(&self) -> Seq<AcsAnimationInfo> {
        self.animations.items@
    }

    pub closed spec fn spec_images(&self) -> Seq<AcsImageInfo> {
        self.images.items@
    }

    pub closed spec fn spec_audio(&self) -> Seq<AcsAudioInfo> {
        self.audio.items@
    }

    /// The records held are those that the file's bytes encode.
    pub closed spec fn wf(&self) -> bool {
        let d = self.data@;
        &&& opens(d)
        &&& self.character.spec_decodes(d, le32(d, 4))
        &&& self.animations.spec_decodes(d, le32(d, 12))
        &&& self.images.spec_decodes(d, le32(d, 20))
        &&& self.audio.spec_decodes(d, le32(d, 28))
    }

    /// Reads the header, the character information and the lists of
    /// animations, images and sounds; their records are read when asked for.
    pub fn open(data: Vec<u8>) -> (r: AcsResult<AcsFile>)
        ensures
            r is Ok <==> opens(data@),
            r is Ok ==> r->Ok_0.wf() && r->Ok_0.bytes() == data@,
            r == Err::<AcsFile, AcsError>(AcsError::BadMagic) <==> fits(data@, 0, 4) && le32(data@, 0) != ACS_MAGIC,
            r is Err && r != Err::<AcsFile, AcsError>(AcsError::BadMagic) ==> r == Err::<AcsFile, AcsError>(
                AcsError::Truncated,
            ),
    {
        let header = AcsHeader::parse(data.as_slice())?;
        let character = header.character_info.get::<AcsCharacterInfo>(data.as_slice())?;
        let animations = header.animation_info.get::<List32<AcsAnimationInfo>>(data.as_slice())?;
        let images = header.image_info.get::<List32<AcsImageInfo>>(data.as_slice())?;
        let audio = header.audio_info.get::<List32<AcsAudioInfo>>(data.as_slice())?;
        Ok(AcsFile { data, character, animations, images, audio })
    }

    /// Reads the record of each animation, in order.
    pub fn animations(&self) -> (r: Vec<AcsResult<AcsAnimation>>)
        requires
            self.wf(),
        ensures
            r@.len() == self.spec_animations().len(),
            forall|i: int| #![trigger r@[i]] 0 <= i < r@.len() ==> {
                let off = self.spec_animations()[i].entry.offset as int;
                match r@[i] {
                    Ok(a) => AcsAnimationInfoEntry::spec_end(self.bytes(), off) is Some && a.spec_info()
                        .spec_decodes(self.bytes(), off),
                    Err(e) => AcsAnimationInfoEntry::spec_end(self.bytes(), off) is None && e == AcsError::Truncated,
                }
            },
    {
        let mut out: Vec<AcsResult<AcsAnimation>> = Vec::new();
        let n = self.animations.items.len();
        let mut i: usize = 0;
        while i < n
            invariant
                i <= n,
                n == self.spec_animations().len(),
                out@.len() == i,
                forall|j: int| #![trigger out@[j]] 0 <= j < i ==> {
                    let off = self.spec_animations()[j].entry.offset as int;
                    match out@[j] {
                        Ok(a) => AcsAnimationInfoEntry::spec_end(self.bytes(), off) is Some && a.spec_info()
                            .spec_decodes(self.bytes(), off),
                        Err(e) => AcsAnimationInfoEntry::spec_end(self.bytes(), off) is None && e
                            == AcsError::Truncated,
                    }
                },
            decreases n - i,
        {
            let entry = self.animations.items[i].entry;
            let item = match entry.get::<AcsAnimationInfoEntry>(self.data.as_slice()) {
                Ok(info) => Ok(AcsAnimation { info }),
                Err(e) => Err(e),
            };
            out.push(item);
            i = i + 1;
        }
        out
    }

    /// Reads the image at `index`, inflating its pixel data when it is compressed.
    pub fn image(&self, index: AcsImageIndex) -> (r: AcsResult<AcsImage<'_>>)
        requires
            self.wf(),
        ensures
            index.0 >= self.spec_images().len() ==> r == Err::<AcsImage, AcsError>(AcsError::IndexOutOfRange),
            index.0 < self.spec_images().len() ==> {
                let d = self.bytes();
                let off = self.spec_images()[index.0 as int].location.offset as int;
                if AcsImageInfoEntry::spec_end(d, off) is None {
                    r == Err::<AcsImage, AcsError>(AcsError::Truncated)
                } else if d[off + 5] != 0 && decompress_spec(entry_data(d, off), Seq::empty()) is Err {
                    r == Err::<AcsImage, AcsError>(
                        AcsError::InvalidCompressedData(decompress_spec(entry_data(d, off), Seq::empty())->Err_0),
                    )
                } else {
                    &&& r is Ok
                    &&& r->Ok_0.spec_file() == self
                    &&& r->Ok_0.spec_info().spec_decodes(d, off)
                    &&& r->Ok_0.spec_pixels() == image_pixels(d, off)
                }
            },
    {
        if index.0 as usize >= self.images.items.len() {
            return Err(AcsError::IndexOutOfRange);
        }
        let location = self.images.items[index.0 as usize].location;
        let info = location.get::<AcsImageInfoEntry>(self.data.as_slice())?;
        let mut decompressed_data: Vec<u8> = Vec::new();
        if info.compression_flag != 0 {
            decompress(info.data.data.as_slice(), &mut decompressed_data)?;
        }
        Ok(AcsImage { file: self, info, decompressed_data })
    }

    /// Appends the bytes of the sound at `index` to `target`.
    pub fn audio(&self, index: AcsAudioIndex, target: &mut Vec<u8>) -> (r: AcsResult<()>)
        requires
            self.wf(),
        ensures
            index.0 >= self.spec_audio().len() ==> r == Err::<(), AcsError>(AcsError::IndexOutOfRange)
                && final(target)@ == old(target)@,
            index.0 < self.spec_audio().len() ==> {
                let loc = self.spec_audio()[index.0 as int].data;
                if loc.offset + loc.size > self.bytes().len() {
                    r == Err::<(), AcsError>(AcsError::Truncated) && final(target)@ == old(target)@
                } else {
                    r is Ok && final(target)@ == old(target)@ + self.bytes().subrange(
                        loc.offset as int,
                        loc.offset + loc.size,
                    )
                }
            },
    {
        if index.0 as usize >= self.audio.items.len() {
            return Err(AcsError::IndexOutOfRange);
        }
        let location = self.audio.items[index.0 as usize].data;
        location.read_bytes(self.data.as_slice(), target)
    }

    /// The character's width and height.
    pub fn char_size(&self) -> (r: (u16, u16))
        ensures
            r == (self.spec_character().char_width, self.spec_character().char_height),
    {
        (self.character.char_width, self.character.char_height)
    }

    /// The character information.
    pub fn character(&self) -> (r: &AcsCharacterInfo)
        ensures
            *r == self.spec_character(),
    {
        &self.character
    }

    /// The number of animations, images and sounds.
    pub fn counts(&self) -> (r: (usize, usize, usize))
        ensures
            r.0 == self.spec_animations().len(),
            r.1 == self.spec_images().len(),
            r.2 == self.spec_audio().len(),
    {
        (self.animations.items.len(), self.images.items.len(), self.audio.items.len())
    }
}

impl AcsAnimation {
    pub closed spec fn spec_info(&self) -> AcsAnimationInfoEntry {
        self.info
    }

    /// The animation's name.
    pub fn name(&self) -> (r: &AcsString)
        ensures
            *r == self.spec_info().name,
    {
        &self.info.name
    }

    /// The name of the animation that follows this one.
    pub fn return_animation(&self) -> (r: &AcsString)
        ensures
            *r == self.spec_info().return_animation,
    {
        &self.info.return_animation
    }

    /// The animation's frames, in order.
    pub fn frames(&self) -> (r: Vec<AcsFrame<'_>>)
        ensures
            r@.len() == self.spec_info().frame_info.items@.len(),
            forall|i: int| 0 <= i < r@.len() ==> *(#[trigger] r@[i]).spec_info() == self.spec_info().frame_info.items@[i],
    {
        let mut out: Vec<AcsFrame<'_>> = Vec::new();
        let n = self.info.frame_info.items.len();
        let mut i: usize = 0;
        while i < n
            invariant
                i <= n,
                n == self.spec_info().frame_info.items@.len(),
                out@.len() == i,
                forall|j: int| 0 <= j < i ==> *(#[trigger] out@[j]).spec_info() == self.spec_info().frame_info.items@[j],
            decreases n - i,
        {
            out.push(AcsFrame { info: &self.info.frame_info.items[i] });
            i = i + 1;
        }
        out
    }
}

/// The frame's sound, unless the index is the marker for none.
pub open spec fn audio_index_spec(index: u16) -> Option<AcsAudioIndex> {
    if index == 0xFFFF {
        None
    } else {
        Some(AcsAudioIndex(index))
    }
}

impl<'b> AcsFrame<'b> {
    pub closed spec fn spec_info(&self) -> &'b AcsFrameInfo {
        self.info
    }

    /// How long the frame shows, in milliseconds (it is stored in hundredths
    /// of a second).
    pub fn duration_millis(&self) -> (r: u64)
        ensures
            r == 10 * self.spec_info().frame_duration,
    {
        self.info.frame_duration as u64 * 10
    }

    /// How long the frame shows.
    pub fn duration(&self) -> std::time::Duration {
        duration_from_millis(self.duration_millis())
    }

    /// The frame's images, in order.
    pub fn images(&self) -> (r: Vec<AcsFrameImage<'b>>)
        ensures
            r@.len() == self.spec_info().images.items@.len(),
            forall|i: int| 0 <= i < r@.len() ==> *(#[trigger] r@[i]).spec_info() == self.spec_info().images.items@[i],
    {
        let info: &'b AcsFrameInfo = self.info;
        let mut out: Vec<AcsFrameImage<'b>> = Vec::new();
        let n = info.images.items.len();
        let mut i: usize = 0;
        while i < n
            invariant
                i <= n,
                info == self.spec_info(),
                n == info.images.items@.len(),
                out@.len() == i,
                forall|j: int| 0 <= j < i ==> *(#[trigger] out@[j]).spec_info() == info.images.items@[j],
            decreases n - i,
        {
            out.push(AcsFrameImage { info: &info.images.items[i] });
            i = i + 1;
        }
        out
    }

    /// The frame's sound, if it has one.
    pub fn audio_index(&self) -> (r: Option<AcsAudioIndex>)
        ensures
            r == audio_index_spec(self.spec_info().audio_info_index),
    {
        if self.info.audio_info_index == 0xFFFF {
            None
        } else {
            Some(AcsAudioIndex(self.info.audio_info_index))
        }
    }
}

/// Relies on `Duration::from_millis`.
#[verifier::external_body]
fn duration_from_millis(ms: u64) -> std::time::Duration {
    std::time::Duration::from_millis(ms)
}

impl<'b> AcsFrameImage<'b> {
    pub closed spec fn spec_info(&self) -> &'b parsing::AcsFrameImage {
        self.info
    }

    /// Where the image is drawn, relative to the frame.
    pub fn offset(&self) -> (r: (i16, i16))
        ensures
            r == (self.spec_info().x_offset, self.spec_info().y_offset),
    {
        (self.info.x_offset, self.info.y_offset)
    }

    /// Which image of the file is drawn.
    pub fn image_index(&self) -> (r: AcsImageIndex)
        ensures
            r == AcsImageIndex(self.spec_info().image_info_index),
    {
        AcsImageIndex(self.info.image_info_index)
    }
}

impl<'a> AcsImage<'a> {
    pub closed spec fn spec_file(&self) -> &'a AcsFile {
        self.file
    }

    pub closed spec fn spec_info(&self) -> AcsImageInfoEntry {
        self.info
    }

    /// The image's palette indices, row by row from the bottom.
    pub closed spec fn spec_pixels(&self) -> Seq<u8> {
        if self.info.compression_flag != 0 {
            self.decompressed_data@
        } else {
            self.info.data.data@
        }
    }

    /// The colour of pixel (`x`, `y`), counted from the top left.
    pub open spec fn spec_pixel(&self, x: int, y: int) -> Result<u32, AcsError> {
        pixel_spec(
            self.spec_file().spec_character().palette_colors.items@,
            self.spec_file().spec_character().transparent_color_index,
            self.spec_pixels(),
            self.spec_info().width as int,
            self.spec_info().height as int,
            x,
            y,
        )
    }

    /// The colours of row `y`'s first `n` pixels.
    pub open spec fn spec_argb_row(&self, y: int, n: nat) -> Seq<u32> {
        Seq::new(n, |x: int| self.spec_pixel(x, y)->Ok_0)
    }

    /// The colours of the first `k` rows, from the top, left to right.
    pub open spec fn spec_argb_rows(&self, k: nat) -> Seq<u32>
        decreases k,
    {
        if k == 0 {
            Seq::empty()
        } else {
            self.spec_argb_rows((k - 1) as nat) + self.spec_argb_row(k - 1, self.spec_info().width as nat)
        }
    }

    /// Every pixel of the image has a colour.
    pub open spec fn spec_all_pixels_ok(&self) -> bool {
        forall|x: int, y: int|
            0 <= x < self.spec_info().width && 0 <= y < self.spec_info().height ==> #[trigger] self.spec_pixel(x, y) is Ok
    }

    /// The image's width and height.
    pub fn size(&self) -> (r: (u16, u16))
        ensures
            r == (self.spec_info().width, self.spec_info().height),
    {
        (self.info.width, self.info.height)
    }

    fn data(&self) -> (r: &[u8])
        ensures
            r@ == self.spec_pixels(),
    {
        if self.info.compression_flag != 0 {
            self.decompressed_data.as_slice()
        } else {
            self.info.data.data.as_slice()
        }
    }

    /// The colour of pixel (`x`, `y`), counted from the top left.
    pub fn pixel(&self, x: u16, y: u16) -> (r: AcsResult<AcsImagePixel>)
        ensures
            match r {
                Ok(p) => self.spec_pixel(x as int, y as int) == Ok::<u32, AcsError>(p.spec_argb()),
                Err(e) => self.spec_pixel(x as int, y as int) == Err::<u32, AcsError>(e),
            },
    {
        let (width, height) = self.size();
        if x >= width || y >= height {
            return Err(AcsError::IndexOutOfRange);
        }
        let data = self.data();
        let row = (height - y - 1) as usize;
        proof {
            assert(row * (width as usize) <= 0xFFFF * 0xFFFF) by (nonlinear_arith)
                requires
                    row < 0x1_0000,
                    width < 0x1_0000,
            ;
        }
        let i = x as usize + row * width as usize;
        if i >= data.len() {
            return Err(AcsError::Truncated);
        }
        let character = &self.file.character;
        let index = data[i];
        if index == character.transparent_color_index {
            Ok(AcsImagePixel::zero())
        } else if (index as usize) < character.palette_colors.items.len() {
            let color = character.palette_colors.items[index as usize].color;
            Ok(AcsImagePixel::new(0xFF, color.2, color.1, color.0))
        } else {
            Err(AcsError::InvalidPaletteIndex)
        }
    }
}

impl<'a> AcsImage<'a> {
    /// Appends the colours of all pixels to `target`, row by row from the top;
    /// on an error `target` is left as it was.
    pub fn read_argb(&self, target: &mut Vec<u32>) -> (r: AcsResult<()>)
        ensures
            self.spec_pixels().len() < self.spec_info().width * self.spec_info().height ==> r == Err::<(), AcsError>(
                AcsError::Truncated,
            ),
            self.spec_pixels().len() >= self.spec_info().width * self.spec_info().height ==> (r is Ok
                <==> self.spec_all_pixels_ok()),
            r is Err && r != Err::<(), AcsError>(AcsError::Truncated) ==> r == Err::<(), AcsError>(
                AcsError::InvalidPaletteIndex,
            ),
            r is Ok ==> final(target)@ == old(target)@ + self.spec_argb_rows(self.spec_info().height as nat),
            r is Err ==> final(target)@ == old(target)@,
    {
        let (width, height) = self.size();
        assert(width * height <= 0xFFFF * 0xFFFF) by (nonlinear_arith)
            requires
                width <= 0xFFFF,
                height <= 0xFFFF,
        ;
        let total = width as usize * height as usize;
        if self.data().len() < total {
            return Err(AcsError::Truncated);
        }
        let mut pixels: Vec<u32> = Vec::new();
        let ghost w = width as int;
        let ghost h = height as int;
        let mut y: u16 = 0;
        while y < height
            invariant
                y <= height,
                w == width,
                h == height,
                (width, height) == (self.spec_info().width, self.spec_info().height),
                self.spec_pixels().len() >= w * h,
                pixels@ == self.spec_argb_rows(y as nat),
                forall|xx: int, yy: int| 0 <= xx < w && 0 <= yy < y ==> #[trigger] self.spec_pixel(xx, yy) is Ok,
            decreases height - y,
        {
            let mut x: u16 = 0;
            while x < width
                invariant
                    x <= width,
                    y < height,
                    w == width,
                    h == height,
                    (width, height) == (self.spec_info().width, self.spec_info().height),
                    self.spec_pixels().len() >= w * h,
                    pixels@ == self.spec_argb_rows(y as nat) + self.spec_argb_row(y as int, x as nat),
                    forall|xx: int, yy: int| 0 <= xx < w && 0 <= yy < y ==> #[trigger] self.spec_pixel(xx, yy) is Ok,
                    forall|xx: int| 0 <= xx < x ==> #[trigger] self.spec_pixel(xx, y as int) is Ok,
                decreases width - x,
            {
                proof {
                    lemma_offset_in_image(w, h, x as int, y as int);
                }
                let p = match self.pixel(x, y) {
                    Ok(p) => p,
                    Err(e) => {
                        return Err(e);
                    },
                };
                pixels.push(p.as_argb());
                assert(self.spec_argb_row(y as int, (x + 1) as nat) =~= self.spec_argb_row(y as int, x as nat).push(
                    p.spec_argb(),
                ));
                x = x + 1;
            }
            assert(self.spec_argb_rows((y + 1) as nat) == self.spec_argb_rows(y as nat) + self.spec_argb_row(
                y as int,
                width as nat,
            ));
            y = y + 1;
        }
        assert(pixels@ == self.spec_argb_rows(height as nat));
        target.append(&mut pixels);
        Ok(())
    }
}

/// Pixel (`x`, `y`) of a `w` by `h` image lies among its first `w * h` stored bytes.
proof fn lemma_offset_in_image(w: int, h: int, x: int, y: int)
    requires
        0 <= x < w,
        0 <= y < h,
    ensures
        0 <= pixel_offset(w, h, x, y) < w * h,
{
    assert(0 <= x + (h - y - 1) * w < w * h) by (nonlinear_arith)
        requires
            0 <= x < w,
            0 <= y < h,
    ;
}

/// A stored palette index equal to the transparent index gives a fully
/// transparent pixel, whatever the palette holds at that index.
pub proof fn lemma_transparent_index_gives_clear_pixel(
    palette: Seq<PaletteColor>,
    transparent: u8,
    pixels: Seq<u8>,
    w: int,
    h: int,
    x: int,
    y: int,
)
    requires
        0 <= x < w,
        0 <= y < h,
        0 <= pixel_offset(w, h, x, y) < pixels.len(),
        pixels[pixel_offset(w, h, x, y)] == transparent,
    ensures
        pixel_spec(palette, transparent, pixels, w, h, x, y) == Ok::<u32, AcsError>(0),
        pixel_spec(palette, transparent, pixels, w, h, x, y)->Ok_0 / 0x100_0000 == 0,
{
}

impl AcsImagePixel {
    /// The pixel's value as alpha, red, green and blue.
    pub closed spec fn spec_argb(self) -> u32 {
        self.0
    }

    pub fn new(a: u8, r: u8, g: u8, b: u8) -> (p: AcsImagePixel)
        ensures
            p.spec_argb() == argb(a as int, r as int, g as int, b as int),
    {
        let v: u32 = (a as u32) << 24u32 | (r as u32) << 16u32 | (g as u32) << 8u32 | b as u32;
        assert(v == a * 0x100_0000 + r * 0x1_0000 + g * 0x100 + b) by (bit_vector)
            requires
                v == (a as u32) << 24u32 | (r as u32) << 16u32 | (g as u32) << 8u32 | b as u32,
        ;
        AcsImagePixel(v)
    }

    /// The fully transparent pixel.
    pub fn zero() -> (p: AcsImagePixel)
        ensures
            p.spec_argb() == 0,
    {
        AcsImagePixel(0)
    }

    pub fn a(self) -> (r: u8)
        ensures
            r == self.spec_argb() / 0x100_0000,
    {
        let v = self.0;
        assert((v >> 24u32) as u8 == v / 0x100_0000) by (bit_vector);
        (v >> 24u32) as u8
    }

    pub fn r(self) -> (r: u8)
        ensures
            r == self.spec_argb() / 0x1_0000 % 0x100,
    {
        let v = self.0;
        assert((v >> 16u32) as u8 == v / 0x1_0000 % 0x100) by (bit_vector);
        (v >> 16u32) as u8
    }

    pub fn g(self) -> (r: u8)
        ensures
            r == self.spec_argb() / 0x100 % 0x100,
    {
        let v = self.0;
        assert((v >> 8u32) as u8 == v / 0x100 % 0x100) by (bit_vector);
        (v >> 8u32) as u8
    }

    pub fn b(self) -> (r: u8)
        ensures
            r == self.spec_argb() % 0x100,
    {
        let v = self.0;
        assert(v as u8 == v % 0x100) by (bit_vector);
        v as u8
    }

    pub fn as_argb(self) -> (r: u32)
        ensures
            r == self.spec_argb(),
    {
        self.0
    }
}

} // verus!
