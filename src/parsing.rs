use vstd::prelude::*;

use crate::bytes::{fits, le16, le32, le64, be32, signed16, signed32, need, u16_at, u32_at, u64_at, be_u32_at, i16_at, i32_at, bytes_at};
use crate::error::{AcsError, AcsResult};

verus! {

/// A value with a fixed binary encoding, read in field order.
pub trait Parse: Sized {
    /// Where the encoding of a value that starts at `pos` ends, or `None` when
    /// the bytes there do not hold one.
    spec fn spec_end(data: Seq<u8>, pos: int) -> Option<int>;

    /// `self` is the value encoded at `pos`.
    spec fn spec_decodes(&self, data: Seq<u8>, pos: int) -> bool;

    /// Reads the value encoded at `pos`, and where its encoding ends.
    fn parse(data: &[u8], pos: usize) -> (r: AcsResult<(Self, usize)>)
        ensures
            match r {
                Ok((v, end)) => Self::spec_end(data@, pos as int) == Some(end as int) && v.spec_decodes(
                    data@,
                    pos as int,
                ),
                Err(e) => Self::spec_end(data@, pos as int) is None && e == AcsError::Truncated,
            },
    ;
}

/// Where `count` values encoded one after the other from `pos` on end.
pub open spec fn items_end<T: Parse>(data: Seq<u8>, pos: int, count: nat) -> Option<int>
    decreases count,
{
    if count == 0 {
        Some(pos)
    } else {
        match T::spec_end(data, pos) {
            Some(e) => items_end::<T>(data, e, (count - 1) as nat),
            None => None,
        }
    }
}

/// `items` are the values encoded one after the other from `pos` on.
pub open spec fn items_decode<T: Parse>(data: Seq<u8>, pos: int, items: Seq<T>) -> bool
    decreases items.len(),
{
    if items.len() == 0 {
        true
    } else {
        match T::spec_end(data, pos) {
            Some(e) => items[0].spec_decodes(data, pos) && items_decode::<T>(data, e, items.drop_first()),
            None => false,
        }
    }
}

proof fn lemma_items_push<T: Parse>(data: Seq<u8>, pos: int, items: Seq<T>, x: T, cur: int, end: int)
    requires
        items_decode::<T>(data, pos, items),
        items_end::<T>(data, pos, items.len()) == Some(cur),
        T::spec_end(data, cur) == Some(end),
        x.spec_decodes(data, cur),
    ensures
        items_decode::<T>(data, pos, items.push(x)),
        items_end::<T>(data, pos, items.len() + 1) == Some(end),
    decreases items.len(),
{
    if items.len() == 0 {
        assert(items.push(x).drop_first() =~= Seq::<T>::empty());
        assert(items.push(x)[0] == x);
        assert(items_decode::<T>(data, end, Seq::<T>::empty()));
        assert(items_end::<T>(data, end, 0) == Some(end));
    } else {
        let e = T::spec_end(data, pos)->Some_0;
        lemma_items_push(data, e, items.drop_first(), x, cur, end);
        assert(items.push(x).drop_first() =~= items.drop_first().push(x));
        assert(items.push(x)[0] == items[0]);
    }
}

proof fn lemma_items_end_split<T: Parse>(data: Seq<u8>, pos: int, a: nat, b: nat)
    ensures
        items_end::<T>(data, pos, a + b) == match items_end::<T>(data, pos, a) {
            Some(q) => items_end::<T>(data, q, b),
            None => None,
        },
    decreases a,
{
    if a > 0 {
        match T::spec_end(data, pos) {
            Some(e) => {
                lemma_items_end_split::<T>(data, e, (a - 1) as nat, b);
                assert((a + b - 1) as nat == (a - 1) as nat + b);
            },
            None => {},
        }
    }
}

/// Reads `count` values encoded one after the other from `pos` on.
pub fn parse_items<T: Parse>(data: &[u8], pos: usize, count: usize) -> (r: AcsResult<(Vec<T>, usize)>)
    ensures
        match r {
            Ok((v, end)) => items_end::<T>(data@, pos as int, count as nat) == Some(end as int) && v@.len()
                == count && items_decode::<T>(data@, pos as int, v@),
            Err(e) => items_end::<T>(data@, pos as int, count as nat) is None && e == AcsError::Truncated,
        },
{
    let mut items: Vec<T> = Vec::new();
    let mut cur = pos;
    let mut i: usize = 0;
    while i < count
        invariant
            i <= count,
            items@.len() == i,
            items_decode::<T>(data@, pos as int, items@),
            items_end::<T>(data@, pos as int, i as nat) == Some(cur as int),
            items_end::<T>(data@, pos as int, count as nat) == items_end::<T>(data@, cur as int, (count - i) as nat),
        decreases count - i,
    {
        let (x, end) = T::parse(data, cur)?;
        proof {
            lemma_items_push(data@, pos as int, items@, x, cur as int, end as int);
            lemma_items_end_split::<T>(data@, pos as int, i as nat, 1);
            lemma_items_end_split::<T>(data@, pos as int, (i + 1) as nat, (count - i - 1) as nat);
            lemma_items_end_split::<T>(data@, cur as int, 1, (count - i - 1) as nat);
            assert(items_end::<T>(data@, end as int, 0) == Some(end as int));
        }
        items.push(x);
        cur = end;
        i = i + 1;
    }
    Ok((items, cur))
}

/// A list with an 8-bit count.
pub struct List8<T> {
    pub items: Vec<T>,
}

/// A list with a 16-bit count.
pub struct List16<T> {
    pub items: Vec<T>,
}

/// A list with a 32-bit count.
pub struct List32<T> {
    pub items: Vec<T>,
}

impl<T: Parse> Parse for List8<T> {
    open spec fn spec_end(data: Seq<u8>, pos: int) -> Option<int> {
        if fits(data, pos, 1) {
            items_end::<T>(data, pos + 1, data[pos] as nat)
        } else {
            None
        }
    }

    open spec fn spec_decodes(&self, data: Seq<u8>, pos: int) -> bool {
        &&& fits(data, pos, 1)
        &&& self.items@.len() == data[pos]
        &&& items_decode::<T>(data, pos + 1, self.items@)
    }

    fn parse(data: &[u8], pos: usize) -> (r: AcsResult<(Self, usize)>) {
        need(data, pos, 1)?;
        let count = data[pos];
        let (items, end) = parse_items::<T>(data, pos + 1, count as usize)?;
        Ok((List8 { items }, end))
    }
}

impl<T: Parse> Parse for List16<T> {
    open spec fn spec_end(data: Seq<u8>, pos: int) -> Option<int> {
        if fits(data, pos, 2) {
            items_end::<T>(data, pos + 2, le16(data, pos) as nat)
        } else {
            None
        }
    }

    open spec fn spec_decodes(&self, data: Seq<u8>, pos: int) -> bool {
        &&& fits(data, pos, 2)
        &&& self.items@.len() == le16(data, pos)
        &&& items_decode::<T>(data, pos + 2, self.items@)
    }

    fn parse(data: &[u8], pos: usize) -> (r: AcsResult<(Self, usize)>) {
        need(data, pos, 2)?;
        let count = u16_at(data, pos);
        let (items, end) = parse_items::<T>(data, pos + 2, count as usize)?;
        Ok((List16 { items }, end))
    }
}

impl<T: Parse> Parse for List32<T> {
    open spec fn spec_end(data: Seq<u8>, pos: int) -> Option<int> {
        if fits(data, pos, 4) {
            items_end::<T>(data, pos + 4, le32(data, pos) as nat)
        } else {
            None
        }
    }

    open spec fn spec_decodes(&self, data: Seq<u8>, pos: int) -> bool {
        &&& fits(data, pos, 4)
        &&& self.items@.len() == le32(data, pos)
        &&& items_decode::<T>(data, pos + 4, self.items@)
    }

    fn parse(data: &[u8], pos: usize) -> (r: AcsResult<(Self, usize)>) {
        need(data, pos, 4)?;
        let count = u32_at(data, pos);
        let (items, end) = parse_items::<T>(data, pos + 4, count as usize)?;
        Ok((List32 { items }, end))
    }
}

/// A 16-bit counted list whose count `K` is followed by `K` well-formed
/// elements parses to exactly `K` elements, and its encoding ends right after
/// the last of them.
pub proof fn lemma_list16_shape<T: Parse>(data: Seq<u8>, pos: int, count: nat, end: int)
    requires
        fits(data, pos, 2),
        le16(data, pos) == count,
        items_end::<T>(data, pos + 2, count) == Some(end),
    ensures
        List16::<T>::spec_end(data, pos) == Some(end),
        forall|l: List16<T>| #[trigger] l.spec_decodes(data, pos) ==> l.items@.len() == count,
{
}

/// Four bytes of a colour, stored blue, green, red, reserved.
#[derive(Debug, Clone, Copy, PartialEq, Eq, Structural)]
pub struct RgbQuad(pub u8, pub u8, pub u8, pub u8);

impl Parse for RgbQuad {
    open spec fn spec_end(data: Seq<u8>, pos: int) -> Option<int> {
        if fits(data, pos, 4) { Some(pos + 4) } else { None }
    }

    open spec fn spec_decodes(&self, data: Seq<u8>, pos: int) -> bool {
        *self == RgbQuad(data[pos], data[pos + 1], data[pos + 2], data[pos + 3])
    }

    fn parse(data: &[u8], pos: usize) -> (r: AcsResult<(Self, usize)>) {
        need(data, pos, 4)?;
        Ok((RgbQuad(data[pos], data[pos + 1], data[pos + 2], data[pos + 3]), pos + 4))
    }
}

/// A GUID in its binary layout.
#[derive(Debug, Clone, Copy, PartialEq, Eq, Structural)]
pub struct AcsGuid(pub u32, pub u16, pub u16, pub u64);

impl Parse for AcsGuid {
    open spec fn spec_end(data: Seq<u8>, pos: int) -> Option<int> {
        if fits(data, pos, 16) { Some(pos + 16) } else { None }
    }

    open spec fn spec_decodes(&self, data: Seq<u8>, pos: int) -> bool {
        &&& self.0 == le32(data, pos)
        &&& self.1 == le16(data, pos + 4)
        &&& self.2 == le16(data, pos + 6)
        &&& self.3 == le64(data, pos + 8)
    }

    fn parse(data: &[u8], pos: usize) -> (r: AcsResult<(Self, usize)>) {
        need(data, pos, 16)?;
        let guid = AcsGuid(u32_at(data, pos), u16_at(data, pos + 4), u16_at(data, pos + 6), u64_at(data, pos + 8));
        Ok((guid, pos + 16))
    }
}

/// Where a record lies in the file: its offset and its size in bytes.
#[derive(Debug, Clone, Copy, PartialEq, Eq, Structural)]
pub struct AcsLocator {
    pub offset: u32,
    pub size: u32,
}

impl Parse for AcsLocator {
    open spec fn spec_end(data: Seq<u8>, pos: int) -> Option<int> {
        if fits(data, pos, 8) { Some(pos + 8) } else { None }
    }

    open spec fn spec_decodes(&self, data: Seq<u8>, pos: int) -> bool {
        self.offset == le32(data, pos) && self.size == le32(data, pos + 4)
    }

    fn parse(data: &[u8], pos: usize) -> (r: AcsResult<(Self, usize)>) {
        need(data, pos, 8)?;
        Ok((AcsLocator { offset: u32_at(data, pos), size: u32_at(data, pos + 4) }, pos + 8))
    }
}

/// A branch to another frame, taken with the given probability.
#[derive(Debug, Clone, Copy, PartialEq, Eq, Structural)]
pub struct BranchInfo {
    pub frame_index: u16,
    pub probability: u16,
}

impl Parse for BranchInfo {
    open spec fn spec_end(data: Seq<u8>, pos: int) -> Option<int> {
        if fits(data, pos, 4) { Some(pos + 4) } else { None }
    }

    open spec fn spec_decodes(&self, data: Seq<u8>, pos: int) -> bool {
        self.frame_index == le16(data, pos) && self.probability == le16(data, pos + 2)
    }

    fn parse(data: &[u8], pos: usize) -> (r: AcsResult<(Self, usize)>) {
        need(data, pos, 4)?;
        Ok((BranchInfo { frame_index: u16_at(data, pos), probability: u16_at(data, pos + 2) }, pos + 4))
    }
}

/// One image of a frame, drawn at the given offset.
#[derive(Debug, Clone, Copy, PartialEq, Eq, Structural)]
pub struct AcsFrameImage {
    pub image_info_index: u32,
    pub x_offset: i16,
    pub y_offset: i16,
}

impl Parse for AcsFrameImage {
    open spec fn spec_end(data: Seq<u8>, pos: int) -> Option<int> {
        if fits(data, pos, 8) { Some(pos + 8) } else { None }
    }

    open spec fn spec_decodes(&self, data: Seq<u8>, pos: int) -> bool {
        &&& self.image_info_index == le32(data, pos)
        &&& self.x_offset == signed16(le16(data, pos + 4))
        &&& self.y_offset == signed16(le16(data, pos + 6))
    }

    fn parse(data: &[u8], pos: usize) -> (r: AcsResult<(Self, usize)>) {
        need(data, pos, 8)?;
        let image = AcsFrameImage {
            image_info_index: u32_at(data, pos),
            x_offset: i16_at(data, pos + 4),
            y_offset: i16_at(data, pos + 6),
        };
        Ok((image, pos + 8))
    }
}

/// Where an optional field ends: it is read only when `present` holds.
pub open spec fn opt_end<T: Parse>(present: bool, data: Seq<u8>, pos: int) -> Option<int> {
    if present {
        T::spec_end(data, pos)
    } else {
        Some(pos)
    }
}

/// `v` is the optional field at `pos`: present, and decoded there, exactly when `present` holds.
pub open spec fn opt_decodes<T: Parse>(present: bool, v: Option<T>, data: Seq<u8>, pos: int) -> bool {
    if present {
        v is Some && v->Some_0.spec_decodes(data, pos)
    } else {
        v is None
    }
}

/// Reads the optional field at `pos` when `present` holds.
pub fn parse_opt<T: Parse>(present: bool, data: &[u8], pos: usize) -> (r: AcsResult<(Option<T>, usize)>)
    ensures
        match r {
            Ok((v, end)) => opt_end::<T>(present, data@, pos as int) == Some(end as int) && opt_decodes::<T>(
                present,
                v,
                data@,
                pos as int,
            ),
            Err(e) => opt_end::<T>(present, data@, pos as int) is None && e == AcsError::Truncated,
        },
{
    if present {
        let (v, end) = T::parse(data, pos)?;
        Ok((Some(v), end))
    } else {
        Ok((None, pos))
    }
}

/// A block of bytes with a 32-bit length.
pub struct AcsDataBlock {
    pub size: u32,
    pub data: Vec<u8>,
}

impl Parse for AcsDataBlock {
    open spec fn spec_end(data: Seq<u8>, pos: int) -> Option<int> {
        if fits(data, pos, 4) && fits(data, pos + 4, le32(data, pos)) {
            Some(pos + 4 + le32(data, pos))
        } else {
            None
        }
    }

    open spec fn spec_decodes(&self, data: Seq<u8>, pos: int) -> bool {
        &&& self.size == le32(data, pos)
        &&& self.data@ == data.subrange(pos + 4, pos + 4 + le32(data, pos))
    }

    fn parse(data: &[u8], pos: usize) -> (r: AcsResult<(Self, usize)>) {
        need(data, pos, 4)?;
        let size = u32_at(data, pos);
        need(data, pos + 4, size as usize)?;
        let bytes = bytes_at(data, pos + 4, size as usize);
        Ok((AcsDataBlock { size, data: bytes }, pos + 4 + size as usize))
    }
}

/// A UTF-16 string with a 32-bit count of code units, followed by a
/// terminating unit when the count is not zero.
pub struct AcsString {
    pub chars: Vec<u16>,
}

impl Parse for AcsString {
    open spec fn spec_end(data: Seq<u8>, pos: int) -> Option<int> {
        if fits(data, pos, 4) {
            let count = le32(data, pos);
            let end = pos + 4 + 2 * count + if count > 0 { 2int } else { 0int };
            if end <= data.len() {
                Some(end)
            } else {
                None
            }
        } else {
            None
        }
    }

    open spec fn spec_decodes(&self, data: Seq<u8>, pos: int) -> bool {
        &&& self.chars@.len() == le32(data, pos)
        &&& forall|i: int| 0 <= i < self.chars@.len() ==> self.chars@[i] == le16(data, pos + 4 + 2 * i)
    }

    fn parse(data: &[u8], pos: usize) -> (r: AcsResult<(Self, usize)>) {
        need(data, pos, 4)?;
        let count = u32_at(data, pos) as usize;
        let start = pos + 4;
        let room = data.len() - start;
        if count > room / 2 {
            return Err(AcsError::Truncated);
        }
        if count > 0 && room - 2 * count < 2 {
            return Err(AcsError::Truncated);
        }
        let mut chars: Vec<u16> = Vec::new();
        let mut i: usize = 0;
        while i < count
            invariant
                i <= count,
                start == pos + 4,
                start + 2 * count <= data@.len(),
                data@.len() <= usize::MAX,
                chars@.len() == i,
                forall|j: int| 0 <= j < i ==> chars@[j] == le16(data@, start + 2 * j),
            decreases count - i,
        {
            chars.push(u16_at(data, start + 2 * i));
            i = i + 1;
        }
        let end = if count > 0 { start + 2 * count + 2 } else { start };
        Ok((AcsString { chars }, end))
    }
}

/// A UTF-16 code unit that starts a surrogate pair.
pub open spec fn is_high_surrogate(u: u16) -> bool {
    0xD800 <= u <= 0xDBFF
}

/// A UTF-16 code unit that ends a surrogate pair.
pub open spec fn is_low_surrogate(u: u16) -> bool {
    0xDC00 <= u <= 0xDFFF
}

/// The characters that the UTF-16 code units `units` spell, where each
/// unpaired surrogate stands for the replacement character U+FFFD.
pub open spec fn utf16_lossy(units: Seq<u16>) -> Seq<char>
    decreases units.len(),
{
    if units.len() == 0 {
        Seq::empty()
    } else if units.len() >= 2 && is_high_surrogate(units[0]) && is_low_surrogate(units[1]) {
        seq![(0x1_0000 + (units[0] - 0xD800) * 0x400 + (units[1] - 0xDC00)) as char]
            + utf16_lossy(units.subrange(2, units.len() as int))
    } else if is_high_surrogate(units[0]) || is_low_surrogate(units[0]) {
        seq!['\u{FFFD}'] + utf16_lossy(units.drop_first())
    } else {
        seq![units[0] as char] + utf16_lossy(units.drop_first())
    }
}

/// Relies on `String::from_utf16_lossy`: UTF-16 decoding that puts U+FFFD in
/// place of each unpaired surrogate.
#[verifier::external_body]
fn string_from_utf16_lossy(units: &[u16]) -> (r: String)
    ensures
        r@ == utf16_lossy(units@),
{
    String::from_utf16_lossy(units)
}

impl AcsString {
    /// The string's text; an unpaired surrogate becomes U+FFFD.
    pub fn to_string(&self) -> (r: String)
        ensures
            r@ == utf16_lossy(self.chars@),
    {
        string_from_utf16_lossy(self.chars.as_slice())
    }
}

/// An unpaired surrogate decodes to the replacement character, and decoding
/// goes on with the next unit.
pub proof fn lemma_unpaired_surrogate_replaced(units: Seq<u16>)
    requires
        units.len() > 0,
        is_high_surrogate(units[0]) || is_low_surrogate(units[0]),
        !(units.len() >= 2 && is_high_surrogate(units[0]) && is_low_surrogate(units[1])),
    ensures
        utf16_lossy(units) == seq!['\u{FFFD}'] + utf16_lossy(units.drop_first()),
{
}

/// Decoding a string with a count of zero reads exactly its four count bytes;
/// one with a count `C > 0` reads `4 + 2 * C + 2` bytes.
pub proof fn lemma_string_size(data: Seq<u8>, pos: int)
    requires
        AcsString::spec_end(data, pos) is Some,
    ensures
        le32(data, pos) == 0 ==> AcsString::spec_end(data, pos) == Some(pos + 4),
        le32(data, pos) > 0 ==> AcsString::spec_end(data, pos) == Some(pos + 4 + 2 * le32(data, pos) + 2),
{
}

/// Where a mouth or other overlay is drawn over a frame.
pub struct AcsOverlayInfo {
    pub overlay_type: u8,
    pub replace_enabled: u8,
    pub image_info_index: u16,
    pub reserved: u8,
    pub region_data_flag: u8,
    pub x_offset: i16,
    pub y_offset: i16,
    pub width: u16,
    pub height: u16,
    pub region_data: Option<AcsDataBlock>,
}

impl Parse for AcsOverlayInfo {
    open spec fn spec_end(data: Seq<u8>, pos: int) -> Option<int> {
        if fits(data, pos, 14) {
            opt_end::<AcsDataBlock>(data[pos + 5] == 1, data, pos + 14)
        } else {
            None
        }
    }

    open spec fn spec_decodes(&self, data: Seq<u8>, pos: int) -> bool {
        &&& self.overlay_type == data[pos]
        &&& self.replace_enabled == data[pos + 1]
        &&& self.image_info_index == le16(data, pos + 2)
        &&& self.reserved == data[pos + 4]
        &&& self.region_data_flag == data[pos + 5]
        &&& self.x_offset == signed16(le16(data, pos + 6))
        &&& self.y_offset == signed16(le16(data, pos + 8))
        &&& self.width == le16(data, pos + 10)
        &&& self.height == le16(data, pos + 12)
        &&& opt_decodes::<AcsDataBlock>(data[pos + 5] == 1, self.region_data, data, pos + 14)
    }

    fn parse(data: &[u8], pos: usize) -> (r: AcsResult<(Self, usize)>) {
        need(data, pos, 14)?;
        let region_data_flag = data[pos + 5];
        let (region_data, end) = parse_opt::<AcsDataBlock>(region_data_flag == 1, data, pos + 14)?;
        let overlay = AcsOverlayInfo {
            overlay_type: data[pos],
            replace_enabled: data[pos + 1],
            image_info_index: u16_at(data, pos + 2),
            reserved: data[pos + 4],
            region_data_flag,
            x_offset: i16_at(data, pos + 6),
            y_offset: i16_at(data, pos + 8),
            width: u16_at(data, pos + 10),
            height: u16_at(data, pos + 12),
            region_data,
        };
        Ok((overlay, end))
    }
}

/// Where an image record lies, and its checksum.
pub struct AcsImageInfo {
    pub location: AcsLocator,
    pub checksum: u32,
}

impl Parse for AcsImageInfo {
    open spec fn spec_end(data: Seq<u8>, pos: int) -> Option<int> {
        if fits(data, pos, 12) { Some(pos + 12) } else { None }
    }

    open spec fn spec_decodes(&self, data: Seq<u8>, pos: int) -> bool {
        self.location.spec_decodes(data, pos) && self.checksum == le32(data, pos + 8)
    }

    fn parse(data: &[u8], pos: usize) -> (r: AcsResult<(Self, usize)>) {
        need(data, pos, 12)?;
        let (location, _) = AcsLocator::parse(data, pos)?;
        Ok((AcsImageInfo { location, checksum: u32_at(data, pos + 8) }, pos + 12))
    }
}

/// Where a sound lies, and its checksum.
pub struct AcsAudioInfo {
    pub data: AcsLocator,
    pub checksum: u32,
}

impl Parse for AcsAudioInfo {
    open spec fn spec_end(data: Seq<u8>, pos: int) -> Option<int> {
        if fits(data, pos, 12) { Some(pos + 12) } else { None }
    }

    open spec fn spec_decodes(&self, data: Seq<u8>, pos: int) -> bool {
        self.data.spec_decodes(data, pos) && self.checksum == le32(data, pos + 8)
    }

    fn parse(data: &[u8], pos: usize) -> (r: AcsResult<(Self, usize)>) {
        need(data, pos, 12)?;
        let (location, _) = AcsLocator::parse(data, pos)?;
        Ok((AcsAudioInfo { data: location, checksum: u32_at(data, pos + 8) }, pos + 12))
    }
}

/// One colour of the palette.
#[derive(Debug, Clone, Copy, PartialEq, Eq, Structural)]
pub struct PaletteColor {
    pub color: RgbQuad,
}

impl Parse for PaletteColor {
    open spec fn spec_end(data: Seq<u8>, pos: int) -> Option<int> {
        RgbQuad::spec_end(data, pos)
    }

    open spec fn spec_decodes(&self, data: Seq<u8>, pos: int) -> bool {
        self.color.spec_decodes(data, pos)
    }

    fn parse(data: &[u8], pos: usize) -> (r: AcsResult<(Self, usize)>) {
        let (color, end) = RgbQuad::parse(data, pos)?;
        Ok((PaletteColor { color }, end))
    }
}

/// A language identifier.
#[derive(Debug, Clone, Copy, PartialEq, Eq, Structural)]
pub struct AcsLangId {
    pub id: u16,
}

impl Parse for AcsLangId {
    open spec fn spec_end(data: Seq<u8>, pos: int) -> Option<int> {
        if fits(data, pos, 2) { Some(pos + 2) } else { None }
    }

    open spec fn spec_decodes(&self, data: Seq<u8>, pos: int) -> bool {
        self.id == le16(data, pos)
    }

    fn parse(data: &[u8], pos: usize) -> (r: AcsResult<(Self, usize)>) {
        need(data, pos, 2)?;
        Ok((AcsLangId { id: u16_at(data, pos) }, pos + 2))
    }
}

/// An image record: its size, whether its pixels are compressed, the pixel
/// data, and region data whose length is whichever of two size fields is not zero.
pub struct AcsImageInfoEntry {
    pub reserved: u8,
    pub width: u16,
    pub height: u16,
    pub compression_flag: u8,
    pub data: AcsDataBlock,
    pub compressed_regdata_size: u32,
    pub uncompressed_regdata_size: u32,
    pub regdata: Vec<u8>,
}

/// The length of the region data whose two size fields are at `pos`.
pub open spec fn regdata_len(data: Seq<u8>, pos: int) -> int {
    if le32(data, pos) == 0 {
        le32(data, pos + 4)
    } else {
        le32(data, pos)
    }
}

impl Parse for AcsImageInfoEntry {
    open spec fn spec_end(data: Seq<u8>, pos: int) -> Option<int> {
        if fits(data, pos, 6) {
            match AcsDataBlock::spec_end(data, pos + 6) {
                Some(e) => if fits(data, e, 8) && fits(data, e + 8, regdata_len(data, e)) {
                    Some(e + 8 + regdata_len(data, e))
                } else {
                    None
                },
                None => None,
            }
        } else {
            None
        }
    }

    open spec fn spec_decodes(&self, data: Seq<u8>, pos: int) -> bool {
        let e = AcsDataBlock::spec_end(data, pos + 6)->Some_0;
        &&& self.reserved == data[pos]
        &&& self.width == le16(data, pos + 1)
        &&& self.height == le16(data, pos + 3)
        &&& self.compression_flag == data[pos + 5]
        &&& self.data.spec_decodes(data, pos + 6)
        &&& self.compressed_regdata_size == le32(data, e)
        &&& self.uncompressed_regdata_size == le32(data, e + 4)
        &&& self.regdata@ == data.subrange(e + 8, e + 8 + regdata_len(data, e))
    }

    fn parse(data: &[u8], pos: usize) -> (r: AcsResult<(Self, usize)>) {
        need(data, pos, 6)?;
        let (block, e) = AcsDataBlock::parse(data, pos + 6)?;
        need(data, e, 8)?;
        let compressed_regdata_size = u32_at(data, e);
        let uncompressed_regdata_size = u32_at(data, e + 4);
        let count = if compressed_regdata_size == 0 {
            uncompressed_regdata_size
        } else {
            compressed_regdata_size
        } as usize;
        need(data, e + 8, count)?;
        let entry = AcsImageInfoEntry {
            reserved: data[pos],
            width: u16_at(data, pos + 1),
            height: u16_at(data, pos + 3),
            compression_flag: data[pos + 5],
            data: block,
            compressed_regdata_size,
            uncompressed_regdata_size,
            regdata: bytes_at(data, e + 8, count),
        };
        Ok((entry, e + 8 + count))
    }
}

/// Voice details that are present only when flagged.
pub struct AcsVoiceInfoExtraData {
    pub lang_id: AcsLangId,
    pub dialect: AcsString,
    pub gender: u16,
    pub age: u16,
    pub style: AcsString,
}

impl Parse for AcsVoiceInfoExtraData {
    open spec fn spec_end(data: Seq<u8>, pos: int) -> Option<int> {
        if fits(data, pos, 2) {
            match AcsString::spec_end(data, pos + 2) {
                Some(e) => if fits(data, e, 4) {
                    AcsString::spec_end(data, e + 4)
                } else {
                    None
                },
                None => None,
            }
        } else {
            None
        }
    }

    open spec fn spec_decodes(&self, data: Seq<u8>, pos: int) -> bool {
        let e = AcsString::spec_end(data, pos + 2)->Some_0;
        &&& self.lang_id.spec_decodes(data, pos)
        &&& self.dialect.spec_decodes(data, pos + 2)
        &&& self.gender == le16(data, e)
        &&& self.age == le16(data, e + 2)
        &&& self.style.spec_decodes(data, e + 4)
    }

    fn parse(data: &[u8], pos: usize) -> (r: AcsResult<(Self, usize)>) {
        let (lang_id, _) = AcsLangId::parse(data, pos)?;
        let (dialect, e) = AcsString::parse(data, pos + 2)?;
        need(data, e, 4)?;
        let gender = u16_at(data, e);
        let age = u16_at(data, e + 2);
        let (style, end) = AcsString::parse(data, e + 4)?;
        Ok((AcsVoiceInfoExtraData { lang_id, dialect, gender, age, style }, end))
    }
}

/// The character's speech synthesis settings.
pub struct AcsVoiceInfo {
    pub tts_engine_id: AcsGuid,
    pub tts_mode_id: AcsGuid,
    pub speed: u32,
    pub pitch: u16,
    pub extra_data_flag: u8,
    pub extra_data: Option<AcsVoiceInfoExtraData>,
}

impl Parse for AcsVoiceInfo {
    open spec fn spec_end(data: Seq<u8>, pos: int) -> Option<int> {
        if fits(data, pos, 39) {
            opt_end::<AcsVoiceInfoExtraData>(data[pos + 38] == 1, data, pos + 39)
        } else {
            None
        }
    }

    open spec fn spec_decodes(&self, data: Seq<u8>, pos: int) -> bool {
        &&& self.tts_engine_id.spec_decodes(data, pos)
        &&& self.tts_mode_id.spec_decodes(data, pos + 16)
        &&& self.speed == le32(data, pos + 32)
        &&& self.pitch == le16(data, pos + 36)
        &&& self.extra_data_flag == data[pos + 38]
        &&& opt_decodes::<AcsVoiceInfoExtraData>(data[pos + 38] == 1, self.extra_data, data, pos + 39)
    }

    fn parse(data: &[u8], pos: usize) -> (r: AcsResult<(Self, usize)>) {
        need(data, pos, 39)?;
        let (tts_engine_id, _) = AcsGuid::parse(data, pos)?;
        let (tts_mode_id, _) = AcsGuid::parse(data, pos + 16)?;
        let extra_data_flag = data[pos + 38];
        let (extra_data, end) = parse_opt::<AcsVoiceInfoExtraData>(extra_data_flag == 1, data, pos + 39)?;
        let voice = AcsVoiceInfo {
            tts_engine_id,
            tts_mode_id,
            speed: u32_at(data, pos + 32),
            pitch: u16_at(data, pos + 36),
            extra_data_flag,
            extra_data,
        };
        Ok((voice, end))
    }
}

/// How the character's speech balloon looks.
pub struct AcsBalloonInfo {
    pub lines: u8,
    pub chars_per_line: u8,
    pub foreground_color: RgbQuad,
    pub background_color: RgbQuad,
    pub border_color: RgbQuad,
    pub font_name: AcsString,
    pub font_height: i32,
    pub font_wright: i32,
    pub italic: u8,
    pub unused: u8,
}

impl Parse for AcsBalloonInfo {
    open spec fn spec_end(data: Seq<u8>, pos: int) -> Option<int> {
        if fits(data, pos, 14) {
            match AcsString::spec_end(data, pos + 14) {
                Some(e) => if fits(data, e, 10) {
                    Some(e + 10)
                } else {
                    None
                },
                None => None,
            }
        } else {
            None
        }
    }

    open spec fn spec_decodes(&self, data: Seq<u8>, pos: int) -> bool {
        let e = AcsString::spec_end(data, pos + 14)->Some_0;
        &&& self.lines == data[pos]
        &&& self.chars_per_line == data[pos + 1]
        &&& self.foreground_color.spec_decodes(data, pos + 2)
        &&& self.background_color.spec_decodes(data, pos + 6)
        &&& self.border_color.spec_decodes(data, pos + 10)
        &&& self.font_name.spec_decodes(data, pos + 14)
        &&& self.font_height == signed32(le32(data, e))
        &&& self.font_wright == signed32(le32(data, e + 4))
        &&& self.italic == data[e + 8]
        &&& self.unused == data[e + 9]
    }

    fn parse(data: &[u8], pos: usize) -> (r: AcsResult<(Self, usize)>) {
        need(data, pos, 14)?;
        let (foreground_color, _) = RgbQuad::parse(data, pos + 2)?;
        let (background_color, _) = RgbQuad::parse(data, pos + 6)?;
        let (border_color, _) = RgbQuad::parse(data, pos + 10)?;
        let (font_name, e) = AcsString::parse(data, pos + 14)?;
        need(data, e, 10)?;
        let balloon = AcsBalloonInfo {
            lines: data[pos],
            chars_per_line: data[pos + 1],
            foreground_color,
            background_color,
            border_color,
            font_name,
            font_height: i32_at(data, e),
            font_wright: i32_at(data, e + 4),
            italic: data[e + 8],
            unused: data[e + 9],
        };
        Ok((balloon, e + 10))
    }
}

/// A named state of the character and the animations that play in it.
pub struct StateInfo {
    pub name: AcsString,
    pub animations: List16<AcsString>,
}

impl Parse for StateInfo {
    open spec fn spec_end(data: Seq<u8>, pos: int) -> Option<int> {
        match AcsString::spec_end(data, pos) {
            Some(e) => List16::<AcsString>::spec_end(data, e),
            None => None,
        }
    }

    open spec fn spec_decodes(&self, data: Seq<u8>, pos: int) -> bool {
        &&& self.name.spec_decodes(data, pos)
        &&& self.animations.spec_decodes(data, AcsString::spec_end(data, pos)->Some_0)
    }

    fn parse(data: &[u8], pos: usize) -> (r: AcsResult<(Self, usize)>) {
        let (name, e) = AcsString::parse(data, pos)?;
        let (animations, end) = List16::<AcsString>::parse(data, e)?;
        Ok((StateInfo { name, animations }, end))
    }
}

/// The header of a device-independent bitmap.
#[derive(Debug, Clone, Copy, PartialEq, Eq, Structural)]
pub struct BitmapInfoHeader {
    pub size: u32,
    pub width: i32,
    pub height: i32,
    pub planes: u16,
    pub bits_per_pixel: u16,
    pub compression_type: u32,
    pub image_data_size: u32,
    pub horiz_resolution: i32,
    pub vert_resolution: i32,
    pub color_index_count: u32,
    pub important_color_index_count: u32,
}

impl Parse for BitmapInfoHeader {
    open spec fn spec_end(data: Seq<u8>, pos: int) -> Option<int> {
        if fits(data, pos, 40) { Some(pos + 40) } else { None }
    }

    open spec fn spec_decodes(&self, data: Seq<u8>, pos: int) -> bool {
        &&& self.size == le32(data, pos)
        &&& self.width == signed32(le32(data, pos + 4))
        &&& self.height == signed32(le32(data, pos + 8))
        &&& self.planes == le16(data, pos + 12)
        &&& self.bits_per_pixel == le16(data, pos + 14)
        &&& self.compression_type == le32(data, pos + 16)
        &&& self.image_data_size == le32(data, pos + 20)
        &&& self.horiz_resolution == signed32(le32(data, pos + 24))
        &&& self.vert_resolution == signed32(le32(data, pos + 28))
        &&& self.color_index_count == le32(data, pos + 32)
        &&& self.important_color_index_count == le32(data, pos + 36)
    }

    fn parse(data: &[u8], pos: usize) -> (r: AcsResult<(Self, usize)>) {
        need(data, pos, 40)?;
        let header = BitmapInfoHeader {
            size: u32_at(data, pos),
            width: i32_at(data, pos + 4),
            height: i32_at(data, pos + 8),
            planes: u16_at(data, pos + 12),
            bits_per_pixel: u16_at(data, pos + 14),
            compression_type: u32_at(data, pos + 16),
            image_data_size: u32_at(data, pos + 20),
            horiz_resolution: i32_at(data, pos + 24),
            vert_resolution: i32_at(data, pos + 28),
            color_index_count: u32_at(data, pos + 32),
            important_color_index_count: u32_at(data, pos + 36),
        };
        Ok((header, pos + 40))
    }
}

/// An icon bitmap: its header, a colour table and two masks, each with as
/// many entries as the header's colour count.
pub struct IconImage {
    pub header: BitmapInfoHeader,
    pub color_table: Vec<RgbQuad>,
    pub xor_bits: Vec<u8>,
    pub and_bits: Vec<u8>,
}

impl Parse for IconImage {
    open spec fn spec_end(data: Seq<u8>, pos: int) -> Option<int> {
        if fits(data, pos, 40) {
            let n = le32(data, pos + 32);
            match items_end::<RgbQuad>(data, pos + 40, n as nat) {
                Some(e) => if fits(data, e, 2 * n) {
                    Some(e + 2 * n)
                } else {
                    None
                },
                None => None,
            }
        } else {
            None
        }
    }

    open spec fn spec_decodes(&self, data: Seq<u8>, pos: int) -> bool {
        let n = le32(data, pos + 32);
        let e = items_end::<RgbQuad>(data, pos + 40, n as nat)->Some_0;
        &&& self.header.spec_decodes(data, pos)
        &&& self.color_table@.len() == n
        &&& items_decode::<RgbQuad>(data, pos + 40, self.color_table@)
        &&& self.xor_bits@ == data.subrange(e, e + n)
        &&& self.and_bits@ == data.subrange(e + n, e + 2 * n)
    }

    fn parse(data: &[u8], pos: usize) -> (r: AcsResult<(Self, usize)>) {
        let (header, e0) = BitmapInfoHeader::parse(data, pos)?;
        let n = header.color_index_count as usize;
        let (color_table, e) = parse_items::<RgbQuad>(data, e0, n)?;
        need(data, e, n)?;
        need(data, e + n, n)?;
        let xor_bits = bytes_at(data, e, n);
        let and_bits = bytes_at(data, e + n, n);
        Ok((IconImage { header, color_table, xor_bits, and_bits }, e + n + n))
    }
}

/// The character's tray icon, in a monochrome and a colour version.
pub struct TrayIcon {
    pub mono_size: u32,
    pub mono: IconImage,
    pub color_size: u32,
    pub color: IconImage,
}

impl Parse for TrayIcon {
    open spec fn spec_end(data: Seq<u8>, pos: int) -> Option<int> {
        if fits(data, pos, 4) {
            match IconImage::spec_end(data, pos + 4) {
                Some(e) => if fits(data, e, 4) {
                    IconImage::spec_end(data, e + 4)
                } else {
                    None
                },
                None => None,
            }
        } else {
            None
        }
    }

    open spec fn spec_decodes(&self, data: Seq<u8>, pos: int) -> bool {
        let e = IconImage::spec_end(data, pos + 4)->Some_0;
        &&& self.mono_size == le32(data, pos)
        &&& self.mono.spec_decodes(data, pos + 4)
        &&& self.color_size == le32(data, e)
        &&& self.color.spec_decodes(data, e + 4)
    }

    fn parse(data: &[u8], pos: usize) -> (r: AcsResult<(Self, usize)>) {
        need(data, pos, 4)?;
        let mono_size = u32_at(data, pos);
        let (mono, e) = IconImage::parse(data, pos + 4)?;
        need(data, e, 4)?;
        let color_size = u32_at(data, e);
        let (color, end) = IconImage::parse(data, e + 4)?;
        Ok((TrayIcon { mono_size, mono, color_size, color }, end))
    }
}

/// The character's flag word. Bits without a name are kept as they are.
#[derive(Debug, Clone, Copy, PartialEq, Eq, Structural)]
pub struct AcsCharacterInfoFlags(pub u32);

impl AcsCharacterInfoFlags {
    pub const VOICE_OUTPUT_ENABLED: u32 = 0x10;
    pub const WORD_BALLOON_ENABLED: u32 = 0x100;
    pub const WORD_BALLOON_DISABLED: u32 = 0x200;
    pub const SIZE_TO_TEXT_ENABLED: u32 = 0x1_0000;
    pub const AUTO_HIDE_DISABLED: u32 = 0x2_0000;
    pub const AUTO_PACE_DISABLED: u32 = 0x4_0000;
    pub const STANDARD_ANIMATION_SET_SUPPORTED: u32 = 0x10_0000;

    /// All bits of `mask` are set.
    pub open spec fn spec_contains(self, mask: u32) -> bool {
        self.0 & mask == mask
    }

    /// The raw flag word.
    pub fn bits(self) -> (r: u32)
        ensures
            r == self.0,
    {
        self.0
    }

    /// Whether all bits of `mask` are set.
    pub fn contains(self, mask: u32) -> (r: bool)
        ensures
            r == self.spec_contains(mask),
    {
        self.0 & mask == mask
    }
}

impl Parse for AcsCharacterInfoFlags {
    open spec fn spec_end(data: Seq<u8>, pos: int) -> Option<int> {
        if fits(data, pos, 4) { Some(pos + 4) } else { None }
    }

    /// The flag word is stored big-endian.
    open spec fn spec_decodes(&self, data: Seq<u8>, pos: int) -> bool {
        self.0 == be32(data, pos)
    }

    fn parse(data: &[u8], pos: usize) -> (r: AcsResult<(Self, usize)>) {
        need(data, pos, 4)?;
        Ok((AcsCharacterInfoFlags(be_u32_at(data, pos)), pos + 4))
    }
}

/// Whether the optional records that follow the fixed part of the character
/// information, whose flag word is `f`, are present.
pub open spec fn has_voice(f: AcsCharacterInfoFlags) -> bool {
    f.spec_contains(AcsCharacterInfoFlags::VOICE_OUTPUT_ENABLED)
}

pub open spec fn has_balloon(f: AcsCharacterInfoFlags) -> bool {
    !f.spec_contains(AcsCharacterInfoFlags::WORD_BALLOON_DISABLED)
}

/// The character's description: versions, size, transparent colour, flags,
/// optional voice and balloon settings, palette, optional tray icon and states.
pub struct AcsCharacterInfo {
    pub minor_version: u16,
    pub major_version: u16,
    pub localized_info: AcsLocator,
    pub guid: AcsGuid,
    pub char_width: u16,
    pub char_height: u16,
    pub transparent_color_index: u8,
    pub flags: AcsCharacterInfoFlags,
    pub animation_set_major_version: u16,
    pub animation_set_minor_version: u16,
    pub voice_info: Option<AcsVoiceInfo>,
    pub balloon_info: Option<AcsBalloonInfo>,
    pub palette_colors: List32<PaletteColor>,
    pub tray_icon_flag: u8,
    pub tray_icon: Option<TrayIcon>,
    pub states: List16<StateInfo>,
}

/// The flag word of the character information at `pos`.
pub open spec fn flags_at(data: Seq<u8>, pos: int) -> AcsCharacterInfoFlags {
    AcsCharacterInfoFlags(be32(data, pos + 33) as u32)
}

/// Where the voice settings of the character information at `pos` end.
pub open spec fn voice_end(data: Seq<u8>, pos: int) -> Option<int> {
    opt_end::<AcsVoiceInfo>(has_voice(flags_at(data, pos)), data, pos + 41)
}

/// Where the balloon settings of the character information at `pos` end.
pub open spec fn balloon_end(data: Seq<u8>, pos: int) -> Option<int> {
    match voice_end(data, pos) {
        Some(e) => opt_end::<AcsBalloonInfo>(has_balloon(flags_at(data, pos)), data, e),
        None => None,
    }
}

/// Where the palette of the character information at `pos` ends.
pub open spec fn palette_end(data: Seq<u8>, pos: int) -> Option<int> {
    match balloon_end(data, pos) {
        Some(e) => List32::<PaletteColor>::spec_end(data, e),
        None => None,
    }
}

/// Where the tray icon of the character information at `pos` ends.
pub open spec fn tray_end(data: Seq<u8>, pos: int) -> Option<int> {
    match palette_end(data, pos) {
        Some(e) => if fits(data, e, 1) {
            opt_end::<TrayIcon>(data[e] == 1, data, e + 1)
        } else {
            None
        },
        None => None,
    }
}

impl Parse for AcsCharacterInfo {
    open spec fn spec_end(data: Seq<u8>, pos: int) -> Option<int> {
        if fits(data, pos, 41) {
            match tray_end(data, pos) {
                Some(e) => List16::<StateInfo>::spec_end(data, e),
                None => None,
            }
        } else {
            None
        }
    }

    open spec fn spec_decodes(&self, data: Seq<u8>, pos: int) -> bool {
        let e1 = voice_end(data, pos)->Some_0;
        let e2 = balloon_end(data, pos)->Some_0;
        let e3 = palette_end(data, pos)->Some_0;
        let e4 = tray_end(data, pos)->Some_0;
        &&& self.minor_version == le16(data, pos)
        &&& self.major_version == le16(data, pos + 2)
        &&& self.localized_info.spec_decodes(data, pos + 4)
        &&& self.guid.spec_decodes(data, pos + 12)
        &&& self.char_width == le16(data, pos + 28)
        &&& self.char_height == le16(data, pos + 30)
        &&& self.transparent_color_index == data[pos + 32]
        &&& self.flags == flags_at(data, pos)
        &&& self.animation_set_major_version == le16(data, pos + 37)
        &&& self.animation_set_minor_version == le16(data, pos + 39)
        &&& opt_decodes::<AcsVoiceInfo>(has_voice(self.flags), self.voice_info, data, pos + 41)
        &&& opt_decodes::<AcsBalloonInfo>(has_balloon(self.flags), self.balloon_info, data, e1)
        &&& self.palette_colors.spec_decodes(data, e2)
        &&& self.tray_icon_flag == data[e3]
        &&& opt_decodes::<TrayIcon>(data[e3] == 1, self.tray_icon, data, e3 + 1)
        &&& self.states.spec_decodes(data, e4)
    }

    fn parse(data: &[u8], pos: usize) -> (r: AcsResult<(Self, usize)>) {
        need(data, pos, 41)?;
        let (localized_info, _) = AcsLocator::parse(data, pos + 4)?;
        let (guid, _) = AcsGuid::parse(data, pos + 12)?;
        let (flags, _) = AcsCharacterInfoFlags::parse(data, pos + 33)?;
        let voice_present = flags.contains(AcsCharacterInfoFlags::VOICE_OUTPUT_ENABLED);
        let (voice_info, e1) = parse_opt::<AcsVoiceInfo>(voice_present, data, pos + 41)?;
        let balloon_present = !flags.contains(AcsCharacterInfoFlags::WORD_BALLOON_DISABLED);
        let (balloon_info, e2) = parse_opt::<AcsBalloonInfo>(balloon_present, data, e1)?;
        let (palette_colors, e3) = List32::<PaletteColor>::parse(data, e2)?;
        need(data, e3, 1)?;
        let tray_icon_flag = data[e3];
        let (tray_icon, e4) = parse_opt::<TrayIcon>(tray_icon_flag == 1, data, e3 + 1)?;
        let (states, end) = List16::<StateInfo>::parse(data, e4)?;
        let info = AcsCharacterInfo {
            minor_version: u16_at(data, pos),
            major_version: u16_at(data, pos + 2),
            localized_info,
            guid,
            char_width: u16_at(data, pos + 28),
            char_height: u16_at(data, pos + 30),
            transparent_color_index: data[pos + 32],
            flags,
            animation_set_major_version: u16_at(data, pos + 37),
            animation_set_minor_version: u16_at(data, pos + 39),
            voice_info,
            balloon_info,
            palette_colors,
            tray_icon_flag,
            tray_icon,
            states,
        };
        Ok((info, end))
    }
}

/// An animation's name and where its record lies.
pub struct AcsAnimationInfo {
    pub name: AcsString,
    pub entry: AcsLocator,
}

impl Parse for AcsAnimationInfo {
    open spec fn spec_end(data: Seq<u8>, pos: int) -> Option<int> {
        match AcsString::spec_end(data, pos) {
            Some(e) => AcsLocator::spec_end(data, e),
            None => None,
        }
    }

    open spec fn spec_decodes(&self, data: Seq<u8>, pos: int) -> bool {
        &&& self.name.spec_decodes(data, pos)
        &&& self.entry.spec_decodes(data, AcsString::spec_end(data, pos)->Some_0)
    }

    fn parse(data: &[u8], pos: usize) -> (r: AcsResult<(Self, usize)>) {
        let (name, e) = AcsString::parse(data, pos)?;
        let (entry, end) = AcsLocator::parse(data, e)?;
        Ok((AcsAnimationInfo { name, entry }, end))
    }
}

/// An animation: its name, how it ends, the animation that follows it and its frames.
pub struct AcsAnimationInfoEntry {
    pub name: AcsString,
    pub transition_type: u8,
    pub return_animation: AcsString,
    pub frame_info: List16<AcsFrameInfo>,
}

impl Parse for AcsAnimationInfoEntry {
    open spec fn spec_end(data: Seq<u8>, pos: int) -> Option<int> {
        match AcsString::spec_end(data, pos) {
            Some(e1) => if fits(data, e1, 1) {
                match AcsString::spec_end(data, e1 + 1) {
                    Some(e2) => List16::<AcsFrameInfo>::spec_end(data, e2),
                    None => None,
                }
            } else {
                None
            },
            None => None,
        }
    }

    open spec fn spec_decodes(&self, data: Seq<u8>, pos: int) -> bool {
        let e1 = AcsString::spec_end(data, pos)->Some_0;
        let e2 = AcsString::spec_end(data, e1 + 1)->Some_0;
        &&& self.name.spec_decodes(data, pos)
        &&& self.transition_type == data[e1]
        &&& self.return_animation.spec_decodes(data, e1 + 1)
        &&& self.frame_info.spec_decodes(data, e2)
    }

    fn parse(data: &[u8], pos: usize) -> (r: AcsResult<(Self, usize)>) {
        let (name, e1) = AcsString::parse(data, pos)?;
        need(data, e1, 1)?;
        let transition_type = data[e1];
        let (return_animation, e2) = AcsString::parse(data, e1 + 1)?;
        let (frame_info, end) = List16::<AcsFrameInfo>::parse(data, e2)?;
        Ok((AcsAnimationInfoEntry { name, transition_type, return_animation, frame_info }, end))
    }
}

/// A frame: its images, its sound (`0xFFFF` for none), its duration in
/// hundredths of a second, branches and mouth overlays.
pub struct AcsFrameInfo {
    pub images: List16<AcsFrameImage>,
    pub audio_info_index: u16,
    pub frame_duration: u16,
    pub exit_frame_index: i16,
    pub branches: List8<BranchInfo>,
    pub mouth_overlays: List8<AcsOverlayInfo>,
}

impl Parse for AcsFrameInfo {
    open spec fn spec_end(data: Seq<u8>, pos: int) -> Option<int> {
        match List16::<AcsFrameImage>::spec_end(data, pos) {
            Some(e1) => if fits(data, e1, 6) {
                match List8::<BranchInfo>::spec_end(data, e1 + 6) {
                    Some(e2) => List8::<AcsOverlayInfo>::spec_end(data, e2),
                    None => None,
                }
            } else {
                None
            },
            None => None,
        }
    }

    open spec fn spec_decodes(&self, data: Seq<u8>, pos: int) -> bool {
        let e1 = List16::<AcsFrameImage>::spec_end(data, pos)->Some_0;
        let e2 = List8::<BranchInfo>::spec_end(data, e1 + 6)->Some_0;
        &&& self.images.spec_decodes(data, pos)
        &&& self.audio_info_index == le16(data, e1)
        &&& self.frame_duration == le16(data, e1 + 2)
        &&& self.exit_frame_index == signed16(le16(data, e1 + 4))
        &&& self.branches.spec_decodes(data, e1 + 6)
        &&& self.mouth_overlays.spec_decodes(data, e2)
    }

    fn parse(data: &[u8], pos: usize) -> (r: AcsResult<(Self, usize)>) {
        let (images, e1) = List16::<AcsFrameImage>::parse(data, pos)?;
        need(data, e1, 6)?;
        let audio_info_index = u16_at(data, e1);
        let frame_duration = u16_at(data, e1 + 2);
        let exit_frame_index = i16_at(data, e1 + 4);
        let (branches, e2) = List8::<BranchInfo>::parse(data, e1 + 6)?;
        let (mouth_overlays, end) = List8::<AcsOverlayInfo>::parse(data, e2)?;
        let frame = AcsFrameInfo { images, audio_info_index, frame_duration, exit_frame_index, branches, mouth_overlays };
        Ok((frame, end))
    }
}

/// The number that every character file starts with.
pub const ACS_MAGIC: u32 = 0xABCD_ABC3;

/// The file header: where the character information and the lists of
/// animations, images and sounds lie.
pub struct AcsHeader {
    pub character_info: AcsLocator,
    pub animation_info: AcsLocator,
    pub image_info: AcsLocator,
    pub audio_info: AcsLocator,
}

impl AcsHeader {
    /// `self` is the header at the start of `data`.
    pub open spec fn spec_decodes(&self, data: Seq<u8>) -> bool {
        &&& self.character_info.spec_decodes(data, 4)
        &&& self.animation_info.spec_decodes(data, 12)
        &&& self.image_info.spec_decodes(data, 20)
        &&& self.audio_info.spec_decodes(data, 28)
    }

    /// Reads the header at the start of `data`, after its magic number.
    pub fn parse(data: &[u8]) -> (r: AcsResult<AcsHeader>)
        ensures
            !fits(data@, 0, 4) ==> r == Err::<AcsHeader, AcsError>(AcsError::Truncated),
            fits(data@, 0, 4) && le32(data@, 0) != ACS_MAGIC ==> r == Err::<AcsHeader, AcsError>(AcsError::BadMagic),
            fits(data@, 0, 4) && le32(data@, 0) == ACS_MAGIC && !fits(data@, 0, 36) ==> r == Err::<
                AcsHeader,
                AcsError,
            >(AcsError::Truncated),
            fits(data@, 0, 36) && le32(data@, 0) == ACS_MAGIC ==> r is Ok && r->Ok_0.spec_decodes(data@),
    {
        need(data, 0, 4)?;
        if u32_at(data, 0) != ACS_MAGIC {
            return Err(AcsError::BadMagic);
        }
        let (character_info, _) = AcsLocator::parse(data, 4)?;
        let (animation_info, _) = AcsLocator::parse(data, 12)?;
        let (image_info, _) = AcsLocator::parse(data, 20)?;
        let (audio_info, _) = AcsLocator::parse(data, 28)?;
        Ok(AcsHeader { character_info, animation_info, image_info, audio_info })
    }
}

impl AcsLocator {
    /// Reads the value of type `T` that lies at this locator's offset.
    pub fn get<T: Parse>(&self, data: &[u8]) -> (r: AcsResult<T>)
        ensures
            match r {
                Ok(v) => T::spec_end(data@, self.offset as int) is Some && v.spec_decodes(data@, self.offset as int),
                Err(e) => T::spec_end(data@, self.offset as int) is None && e == AcsError::Truncated,
            },
    {
        let (v, _) = T::parse(data, self.offset as usize)?;
        Ok(v)
    }

    /// Appends the bytes that this locator covers to `target`; fails with
    /// `Truncated`, leaving `target` as it was, when the range runs past the
    /// end of `data`.
    pub fn read_bytes(&self, data: &[u8], target: &mut Vec<u8>) -> (r: AcsResult<()>)
        ensures
            r is Err <==> self.offset + self.size > data@.len(),
            r is Err ==> r == Err::<(), AcsError>(AcsError::Truncated) && final(target)@ == old(target)@,
            r is Ok ==> final(target)@ == old(target)@ + data@.subrange(
                self.offset as int,
                self.offset + self.size,
            ),
    {
        let start = self.offset as usize;
        let size = self.size as usize;
        need(data, start, size)?;
        let stop = start + size;
        let mut i = start;
        while i < stop
            invariant
                start <= i <= stop <= data@.len(),
                stop == self.offset + self.size,
                start == self.offset,
                target@ == old(target)@ + data@.subrange(start as int, i as int),
            decreases stop - i,
        {
            target.push(data[i]);
            i = i + 1;
            assert(target@ =~= old(target)@ + data@.subrange(start as int, i as int));
        }
        Ok(())
    }
}

} // verus!
