//! The parameter block: everything the evaluator of the picture is told,
//! in one record of 128 bytes with a fixed order of fields.
//!
//! The block is made of 32 words of four bytes. Numbers with a fraction are
//! held as single-precision bit patterns, counts and codes as they are.
//!
//! | words  | field                                              |
//! |--------|----------------------------------------------------|
//! | 0, 1   | `pos`: the camera's position                       |
//! | 2      | `zoom`                                             |
//! | 3      | `_p0`: four bytes of padding                       |
//! | 4, 5   | `resolution`: width and height of the viewport     |
//! | 6, 7   | `offset`: the viewport's corner on the screen      |
//! | 8      | `max_iter`                                         |
//! | 9      | `exponent`                                         |
//! | 10     | `fractal_type`: the code of the formula            |
//! | 11     | `shading_type`: the code of the shading            |
//! | 12..28 | `color_scheme`: `a`, `b`, `c`, `d`, four words each |
//! | 28     | `palette_speed`                                    |
//! | 29     | `flags`: bit 0 Julia, bit 1 perturbation           |
//! | 30, 31 | `julia_pos`: the Julia seed                        |

use crate::camera::CameraInfo;
use crate::fixed::Fixed;
use crate::fractal::FractalSettings;
use crate::fractal::ShadingSettings;
use crate::palette::ColorScheme;
use crate::palette::PaletteSettings;
use crate::single::lemma_single_bits_fit;
use crate::single::single_bits;
use crate::vector2::Vector2;
use vstd::prelude::*;
use vstd::std_specs::convert::FromSpecImpl;

verus! {

/// How many words the block has.
pub const BLOCK_WORDS: usize = 32;

/// How many bytes the block has.
pub const BLOCK_BYTES: usize = 128;

/// The byte at which the padding starts.
pub const PADDING_AT: usize = 12;

/// A palette as the block holds it: each triple widened to four words, the
/// fourth of them zero.
#[derive(Debug, Copy, Clone, PartialEq, Eq)]
pub struct ColorSchemeCallback {
    pub a: [u32; 4],
    pub b: [u32; 4],
    pub c: [u32; 4],
    pub d: [u32; 4],
}

/// The parameter block.
#[derive(Debug, Copy, Clone)]
pub struct RenderCallback {
    pub pos: [u32; 2],
    pub zoom: u32,
    pub _p0: [u8; 4],
    pub resolution: [u32; 2],
    pub offset: [u32; 2],
    pub max_iter: i32,
    pub exponent: u32,
    pub fractal_type: u32,
    pub shading_type: u32,
    pub color_scheme: ColorSchemeCallback,
    pub palette_speed: u32,
    pub flags: u32,
    pub julia_pos: [u32; 2],
}

/// A triple of numbers as four words: their bit patterns, then zero. A
/// bit pattern is a word of 32 bits
/// ([`lemma_single_bits_fit`](crate::single::lemma_single_bits_fit)), so
/// nothing of it is lost here.
pub open spec fn extended(arr: [Fixed; 3]) -> Seq<u32> {
    seq![
        single_bits(arr[0]@) as u32,
        single_bits(arr[1]@) as u32,
        single_bits(arr[2]@) as u32,
        0u32,
    ]
}

/// A pair of numbers as two words.
pub open spec fn pair_words(v: Vector2<Fixed>) -> Seq<u32> {
    seq![single_bits(v.x@) as u32, single_bits(v.y@) as u32]
}

/// The words of a triple and of a pair are the bit patterns of their
/// numbers, whole.
pub proof fn lemma_words_are_bit_patterns(arr: [Fixed; 3], v: Vector2<Fixed>)
    ensures
        extended(arr)[0] == single_bits(arr[0]@),
        extended(arr)[1] == single_bits(arr[1]@),
        extended(arr)[2] == single_bits(arr[2]@),
        extended(arr)[3] == 0,
        pair_words(v)[0] == single_bits(v.x@),
        pair_words(v)[1] == single_bits(v.y@),
{
    lemma_single_bits_fit(arr[0]@);
    lemma_single_bits_fit(arr[1]@);
    lemma_single_bits_fit(arr[2]@);
    lemma_single_bits_fit(v.x@);
    lemma_single_bits_fit(v.y@);
}

/// The two switches as one word: one for Julia, two for perturbation.
pub open spec fn packed_flags(julia: bool, perturbation: bool) -> u32 {
    ((if julia {
        1int
    } else {
        0int
    }) + (if perturbation {
        2int
    } else {
        0int
    })) as u32
}

/// A signed count as the word with the same 32 bits.
pub open spec fn signed_as_word(v: i32) -> u32 {
    if v >= 0 {
        v as u32
    } else {
        (v + 0x1_0000_0000) as u32
    }
}

/// Byte `j` of a word, counted from its low end.
pub open spec fn word_byte(w: u32, j: int) -> u8 {
    if j == 0 {
        (w % 0x100) as u8
    } else if j == 1 {
        ((w / 0x100) % 0x100) as u8
    } else if j == 2 {
        ((w / 0x1_0000) % 0x100) as u8
    } else {
        ((w / 0x100_0000) % 0x100) as u8
    }
}

/// The bytes of a run of words, each word with its low byte first.
pub open spec fn little_endian(words: Seq<u32>) -> Seq<u8> {
    Seq::new(4 * words.len(), |i: int| word_byte(words[i / 4], i % 4))
}

/// The bytes of a run of words, each word with its high byte first.
pub open spec fn big_endian(words: Seq<u32>) -> Seq<u8> {
    Seq::new(4 * words.len(), |i: int| word_byte(words[i / 4], 3 - i % 4))
}

/// A triple of numbers as four words: their bit patterns, then zero.
pub fn extend(arr: [Fixed; 3]) -> (r: [u32; 4])
    ensures
        r@ == extended(arr),
{
    let r = [arr[0].to_single_bits(), arr[1].to_single_bits(), arr[2].to_single_bits(), 0];
    assert(r@ =~= extended(arr));
    r
}

fn pair(v: Vector2<Fixed>) -> (r: [u32; 2])
    ensures
        r@ == pair_words(v),
{
    let r = [v.x.to_single_bits(), v.y.to_single_bits()];
    assert(r@ =~= pair_words(v));
    r
}

/// The two switches as one word.
pub fn pack_flags(julia: bool, perturbation: bool) -> (flags: u32)
    ensures
        flags == packed_flags(julia, perturbation),
{
    let low: u32 = if julia {
        1
    } else {
        0
    };
    let high: u32 = if perturbation {
        2
    } else {
        0
    };
    low + high
}

/// The two switches out of their word: Julia first. Bits above the second
/// are not looked at.
pub fn unpack_flags(flags: u32) -> (r: (bool, bool))
    ensures
        r.0 == (flags % 2 == 1),
        r.1 == ((flags / 2) % 2 == 1),
{
    (flags % 2 == 1, (flags / 2) % 2 == 1)
}

/// The switches that were packed are the switches that come out.
pub proof fn lemma_flags_round_trip(julia: bool, perturbation: bool)
    ensures
        packed_flags(julia, perturbation) % 2 == 1 <==> julia,
        (packed_flags(julia, perturbation) / 2) % 2 == 1 <==> perturbation,
{
}

/// A signed count as the word with the same 32 bits.
pub fn signed_word(v: i32) -> (w: u32)
    ensures
        w == signed_as_word(v),
{
    if v >= 0 {
        v as u32
    } else {
        (v as i64 + 0x1_0000_0000) as u32
    }
}

/// A palette as the block holds it.
pub open spec fn scheme_words(value: ColorScheme) -> ColorSchemeCallback {
    ColorSchemeCallback {
        a: [
            single_bits(value.a[0]@) as u32,
            single_bits(value.a[1]@) as u32,
            single_bits(value.a[2]@) as u32,
            0u32,
        ],
        b: [
            single_bits(value.b[0]@) as u32,
            single_bits(value.b[1]@) as u32,
            single_bits(value.b[2]@) as u32,
            0u32,
        ],
        c: [
            single_bits(value.c[0]@) as u32,
            single_bits(value.c[1]@) as u32,
            single_bits(value.c[2]@) as u32,
            0u32,
        ],
        d: [
            single_bits(value.d[0]@) as u32,
            single_bits(value.d[1]@) as u32,
            single_bits(value.d[2]@) as u32,
            0u32,
        ],
    }
}

impl FromSpecImpl<ColorScheme> for ColorSchemeCallback {
    open spec fn obeys_from_spec() -> bool {
        true
    }

    open spec fn from_spec(value: ColorScheme) -> ColorSchemeCallback {
        scheme_words(value)
    }
}

impl From<ColorScheme> for ColorSchemeCallback {
    /// The palette as the block holds it.
    fn from(value: ColorScheme) -> (r: ColorSchemeCallback)
        ensures
            r.a@ == extended(value.a),
            r.b@ == extended(value.b),
            r.c@ == extended(value.c),
            r.d@ == extended(value.d),
    {
        let a = extend(value.a);
        let b = extend(value.b);
        let c = extend(value.c);
        let d = extend(value.d);
        let r = ColorSchemeCallback { a, b, c, d };
        proof {
            let want = scheme_words(value);
            assert(r.a =~= want.a);
            assert(r.b =~= want.b);
            assert(r.c =~= want.c);
            assert(r.d =~= want.d);
        }
        r
    }
}

/// Whether a block is the one that the given state asks for.
pub open spec fn assembled(
    block: RenderCallback,
    camera: CameraInfo,
    fractal: FractalSettings,
    shading: ShadingSettings,
    palette: PaletteSettings,
    resolution: Vector2<Fixed>,
    offset: Vector2<Fixed>,
) -> bool {
    &&& block.pos@ == pair_words(camera.pos)
    &&& block.zoom == single_bits(camera.zoom@)
    &&& block._p0@ == seq![0u8, 0u8, 0u8, 0u8]
    &&& block.resolution@ == pair_words(resolution)
    &&& block.offset@ == pair_words(offset)
    &&& block.max_iter == fractal.max_iterations
    &&& block.exponent == single_bits(fractal.exponent@)
    &&& block.fractal_type == fractal.variant.spec_code()
    &&& block.shading_type == shading.mode.spec_code()
    &&& block.color_scheme.a@ == extended(palette.scheme.a)
    &&& block.color_scheme.b@ == extended(palette.scheme.b)
    &&& block.color_scheme.c@ == extended(palette.scheme.c)
    &&& block.color_scheme.d@ == extended(palette.scheme.d)
    &&& block.palette_speed == single_bits(palette.speed@)
    &&& block.flags == packed_flags(fractal.julia_enabled, fractal.perturbation_enabled)
    &&& block.julia_pos@ == pair_words(fractal.julia_seed)
}

/// Puts the block together from the state of one frame.
pub fn assemble(
    camera: &CameraInfo,
    fractal: &FractalSettings,
    shading: &ShadingSettings,
    palette: &PaletteSettings,
    resolution: Vector2<Fixed>,
    offset: Vector2<Fixed>,
) -> (block: RenderCallback)
    ensures
        assembled(block, *camera, *fractal, *shading, *palette, resolution, offset),
{
    let padding: [u8; 4] = [0, 0, 0, 0];
    assert(padding@ =~= seq![0u8, 0u8, 0u8, 0u8]);
    RenderCallback {
        pos: pair(camera.pos),
        zoom: camera.zoom.to_single_bits(),
        _p0: padding,
        resolution: pair(resolution),
        offset: pair(offset),
        max_iter: fractal.max_iterations,
        exponent: fractal.exponent.to_single_bits(),
        fractal_type: fractal.variant.code(),
        shading_type: shading.mode.code(),
        color_scheme: ColorSchemeCallback {
            a: extend(palette.scheme.a),
            b: extend(palette.scheme.b),
            c: extend(palette.scheme.c),
            d: extend(palette.scheme.d),
        },
        palette_speed: palette.speed.to_single_bits(),
        flags: pack_flags(fractal.julia_enabled, fractal.perturbation_enabled),
        julia_pos: pair(fractal.julia_seed),
    }
}

/// Calls `bytemuck::bytes_of` on an array of words and copies what it hands
/// back. That function gives the memory of its argument as bytes: here the
/// words in their order, each in the byte order of the machine, which is the
/// little-endian or the big-endian one.
#[verifier::external_body]
fn native_bytes(words: &[u32; 32]) -> (bytes: Vec<u8>)
    ensures
        bytes@ == little_endian(words@) || bytes@ == big_endian(words@),
{
    bytemuck::bytes_of(words).to_vec()
}

impl RenderCallback {
    /// The block as its 32 words, the padding as zero.
    pub open spec fn words_of(self) -> Seq<u32> {
        seq![
            self.pos[0],
            self.pos[1],
            self.zoom,
            0u32,
            self.resolution[0],
            self.resolution[1],
            self.offset[0],
            self.offset[1],
            signed_as_word(self.max_iter),
            self.exponent,
            self.fractal_type,
            self.shading_type,
            self.color_scheme.a[0],
            self.color_scheme.a[1],
            self.color_scheme.a[2],
            self.color_scheme.a[3],
            self.color_scheme.b[0],
            self.color_scheme.b[1],
            self.color_scheme.b[2],
            self.color_scheme.b[3],
            self.color_scheme.c[0],
            self.color_scheme.c[1],
            self.color_scheme.c[2],
            self.color_scheme.c[3],
            self.color_scheme.d[0],
            self.color_scheme.d[1],
            self.color_scheme.d[2],
            self.color_scheme.d[3],
            self.palette_speed,
            self.flags,
            self.julia_pos[0],
            self.julia_pos[1],
        ]
    }

    /// The bytes of the block for one byte order of the words: the bytes of
    /// the words, with the four padding bytes in their place.
    pub open spec fn bytes_of(self, word_bytes: Seq<u8>) -> Seq<u8> {
        word_bytes.update(12, self._p0[0]).update(13, self._p0[1]).update(14, self._p0[2]).update(
            15,
            self._p0[3],
        )
    }

    /// The block as its 32 words, the padding as zero.
    pub fn words(&self) -> (w: [u32; 32])
        ensures
            w@ == self.words_of(),
    {
        let w = [
            self.pos[0],
            self.pos[1],
            self.zoom,
            0,
            self.resolution[0],
            self.resolution[1],
            self.offset[0],
            self.offset[1],
            signed_word(self.max_iter),
            self.exponent,
            self.fractal_type,
            self.shading_type,
            self.color_scheme.a[0],
            self.color_scheme.a[1],
            self.color_scheme.a[2],
            self.color_scheme.a[3],
            self.color_scheme.b[0],
            self.color_scheme.b[1],
            self.color_scheme.b[2],
            self.color_scheme.b[3],
            self.color_scheme.c[0],
            self.color_scheme.c[1],
            self.color_scheme.c[2],
            self.color_scheme.c[3],
            self.color_scheme.d[0],
            self.color_scheme.d[1],
            self.color_scheme.d[2],
            self.color_scheme.d[3],
            self.palette_speed,
            self.flags,
            self.julia_pos[0],
            self.julia_pos[1],
        ];
        assert(w@ =~= self.words_of());
        w
    }

    /// The 128 bytes of the block as the evaluator reads them: the fields in
    /// their order, each word in the byte order of the machine.
    pub fn to_bytes(&self) -> (bytes: Vec<u8>)
        ensures
            bytes@.len() == BLOCK_BYTES,
            bytes@ == self.bytes_of(little_endian(self.words_of())) || bytes@ == self.bytes_of(
                big_endian(self.words_of()),
            ),
    {
        let words = self.words();
        let mut bytes = native_bytes(&words);
        let ghost plain = bytes@;
        bytes.set(PADDING_AT, self._p0[0]);
        bytes.set(PADDING_AT + 1, self._p0[1]);
        bytes.set(PADDING_AT + 2, self._p0[2]);
        bytes.set(PADDING_AT + 3, self._p0[3]);
        assert(bytes@ == self.bytes_of(plain));
        bytes
    }
}

} // verus!
