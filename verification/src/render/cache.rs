//! Immutable render cache entries and their manifests.
use crate::digest::{
    hex_lower, is_lower_hex_char, lemma_hex_lower, lemma_le_bytes_injective, lemma_le_bytes_len, le_bytes, push_hex, push_le,
    sha256, sha256_digest,
};
use crate::path::{has_parent_dir, has_parent_dir_of, is_absolute, join, join_path, path_eq, path_starts_with, path_starts_with_of, paths_equal};
use crate::text::{
    char_is_ascii_alnum, chars_of, decimal, extend_chars, is_ascii_alnum, push_decimal,
    push_zero_padded, string_of, utf8_len, zero_padded,
};
use vstd::prelude::*;
use vstd::utf8::encode_utf8;

verus! {

broadcast use vstd::string::group_string_axioms;

/// Version written into every manifest.
pub const MANIFEST_VERSION: u32 = 1;

/// Domain separator at the start of every cache key's hashed material.
pub const KEY_TAG: &'static str = "slide-builder-render-key-v1\u{0}";

/// Domain separator when a key is bound to a renderer installation.
pub const RENDERER_TAG: &'static str = "slide-builder-render-renderer-v1\u{0}";

/// Identity of one rendering of one deck version.
#[derive(Clone, Debug, PartialEq, Eq)]
pub struct CacheKey {
    pub digest: String,
    pub renderer_version: String,
    pub handler_revision: String,
    pub width: u32,
    pub height: u32,
    /// Decimal scale, kept for diagnostics; the digest covers its IEEE bits.
    pub scale: String,
}

/// Why a cache key or manifest was refused.
#[derive(Clone, Copy, Debug, PartialEq, Eq, Structural)]
pub enum CacheError {
    /// Zero width or height, or a scale that is not finite and positive.
    InvalidGeometry,
    /// The manifest version is not `MANIFEST_VERSION`.
    UnsupportedVersion(u32),
    /// The cache digest is not 64 lower-case hex digits.
    InvalidDigest,
    /// Slide indices are not 1, 2, 3, ... in order.
    NonContiguousSlides,
    /// A slide's file name is not `slide-NNNN.png` for its index.
    InvalidSlideFile(u32),
    /// A slide has a zero dimension or a checksum that is not 64 lower-case hex digits.
    InvalidSlideMetadata(u32),
    /// The cache root is not an absolute path.
    RelativeRoot,
    /// At least one generation must be kept.
    NoGenerationsKept,
    /// The system clock reads before the Unix epoch.
    ClockBeforeEpoch,
    /// A slide named in the manifest is not a file in the entry directory.
    MissingSlide(u32),
    /// A slide's file does not have the checksum the manifest records.
    ChecksumMismatch(u32),
    /// A cache path is not strictly inside the cache root.
    OutsideRoot,
    /// A cache path has a `..` component.
    Traversal,
}

/// An `f32` given by its bits is finite and greater than zero.
pub open spec fn is_positive_finite_bits(bits: u32) -> bool {
    0 < bits && bits < 0x7F80_0000
}

/// `value` prefixed by its 8-byte little-endian length.
pub open spec fn field(value: Seq<u8>) -> Seq<u8> {
    le_bytes(value.len(), 8) + value
}

/// The bytes a cache key's digest is computed over.
pub open spec fn key_material(
    deck: Seq<u8>,
    handler_revision: Seq<char>,
    renderer_version: Seq<char>,
    width: u32,
    height: u32,
    scale_bits: u32,
) -> Seq<u8> {
    encode_utf8(KEY_TAG@) + field(deck) + field(encode_utf8(handler_revision)) + field(
        encode_utf8(renderer_version),
    ) + le_bytes(width as nat, 4) + le_bytes(height as nat, 4) + le_bytes(scale_bits as nat, 4)
}

/// The bytes a renderer-bound digest is computed over.
pub open spec fn renderer_material(digest: Seq<char>, identity: Seq<char>) -> Seq<u8> {
    encode_utf8(RENDERER_TAG@) + field(encode_utf8(digest)) + field(encode_utf8(identity))
}

/// 64 lower-case hex digits.
pub open spec fn is_hex_digest(s: Seq<char>) -> bool {
    s.len() == 64 && forall|i: int| 0 <= i < s.len() ==> is_lower_hex_char(#[trigger] s[i])
}

/// Below `2^64`: a length that fits the 8-byte length prefix.
pub open spec fn fits_u64(n: nat) -> bool {
    n < 0x1_0000_0000_0000_0000
}

proof fn lemma_pow_256(n: nat)
    ensures
        n == 4 ==> vstd::arithmetic::power::pow(256, n) == 0x1_0000_0000,
        n == 8 ==> vstd::arithmetic::power::pow(256, n) == 0x1_0000_0000_0000_0000,
{
    reveal_with_fuel(vstd::arithmetic::power::pow, 9);
}

/// A length-prefixed field and what follows it split apart again.
proof fn lemma_field_split(a: Seq<u8>, x: Seq<u8>, b: Seq<u8>, y: Seq<u8>)
    requires
        fits_u64(a.len()),
        fits_u64(b.len()),
        field(a) + x == field(b) + y,
    ensures
        a == b,
        x == y,
{
    lemma_le_bytes_len(a.len(), 8);
    lemma_le_bytes_len(b.len(), 8);
    let l = field(a) + x;
    assert(l.subrange(0, 8) =~= le_bytes(a.len(), 8));
    assert((field(b) + y).subrange(0, 8) =~= le_bytes(b.len(), 8));
    lemma_pow_256(8);
    lemma_le_bytes_injective(a.len(), b.len(), 8);
    assert(l.subrange(8, 8 + a.len() as int) =~= a);
    assert((field(b) + y).subrange(8, 8 + b.len() as int) =~= b);
    assert(l.skip(8 + a.len() as int) =~= x);
    assert((field(b) + y).skip(8 + b.len() as int) =~= y);
}

/// The material regrouped as the tag followed by the fields, each field
/// followed by the rest.
proof fn lemma_material_shape(deck: Seq<u8>, handler: Seq<char>, renderer: Seq<char>, width: u32, height: u32, scale: u32)
    ensures
        key_material(deck, handler, renderer, width, height, scale) == encode_utf8(KEY_TAG@) + (field(deck) + (field(
            encode_utf8(handler),
        ) + (field(encode_utf8(renderer)) + (le_bytes(width as nat, 4) + le_bytes(height as nat, 4) + le_bytes(
            scale as nat,
            4,
        ))))),
{
    let t = encode_utf8(KEY_TAG@);
    let d = field(deck);
    let h = field(encode_utf8(handler));
    let r = field(encode_utf8(renderer));
    let w = le_bytes(width as nat, 4);
    let g = le_bytes(height as nat, 4);
    let c = le_bytes(scale as nat, 4);
    vstd::seq_lib::lemma_concat_associative(t + d + h + r + w, g, c);
    vstd::seq_lib::lemma_concat_associative(t + d + h + r, w, g + c);
    vstd::seq_lib::lemma_concat_associative(t + d + h, r, w + g + c);
    vstd::seq_lib::lemma_concat_associative(w, g, c);
    vstd::seq_lib::lemma_concat_associative(t + d + h, r, w + (g + c));
    vstd::seq_lib::lemma_concat_associative(t + d, h, r + (w + g + c));
    vstd::seq_lib::lemma_concat_associative(t, d, h + (r + (w + g + c)));
}

/// The 12 geometry bytes determine width, height and scale bits.
proof fn lemma_geometry_split(width1: u32, height1: u32, scale1: u32, width2: u32, height2: u32, scale2: u32)
    requires
        le_bytes(width1 as nat, 4) + le_bytes(height1 as nat, 4) + le_bytes(scale1 as nat, 4) == le_bytes(
            width2 as nat,
            4,
        ) + le_bytes(height2 as nat, 4) + le_bytes(scale2 as nat, 4),
    ensures
        width1 == width2,
        height1 == height2,
        scale1 == scale2,
{
    let tail1 = le_bytes(width1 as nat, 4) + le_bytes(height1 as nat, 4) + le_bytes(scale1 as nat, 4);
    let tail2 = le_bytes(width2 as nat, 4) + le_bytes(height2 as nat, 4) + le_bytes(scale2 as nat, 4);
    lemma_le_bytes_len(width1 as nat, 4);
    lemma_le_bytes_len(height1 as nat, 4);
    lemma_le_bytes_len(scale1 as nat, 4);
    lemma_le_bytes_len(width2 as nat, 4);
    lemma_le_bytes_len(height2 as nat, 4);
    lemma_le_bytes_len(scale2 as nat, 4);
    assert(tail1.subrange(0, 4) =~= le_bytes(width1 as nat, 4));
    assert(tail2.subrange(0, 4) =~= le_bytes(width2 as nat, 4));
    assert(tail1.subrange(4, 8) =~= le_bytes(height1 as nat, 4));
    assert(tail2.subrange(4, 8) =~= le_bytes(height2 as nat, 4));
    assert(tail1.subrange(8, 12) =~= le_bytes(scale1 as nat, 4));
    assert(tail2.subrange(8, 12) =~= le_bytes(scale2 as nat, 4));
    lemma_pow_256(4);
    lemma_le_bytes_injective(width1 as nat, width2 as nat, 4);
    lemma_le_bytes_injective(height1 as nat, height2 as nat, 4);
    lemma_le_bytes_injective(scale1 as nat, scale2 as nat, 4);
}

/// Different render inputs give different digest material: equal material
/// means equal deck bytes, handler revision, renderer version, width, height
/// and scale. So two keys share a digest only if SHA-256 collides.
pub proof fn lemma_key_material_injective(
    deck1: Seq<u8>,
    handler1: Seq<char>,
    renderer1: Seq<char>,
    width1: u32,
    height1: u32,
    scale1: u32,
    deck2: Seq<u8>,
    handler2: Seq<char>,
    renderer2: Seq<char>,
    width2: u32,
    height2: u32,
    scale2: u32,
)
    requires
        fits_u64(deck1.len()),
        fits_u64(deck2.len()),
        fits_u64(encode_utf8(handler1).len()),
        fits_u64(encode_utf8(handler2).len()),
        fits_u64(encode_utf8(renderer1).len()),
        fits_u64(encode_utf8(renderer2).len()),
        key_material(deck1, handler1, renderer1, width1, height1, scale1) == key_material(
            deck2,
            handler2,
            renderer2,
            width2,
            height2,
            scale2,
        ),
    ensures
        deck1 == deck2,
        handler1 == handler2,
        renderer1 == renderer2,
        width1 == width2,
        height1 == height2,
        scale1 == scale2,
{
    let t = encode_utf8(KEY_TAG@);
    let tail1 = le_bytes(width1 as nat, 4) + le_bytes(height1 as nat, 4) + le_bytes(scale1 as nat, 4);
    let tail2 = le_bytes(width2 as nat, 4) + le_bytes(height2 as nat, 4) + le_bytes(scale2 as nat, 4);
    let r1 = field(encode_utf8(renderer1)) + tail1;
    let r2 = field(encode_utf8(renderer2)) + tail2;
    let h1 = field(encode_utf8(handler1)) + r1;
    let h2 = field(encode_utf8(handler2)) + r2;
    assert(key_material(deck1, handler1, renderer1, width1, height1, scale1) == t + (field(deck1) + h1)) by {
        lemma_material_shape(deck1, handler1, renderer1, width1, height1, scale1);
    }
    assert(key_material(deck2, handler2, renderer2, width2, height2, scale2) == t + (field(deck2) + h2)) by {
        lemma_material_shape(deck2, handler2, renderer2, width2, height2, scale2);
    }
    assert((t + (field(deck1) + h1)).skip(t.len() as int) =~= field(deck1) + h1);
    assert((t + (field(deck2) + h2)).skip(t.len() as int) =~= field(deck2) + h2);
    lemma_field_split(deck1, h1, deck2, h2);
    lemma_field_split(encode_utf8(handler1), r1, encode_utf8(handler2), r2);
    lemma_field_split(encode_utf8(renderer1), tail1, encode_utf8(renderer2), tail2);
    assert(handler1 == handler2) by {
        vstd::utf8::encode_utf8_decode_utf8(handler1);
        vstd::utf8::encode_utf8_decode_utf8(handler2);
    }
    assert(renderer1 == renderer2) by {
        vstd::utf8::encode_utf8_decode_utf8(renderer1);
        vstd::utf8::encode_utf8_decode_utf8(renderer2);
    }
    lemma_geometry_split(width1, height1, scale1, width2, height2, scale2);
}

/// Binding a key to a renderer keeps both apart: equal renderer material
/// means the same key digest and the same renderer identity.
pub proof fn lemma_renderer_material_injective(digest1: Seq<char>, identity1: Seq<char>, digest2: Seq<char>, identity2: Seq<char>)
    requires
        fits_u64(encode_utf8(digest1).len()),
        fits_u64(encode_utf8(digest2).len()),
        fits_u64(encode_utf8(identity1).len()),
        fits_u64(encode_utf8(identity2).len()),
        renderer_material(digest1, identity1) == renderer_material(digest2, identity2),
    ensures
        digest1 == digest2,
        identity1 == identity2,
{
    let t = encode_utf8(RENDERER_TAG@);
    let a1 = field(encode_utf8(digest1));
    let a2 = field(encode_utf8(digest2));
    let b1 = field(encode_utf8(identity1));
    let b2 = field(encode_utf8(identity2));
    vstd::seq_lib::lemma_concat_associative(t, a1, b1);
    vstd::seq_lib::lemma_concat_associative(t, a2, b2);
    assert((t + (a1 + b1)).skip(t.len() as int) =~= a1 + b1);
    assert((t + (a2 + b2)).skip(t.len() as int) =~= a2 + b2);
    lemma_field_split(encode_utf8(digest1), b1, encode_utf8(digest2), b2);
    assert(b1 + Seq::<u8>::empty() =~= b1);
    assert(b2 + Seq::<u8>::empty() =~= b2);
    lemma_field_split(encode_utf8(identity1), Seq::empty(), encode_utf8(identity2), Seq::empty());
    vstd::utf8::encode_utf8_decode_utf8(digest1);
    vstd::utf8::encode_utf8_decode_utf8(digest2);
    vstd::utf8::encode_utf8_decode_utf8(identity1);
    vstd::utf8::encode_utf8_decode_utf8(identity2);
}

fn push_field(out: &mut Vec<u8>, value: &[u8])
    ensures
        final(out)@ == old(out)@ + field(value@),
{
    push_le(out, value.len() as u64, 8);
    out.extend_from_slice(value);
    assert(old(out)@ + field(value@) =~= old(out)@ + le_bytes(value@.len(), 8) + value@);
}

/// The SHA-256 of `data` as 64 lower-case hex digits, as manifests record
/// slide checksums.
pub fn sha256_hex(data: &[u8]) -> (s: String)
    ensures
        s@ == hex_lower(sha256(data@)),
        is_hex_digest(s@),
{
    let d = sha256_digest(data);
    let mut out: Vec<char> = Vec::new();
    push_hex(&mut out, &d);
    proof {
        lemma_hex_lower(d@);
        assert(Seq::<char>::empty() + hex_lower(d@) =~= hex_lower(d@));
    }
    string_of(&out)
}

impl CacheKey {
    /// A key over the deck bytes, handler revision, renderer version and
    /// capture geometry. `scale_bits` are the IEEE bits of the device scale and
    /// `scale_text` its decimal text. Zero dimensions and scales that are not
    /// finite and positive are refused.
    pub fn new(
        deck_bytes: &[u8],
        handler_revision: &str,
        renderer_version: &str,
        width: u32,
        height: u32,
        scale_bits: u32,
        scale_text: &str,
    ) -> (r: Result<CacheKey, CacheError>)
        ensures
            (width == 0 || height == 0 || !is_positive_finite_bits(scale_bits)) <==> r is Err,
            r matches Err(e) ==> e == CacheError::InvalidGeometry,
            r matches Ok(k) ==> {
                &&& k.digest@ == hex_lower(sha256(key_material(deck_bytes@, handler_revision@, renderer_version@, width, height, scale_bits)))
                &&& is_hex_digest(k.digest@)
                &&& k.renderer_version@ == renderer_version@
                &&& k.handler_revision@ == handler_revision@
                &&& k.width == width
                &&& k.height == height
                &&& k.scale@ == scale_text@
            },
    {
        if width == 0 || height == 0 || scale_bits == 0 || scale_bits >= 0x7F80_0000 {
            return Err(CacheError::InvalidGeometry);
        }
        let mut material: Vec<u8> = Vec::new();
        material.extend_from_slice(KEY_TAG.as_bytes());
        push_field(&mut material, deck_bytes);
        push_field(&mut material, handler_revision.as_bytes());
        push_field(&mut material, renderer_version.as_bytes());
        push_le(&mut material, width as u64, 4);
        push_le(&mut material, height as u64, 4);
        push_le(&mut material, scale_bits as u64, 4);
        assert(material@ =~= key_material(deck_bytes@, handler_revision@, renderer_version@, width, height, scale_bits));
        Ok(CacheKey {
            digest: sha256_hex(&material),
            renderer_version: renderer_version.to_owned(),
            handler_revision: handler_revision.to_owned(),
            width,
            height,
            scale: scale_text.to_owned(),
        })
    }

    /// The same key bound to a renderer installation identity: the digest
    /// covers the previous digest and the identity, so entries of different
    /// renderer installations never share a digest unless SHA-256 collides.
    pub fn with_renderer(self, identity: &str) -> (k: CacheKey)
        ensures
            k.digest@ == hex_lower(sha256(renderer_material(self.digest@, identity@))),
            is_hex_digest(k.digest@),
            k.renderer_version == self.renderer_version,
            k.handler_revision == self.handler_revision,
            k.width == self.width,
            k.height == self.height,
            k.scale == self.scale,
    {
        let mut material: Vec<u8> = Vec::new();
        material.extend_from_slice(RENDERER_TAG.as_bytes());
        push_field(&mut material, self.digest.as_str().as_bytes());
        push_field(&mut material, identity.as_bytes());
        assert(material@ =~= renderer_material(self.digest@, identity@));
        CacheKey { digest: sha256_hex(&material), ..self }
    }
}

/// One rendered slide in a cache entry.
#[derive(Clone, Debug, PartialEq, Eq)]
pub struct SlideImage {
    pub index: u32,
    /// Relative basename only, such as `slide-0001.png`.
    pub file: String,
    pub width: u32,
    pub height: u32,
    pub sha256: String,
}

/// The manifest of a complete cache entry.
#[derive(Clone, Debug, PartialEq, Eq)]
pub struct RenderManifest {
    pub version: u32,
    pub generation: u64,
    pub cache_key: CacheKey,
    pub created_unix_ms: u64,
    pub slides: Vec<SlideImage>,
}

/// `slide-NNNN.png` with the index zero-padded to four digits.
pub open spec fn slide_file_name(index: nat) -> Seq<char> {
    "slide-"@ + zero_padded(index, 4) + ".png"@
}

/// The first problem of the slide at 0-based `position`, if any.
pub open spec fn slide_error(s: SlideImage, position: int) -> Option<CacheError> {
    if s.index != position + 1 {
        Some(CacheError::NonContiguousSlides)
    } else if s.file@ != slide_file_name(s.index as nat) {
        Some(CacheError::InvalidSlideFile(s.index))
    } else if s.width == 0 || s.height == 0 || !is_hex_digest(s.sha256@) {
        Some(CacheError::InvalidSlideMetadata(s.index))
    } else {
        None
    }
}

/// The problem of the first faulty slide at or after `k`.
pub open spec fn slides_error_from(slides: Seq<SlideImage>, k: int) -> Option<CacheError>
    decreases slides.len() - k,
{
    if k < 0 || k >= slides.len() {
        None
    } else if slide_error(slides[k], k) is Some {
        slide_error(slides[k], k)
    } else {
        slides_error_from(slides, k + 1)
    }
}

fn is_lower_hex_text(s: &str) -> (r: bool)
    ensures
        r == is_hex_digest(s@),
{
    let v = chars_of(s);
    if v.len() != 64 {
        return false;
    }
    let mut i: usize = 0;
    while i < v.len()
        invariant
            i <= v@.len(),
            v@ == s@,
            forall|q: int| 0 <= q < i ==> is_lower_hex_char(#[trigger] v@[q]),
        decreases v.len() - i,
    {
        let c = v[i];
        if !(('0' <= c && c <= '9') || ('a' <= c && c <= 'f')) {
            return false;
        }
        i += 1;
    }
    true
}

fn same_text(a: &str, b: &[char]) -> (r: bool)
    ensures
        r == (a@ == b@),
{
    let v = chars_of(a);
    if v.len() != b.len() {
        return false;
    }
    let mut i: usize = 0;
    while i < v.len()
        invariant
            i <= v@.len(),
            v@ == a@,
            v@.len() == b@.len(),
            forall|q: int| 0 <= q < i ==> v@[q] == b@[q],
        decreases v.len() - i,
    {
        if v[i] != b[i] {
            return false;
        }
        i += 1;
    }
    assert(v@ =~= b@);
    true
}

/// `slide-NNNN.png` for `index`.
pub fn slide_file(index: u32) -> (name: String)
    ensures
        name@ == slide_file_name(index as nat),
{
    let mut out: Vec<char> = Vec::new();
    extend_chars(&mut out, "slide-");
    push_zero_padded(&mut out, index as u64, 4);
    extend_chars(&mut out, ".png");
    assert(out@ =~= slide_file_name(index as nat));
    string_of(&out)
}

/// Slides are numbered 1, 2, 3, ... in order, named `slide-NNNN.png`, with
/// non-zero dimensions and a SHA-256 checksum; the first faulty slide decides
/// the error.
pub fn validate_slides(slides: &Vec<SlideImage>) -> (r: Result<(), CacheError>)
    ensures
        match r {
            Ok(()) => slides_error_from(slides@, 0) is None,
            Err(e) => slides_error_from(slides@, 0) == Some(e),
        },
{
    let mut k: usize = 0;
    while k < slides.len()
        invariant
            k <= slides@.len(),
            slides_error_from(slides@, 0) == slides_error_from(slides@, k as int),
        decreases slides.len() - k,
    {
        let s = &slides[k];
        if k >= 0xFFFF_FFFF || s.index != (k + 1) as u32 {
            return Err(CacheError::NonContiguousSlides);
        }
        let expected = slide_file(s.index);
        let ev = chars_of(expected.as_str());
        if !same_text(s.file.as_str(), &ev) {
            return Err(CacheError::InvalidSlideFile(s.index));
        }
        if s.width == 0 || s.height == 0 || !is_lower_hex_text(s.sha256.as_str()) {
            return Err(CacheError::InvalidSlideMetadata(s.index));
        }
        k += 1;
    }
    Ok(())
}

impl RenderManifest {
    /// A manifest of `slides` for `generation`, created at `created_unix_ms`
    /// (milliseconds since the Unix epoch); invalid slides are refused.
    pub fn new_at(generation: u64, cache_key: CacheKey, slides: Vec<SlideImage>, created_unix_ms: u64) -> (r: Result<RenderManifest, CacheError>)
        ensures
            match r {
                Ok(m) => {
                    &&& slides_error_from(slides@, 0) is None
                    &&& m.version == MANIFEST_VERSION
                    &&& m.generation == generation
                    &&& m.cache_key == cache_key
                    &&& m.created_unix_ms == created_unix_ms
                    &&& m.slides@ == slides@
                },
                Err(e) => slides_error_from(slides@, 0) == Some(e),
            },
    {
        match validate_slides(&slides) {
            Ok(()) => Ok(RenderManifest { version: MANIFEST_VERSION, generation, cache_key, created_unix_ms, slides }),
            Err(e) => Err(e),
        }
    }

    /// A manifest of `slides` for `generation`, stamped with the current time;
    /// invalid slides are refused first, then a clock before the epoch.
    pub fn new(generation: u64, cache_key: CacheKey, slides: Vec<SlideImage>) -> (r: Result<RenderManifest, CacheError>)
        ensures
            slides_error_from(slides@, 0) matches Some(e) ==> r == Err::<RenderManifest, CacheError>(e),
            slides_error_from(slides@, 0) is None ==> match r {
                Ok(m) => {
                    &&& m.version == MANIFEST_VERSION
                    &&& m.generation == generation
                    &&& m.cache_key == cache_key
                    &&& m.slides@ == slides@
                },
                Err(e) => e == CacheError::ClockBeforeEpoch,
            },
    {
        match validate_slides(&slides) {
            Err(e) => {
                return Err(e);
            },
            Ok(()) => {},
        }
        match now_ms() {
            Some(t) => RenderManifest::new_at(generation, cache_key, slides, t),
            None => Err(CacheError::ClockBeforeEpoch),
        }
    }

    /// The manifest's own consistency: current version, a 64-digit lower-case
    /// hex cache digest, and valid slides, checked in that order.
    pub fn validate_metadata(&self) -> (r: Result<(), CacheError>)
        ensures
            self.version != MANIFEST_VERSION ==> r == Err::<(), CacheError>(CacheError::UnsupportedVersion(self.version)),
            self.version == MANIFEST_VERSION && !is_hex_digest(self.cache_key.digest@) ==> r == Err::<(), CacheError>(CacheError::InvalidDigest),
            self.version == MANIFEST_VERSION && is_hex_digest(self.cache_key.digest@) ==> match r {
                Ok(()) => slides_error_from(self.slides@, 0) is None,
                Err(e) => slides_error_from(self.slides@, 0) == Some(e),
            },
    {
        if self.version != MANIFEST_VERSION {
            return Err(CacheError::UnsupportedVersion(self.version));
        }
        if !is_lower_hex_text(self.cache_key.digest.as_str()) {
            return Err(CacheError::InvalidDigest);
        }
        validate_slides(&self.slides)
    }
}

/// Milliseconds since the Unix epoch by the system clock
/// (`SystemTime::now().duration_since(UNIX_EPOCH)`), `None` when the clock
/// reads before the epoch. Nothing is promised of the value.
#[verifier::external_body]
fn now_ms() -> (r: Option<u64>) {
    match std::time::SystemTime::now().duration_since(std::time::UNIX_EPOCH) {
        Ok(d) => Some(d.as_millis() as u64),
        Err(_) => None,
    }
}

/// What the entry directory holds for one slide: whether its file is a
/// regular file, and its SHA-256 in lower-case hex when checksums are verified.
#[derive(Clone, Debug)]
pub struct SlideOnDisk {
    pub is_file: bool,
    pub sha256: Option<String>,
}

/// The first slide, from `k` on, whose file is missing or has another checksum.
pub open spec fn disk_error_from(slides: Seq<SlideImage>, disk: Seq<SlideOnDisk>, k: int) -> Option<CacheError>
    decreases slides.len() - k,
{
    if k < 0 || k >= slides.len() || k >= disk.len() {
        None
    } else if !disk[k].is_file {
        Some(CacheError::MissingSlide(slides[k].index))
    } else if disk[k].sha256 matches Some(h) && h@ != slides[k].sha256@ {
        Some(CacheError::ChecksumMismatch(slides[k].index))
    } else {
        disk_error_from(slides, disk, k + 1)
    }
}

/// The verdict on a manifest and the slide files of its entry directory.
pub open spec fn manifest_verdict(m: RenderManifest, disk: Seq<SlideOnDisk>) -> Result<(), CacheError> {
    if m.version != MANIFEST_VERSION {
        Err(CacheError::UnsupportedVersion(m.version))
    } else if !is_hex_digest(m.cache_key.digest@) {
        Err(CacheError::InvalidDigest)
    } else {
        match slides_error_from(m.slides@, 0) {
            Some(e) => Err(e),
            None => match disk_error_from(m.slides@, disk, 0) {
                Some(e) => Err(e),
                None => Ok(()),
            },
        }
    }
}

impl RenderManifest {
    /// The manifest together with its entry directory: its own consistency
    /// (see `validate_metadata`), then every slide's file present and, where a
    /// checksum was computed, equal to the recorded one. `on_disk` describes
    /// the slides in manifest order.
    pub fn validate(&self, on_disk: &Vec<SlideOnDisk>) -> (r: Result<(), CacheError>)
        requires
            on_disk@.len() == self.slides@.len(),
        ensures
            r == manifest_verdict(*self, on_disk@),
    {
        match self.validate_metadata() {
            Err(e) => {
                return Err(e);
            },
            Ok(()) => {},
        }
        let mut k: usize = 0;
        while k < self.slides.len()
            invariant
                k <= self.slides@.len() == on_disk@.len(),
                self.version == MANIFEST_VERSION,
                is_hex_digest(self.cache_key.digest@),
                slides_error_from(self.slides@, 0) is None,
                disk_error_from(self.slides@, on_disk@, 0) == disk_error_from(self.slides@, on_disk@, k as int),
            decreases self.slides.len() - k,
        {
            let s = &self.slides[k];
            let d = &on_disk[k];
            if !d.is_file {
                return Err(CacheError::MissingSlide(s.index));
            }
            match &d.sha256 {
                Some(h) => {
                    let hv = chars_of(h.as_str());
                    let sv = chars_of(s.sha256.as_str());
                    if !crate::text::eq_chars(&hv, &sv) {
                        return Err(CacheError::ChecksumMismatch(s.index));
                    }
                },
                None => {},
            }
            k += 1;
        }
        Ok(())
    }
}

/// A renderer version made safe as a path component: ASCII letters, digits,
/// `-` and `_` kept, any other character replaced by `_`, `renderer` if empty.
pub open spec fn safe_version_of(v: Seq<char>) -> Seq<char> {
    if v.len() == 0 {
        "renderer"@
    } else {
        Seq::new(v.len(), |i: int| if is_ascii_alnum(v[i]) || v[i] == '-' || v[i] == '_' { v[i] } else { '_' })
    }
}

/// See `safe_version_of`.
pub fn safe_version(value: &str) -> (r: String)
    ensures
        r@ == safe_version_of(value@),
{
    let v = chars_of(value);
    if v.len() == 0 {
        return "renderer".to_owned();
    }
    let mut out: Vec<char> = Vec::new();
    let mut i: usize = 0;
    while i < v.len()
        invariant
            i <= v@.len(),
            v@ == value@,
            out@ == Seq::new(i as nat, |q: int| if is_ascii_alnum(v@[q]) || v@[q] == '-' || v@[q] == '_' { v@[q] } else { '_' }),
        decreases v.len() - i,
    {
        let c = v[i];
        if char_is_ascii_alnum(c) || c == '-' || c == '_' {
            out.push(c);
        } else {
            out.push('_');
        }
        assert(out@ =~= Seq::new((i + 1) as nat, |q: int| if is_ascii_alnum(v@[q]) || v@[q] == '-' || v@[q] == '_' { v@[q] } else { '_' }));
        i += 1;
    }
    string_of(&out)
}

/// Owner of the render cache directory tree.
#[derive(Clone, Debug)]
pub struct RenderCache {
    root: String,
    keep_generations: usize,
}

/// The profile directory name `safe-version-WxH@scale` of a key.
pub open spec fn profile_name(k: CacheKey) -> Seq<char> {
    safe_version_of(k.renderer_version@) + seq!['-'] + decimal(k.width as nat) + seq!['x'] + decimal(k.height as nat) + seq!['@'] + k.scale@
}

impl RenderCache {
    /// The cache root.
    pub closed spec fn root_path(&self) -> Seq<char> {
        self.root@
    }

    /// How many complete entries per profile survive cleanup.
    pub closed spec fn kept(&self) -> nat {
        self.keep_generations as nat
    }

    /// A cache rooted at an absolute path that keeps at least one generation.
    pub fn new(root: &str, keep_generations: usize) -> (r: Result<RenderCache, CacheError>)
        ensures
            !is_absolute(root@) ==> r == Err::<RenderCache, CacheError>(CacheError::RelativeRoot),
            is_absolute(root@) && keep_generations == 0 ==> r == Err::<RenderCache, CacheError>(CacheError::NoGenerationsKept),
            is_absolute(root@) && keep_generations > 0 ==> (r matches Ok(c) && c.root_path() == root@ && c.kept() == keep_generations),
    {
        let v = chars_of(root);
        if !(v.len() > 0 && v[0] == '/') {
            return Err(CacheError::RelativeRoot);
        }
        if keep_generations == 0 {
            return Err(CacheError::NoGenerationsKept);
        }
        Ok(RenderCache { root: root.to_owned(), keep_generations })
    }

    /// The cache root.
    pub fn root(&self) -> (r: &str)
        ensures
            r@ == self.root_path(),
    {
        self.root.as_str()
    }

    /// How many complete entries per profile survive cleanup.
    pub fn keep_generations(&self) -> (n: usize)
        ensures
            n == self.kept(),
    {
        self.keep_generations
    }

    /// `root/<first 16 hex digits of SHA-256 of deck identity>/<profile>/<digest>`:
    /// a stable path whose only caller-controlled parts are made safe.
    pub fn entry_dir(&self, deck_identity: &[u8], key: &CacheKey) -> (r: String)
        ensures
            r@ == join(
                join(join(self.root_path(), hex_lower(sha256(deck_identity@)).take(16)), profile_name(*key)),
                key.digest@,
            ),
    {
        let d = sha256_digest(deck_identity);
        let mut hex: Vec<char> = Vec::new();
        push_hex(&mut hex, &d);
        proof {
            lemma_hex_lower(d@);
            assert(Seq::<char>::empty() + hex_lower(d@) =~= hex_lower(d@));
        }
        let deck_hash = crate::text::string_of_range(&hex, 0, 16);
        assert(hex@.subrange(0, 16) =~= hex@.take(16));
        let mut profile: Vec<char> = Vec::new();
        let sv = safe_version(key.renderer_version.as_str());
        extend_chars(&mut profile, sv.as_str());
        profile.push('-');
        push_decimal(&mut profile, key.width as u64);
        profile.push('x');
        push_decimal(&mut profile, key.height as u64);
        profile.push('@');
        extend_chars(&mut profile, key.scale.as_str());
        assert(profile@ =~= profile_name(*key));
        let profile = string_of(&profile);
        let a = join_path(self.root.as_str(), deck_hash.as_str());
        let b = join_path(a.as_str(), profile.as_str());
        join_path(b.as_str(), key.digest.as_str())
    }
}

/// The shortest prefix of `d` whose UTF-8 encoding is 16 bytes long, or all
/// of `d` when it is at most 16 bytes.
pub open spec fn short_digest_of(d: Seq<char>, r: Seq<char>) -> bool {
    &&& r.len() <= d.len()
    &&& r == d.take(r.len() as int)
    &&& utf8_len(r) == if utf8_len(d) <= 16 { utf8_len(d) } else { 16 }
}

/// Byte 16 of `d` is a character boundary (or `d` is at most 16 bytes), so
/// the first 16 bytes can be cut out.
pub open spec fn cuttable_at_16(d: Seq<char>) -> bool {
    utf8_len(d) <= 16 || exists|k: int| 0 <= k <= d.len() && #[trigger] utf8_len(d.take(k)) == 16
}

proof fn lemma_prefix_len_mono(s: Seq<char>, a: int, b: int)
    requires
        0 <= a <= b <= s.len(),
    ensures
        utf8_len(s.take(a)) <= utf8_len(s.take(b)),
{
    crate::text::lemma_utf8_len_prefix(s.take(b), a);
    assert(s.take(b).take(a) =~= s.take(a));
}

impl CacheKey {
    /// The first 16 bytes of the digest (all of it when shorter), as shown in
    /// diagnostics.
    pub fn short_digest(&self) -> (r: String)
        requires
            cuttable_at_16(self.digest@),
        ensures
            short_digest_of(self.digest@, r@),
    {
        let v = chars_of(self.digest.as_str());
        let mut total: usize = 0;
        let mut k: usize = 0;
        while k < v.len() && total < 16
            invariant
                k <= v@.len(),
                v@ == self.digest@,
                total == utf8_len(v@.take(k as int)),
                total <= 16,
                cuttable_at_16(self.digest@),
            decreases v.len() - k,
        {
            let c = v[k] as u32;
            let w: usize = if c <= 0x7F {
                1
            } else if c <= 0x7FF {
                2
            } else if c <= 0xFFFF {
                3
            } else {
                4
            };
            assert(v@.take(k + 1).drop_last() =~= v@.take(k as int));
            assert(v@.take(k + 1).last() == v@[k as int]);
            proof {
                if total + w > 16 && utf8_len(v@) > 16 {
                    let j = choose|j: int| 0 <= j <= v@.len() && #[trigger] utf8_len(v@.take(j)) == 16;
                    if j <= k {
                        lemma_prefix_len_mono(v@, j, k as int);
                    } else {
                        lemma_prefix_len_mono(v@, k + 1, j);
                    }
                }
                if total + w > 16 && utf8_len(v@) <= 16 {
                    lemma_prefix_len_mono(v@, k + 1, v@.len() as int);
                    assert(v@.take(v@.len() as int) =~= v@);
                }
            }
            total += w;
            k += 1;
        }
        proof {
            if k == v@.len() {
                assert(v@.take(k as int) =~= v@);
            } else {
                lemma_prefix_len_mono(v@, k as int, v@.len() as int);
                assert(v@.take(v@.len() as int) =~= v@);
            }
        }
        crate::text::string_of_range(&v, 0, k)
    }
}

/// A cache path strictly inside the root, with no `..` component.
pub open spec fn descendant_verdict(root: Seq<char>, child: Seq<char>) -> Result<(), CacheError> {
    if !is_absolute(child) || !path_starts_with(child, root) || path_eq(child, root) {
        Err(CacheError::OutsideRoot)
    } else if has_parent_dir(child) {
        Err(CacheError::Traversal)
    } else {
        Ok(())
    }
}

/// Whether `child` may be used as a cache path under `root` (see
/// `descendant_verdict`); symbolic links along it are checked by the caller.
pub fn ensure_descendant(root: &str, child: &str) -> (r: Result<(), CacheError>)
    ensures
        r == descendant_verdict(root@, child@),
{
    let v = chars_of(child);
    if !(v.len() > 0 && v[0] == '/') || !path_starts_with_of(child, root) || paths_equal(child, root) {
        return Err(CacheError::OutsideRoot);
    }
    if has_parent_dir_of(child) {
        return Err(CacheError::Traversal);
    }
    Ok(())
}

/// One directory entry of a render profile directory.
#[derive(Clone, Debug)]
pub struct ProfileEntry {
    pub name: String,
    pub is_dir: bool,
    /// Whether the entry directory holds its manifest file.
    pub has_manifest: bool,
    /// Modification time in seconds since the epoch; 0 when unknown.
    pub modified_secs: u64,
    /// Sub-second part of the modification time, in nanoseconds.
    pub modified_nanos: u32,
}

/// A complete entry: a directory with a manifest that is not a temporary one.
pub open spec fn is_complete(e: ProfileEntry) -> bool {
    e.is_dir && e.has_manifest && !(e.name@.len() >= 5 && e.name@.take(5) == ".tmp-"@)
}

/// `a` was modified later than `b`.
pub open spec fn newer(a: ProfileEntry, b: ProfileEntry) -> bool {
    a.modified_secs > b.modified_secs || (a.modified_secs == b.modified_secs && a.modified_nanos > b.modified_nanos)
}

/// `a` and `b` were modified at the same time.
pub open spec fn same_time(a: ProfileEntry, b: ProfileEntry) -> bool {
    a.modified_secs == b.modified_secs && a.modified_nanos == b.modified_nanos
}

/// How many complete entries come before entry `j` when the complete
/// entries are ordered newest first, ties in directory order.
pub open spec fn newer_count(es: Seq<ProfileEntry>, j: int, k: int) -> nat
    decreases k,
{
    if k <= 0 {
        0
    } else {
        let i = k - 1;
        newer_count(es, j, i) + if is_complete(es[i]) && (newer(es[i], es[j]) || (same_time(es[i], es[j]) && i < j)) {
            1nat
        } else {
            0nat
        }
    }
}

/// Whether cleanup removes entry `j`: an abandoned temporary or incomplete
/// directory, or a complete one beyond the `keep` newest.
pub open spec fn removed_by_cleanup(es: Seq<ProfileEntry>, j: int, keep: nat) -> bool {
    es[j].is_dir && (!is_complete(es[j]) || newer_count(es, j, es.len() as int) >= keep)
}

fn starts_tmp(name: &str) -> (r: bool)
    ensures
        r == (name@.len() >= 5 && name@.take(5) == ".tmp-"@),
{
    let v = chars_of(name);
    let t = chars_of(".tmp-");
    proof {
        reveal_strlit(".tmp-");
    }
    let r = crate::text::matches_at(&v, &t, 0);
    proof {
        if v@.len() >= 5 {
            assert(v@.subrange(0, 5) =~= v@.take(5));
        }
    }
    r
}

/// For each entry of a profile directory, whether cleanup removes it (see
/// `removed_by_cleanup`); files are never removed.
pub fn cleanup_plan(entries: &Vec<ProfileEntry>, keep: usize) -> (r: Vec<bool>)
    ensures
        r@.len() == entries@.len(),
        forall|j: int| 0 <= j < r@.len() ==> r@[j] == removed_by_cleanup(entries@, j, keep as nat),
{
    let n = entries.len();
    let mut complete: Vec<bool> = Vec::new();
    let mut i: usize = 0;
    while i < n
        invariant
            i <= n == entries@.len(),
            complete@.len() == i,
            forall|q: int| 0 <= q < i ==> complete@[q] == is_complete(entries@[q]),
        decreases n - i,
    {
        let e = &entries[i];
        let c = e.is_dir && e.has_manifest && !starts_tmp(e.name.as_str());
        complete.push(c);
        i += 1;
    }
    let mut r: Vec<bool> = Vec::new();
    let mut j: usize = 0;
    while j < n
        invariant
            j <= n == entries@.len(),
            complete@.len() == n,
            forall|q: int| 0 <= q < n ==> complete@[q] == is_complete(entries@[q]),
            r@.len() == j,
            forall|q: int| 0 <= q < j ==> r@[q] == removed_by_cleanup(entries@, q, keep as nat),
        decreases n - j,
    {
        let ej = &entries[j];
        if !ej.is_dir {
            r.push(false);
        } else if !complete[j] {
            r.push(true);
        } else {
            let mut count: usize = 0;
            let mut i: usize = 0;
            while i < n
                invariant
                    i <= n == entries@.len(),
                    j < n,
                    complete@.len() == n,
                    forall|q: int| 0 <= q < n ==> complete@[q] == is_complete(entries@[q]),
                    count == newer_count(entries@, j as int, i as int),
                    count <= i,
                decreases n - i,
            {
                let (ai, bi) = (entries[i].modified_secs, entries[i].modified_nanos);
                let (aj, bj) = (entries[j].modified_secs, entries[j].modified_nanos);
                if complete[i] && (ai > aj || (ai == aj && bi > bj) || (ai == aj && bi == bj && i < j)) {
                    count += 1;
                }
                i += 1;
            }
            r.push(count >= keep);
        }
        j += 1;
    }
    r
}

impl RenderCache {
    /// For each entry of one profile directory, whether cleanup removes it:
    /// `cleanup_plan` with this cache's generations to keep.
    pub fn cleanup(&self, entries: &Vec<ProfileEntry>) -> (r: Vec<bool>)
        ensures
            r@.len() == entries@.len(),
            forall|j: int| 0 <= j < r@.len() ==> r@[j] == removed_by_cleanup(entries@, j, self.kept()),
    {
        cleanup_plan(entries, self.keep_generations)
    }
}

} // verus!
