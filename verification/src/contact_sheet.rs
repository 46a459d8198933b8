//! The contact sheet of a template: thumbnails of its first slides, three to
//! a row, pasted onto a transparent RGBA sheet and encoded as PNG.
use crate::design_import::{contact_cell_of, CONTACT_CELL_HEIGHT, CONTACT_CELL_WIDTH, CONTACT_COLUMNS};
use vstd::prelude::*;

verus! {

/// Byte offset of channel `c` of pixel (`x`, `y`) in an RGBA image `w` pixels wide.
pub open spec fn rgba_offset(w: int, x: int, y: int, c: int) -> int {
    (y * w + x) * 4 + c
}

/// Byte `i` of an RGBA image `w` pixels wide lies in the `tw` x `th` cell at (`ox`, `oy`).
pub open spec fn in_cell(i: int, w: int, tw: int, th: int, ox: int, oy: int) -> bool {
    let p = i / 4;
    ox <= p % w < ox + tw && oy <= p / w < oy + th
}

/// For a byte `i` inside the cell: the offset of the same channel of the
/// same pixel in the cell's own image.
pub open spec fn cell_source(i: int, w: int, tw: int, ox: int, oy: int) -> int {
    let p = i / 4;
    rgba_offset(tw, p % w - ox, p / w - oy, i % 4)
}

/// `sheet` (`w` pixels wide) with the `tw` x `th` RGBA image `tile` copied
/// over the cell whose top-left pixel is (`ox`, `oy`): what
/// `GenericImage::copy_from` does.
pub open spec fn pasted(sheet: Seq<u8>, w: int, tile: Seq<u8>, tw: int, th: int, ox: int, oy: int) -> Seq<u8> {
    Seq::new(sheet.len(), |i: int| if in_cell(i, w, tw, th, ox, oy) { tile[cell_source(i, w, tw, ox, oy)] } else { sheet[i] })
}

/// The sheet after the first `done` bytes of `tile` were copied.
spec fn partly_pasted(sheet: Seq<u8>, w: int, tile: Seq<u8>, tw: int, th: int, ox: int, oy: int, done: int) -> Seq<u8> {
    Seq::new(
        sheet.len(),
        |i: int|
            if in_cell(i, w, tw, th, ox, oy) && cell_source(i, w, tw, ox, oy) < done {
                tile[cell_source(i, w, tw, ox, oy)]
            } else {
                sheet[i]
            },
    )
}

/// A byte offset splits into its pixel's row, column and channel.
proof fn lemma_split_offset(i: int, w: int)
    requires
        0 <= i,
        w > 0,
    ensures
        i == rgba_offset(w, (i / 4) % w, (i / 4) / w, i % 4),
        0 <= (i / 4) % w < w,
        0 <= (i / 4) / w,
        0 <= i % 4 < 4,
{
    vstd::arithmetic::div_mod::lemma_fundamental_div_mod(i, 4);
    vstd::arithmetic::div_mod::lemma_fundamental_div_mod(i / 4, w);
    vstd::arithmetic::div_mod::lemma_mod_bound(i / 4, w);
    assert(0 <= i / 4) by (nonlinear_arith) requires 0 <= i;
    assert(0 <= (i / 4) / w) by (nonlinear_arith) requires 0 <= i / 4, w > 0;
    assert(i == ((i / 4 / w) * w + (i / 4) % w) * 4 + i % 4) by (nonlinear_arith)
        requires
            i == 4 * (i / 4) + i % 4,
            i / 4 == w * (i / 4 / w) + (i / 4) % w,
    ;
}

/// A pixel's offset gives back its row, column and channel.
proof fn lemma_join_offset(w: int, x: int, y: int, c: int)
    requires
        0 <= x < w,
        0 <= y,
        0 <= c < 4,
    ensures
        rgba_offset(w, x, y, c) / 4 == y * w + x,
        rgba_offset(w, x, y, c) % 4 == c,
        (rgba_offset(w, x, y, c) / 4) % w == x,
        (rgba_offset(w, x, y, c) / 4) / w == y,
{
    assert(0 <= y * w) by (nonlinear_arith) requires 0 <= y, 0 < w;
    vstd::arithmetic::div_mod::lemma_fundamental_div_mod_converse(rgba_offset(w, x, y, c), 4, y * w + x, c);
    vstd::arithmetic::div_mod::lemma_fundamental_div_mod_converse(y * w + x, w, y, x);
}

/// Copies `tile` (`tw` x `th` RGBA) onto `sheet` (`w` x `h` RGBA) with its
/// top-left pixel at (`ox`, `oy`).
pub fn paste_tile(sheet: &mut Vec<u8>, w: u32, h: u32, tile: &Vec<u8>, tw: u32, th: u32, ox: u32, oy: u32)
    requires
        old(sheet)@.len() == w as int * h as int * 4,
        tile@.len() == tw as int * th as int * 4,
        tw > 0,
        ox as int + tw as int <= w as int,
        oy as int + th as int <= h as int,
        w as int * h as int * 4 <= usize::MAX,
    ensures
        final(sheet)@ == pasted(old(sheet)@, w as int, tile@, tw as int, th as int, ox as int, oy as int),
{
    let ghost start = sheet@;
    let ghost (wi, twi, thi, oxi, oyi) = (w as int, tw as int, th as int, ox as int, oy as int);
    let n: usize = tile.len();
    let mut j: usize = 0;
    proof {
        assert(partly_pasted(start, wi, tile@, twi, thi, oxi, oyi, 0) =~= start) by {
            assert forall|i: int| 0 <= i < start.len() && in_cell(i, wi, twi, thi, oxi, oyi) implies cell_source(i, wi, twi, oxi, oyi) >= 0 by {
                lemma_split_offset(i, wi);
                let p = i / 4;
                assert(0 <= p % wi - oxi < twi);
                assert(0 <= p / wi - oyi);
                assert(0 <= (p / wi - oyi) * twi) by (nonlinear_arith) requires 0 <= p / wi - oyi, 0 < twi;
            }
        }
    }
    while j < n
        invariant
            n == tile@.len(),
            j <= n,
            start.len() == wi * h as int * 4,
            sheet@.len() == start.len(),
            wi == w as int && twi == tw as int && thi == th as int && oxi == ox as int && oyi == oy as int,
            tile@.len() == twi * thi * 4,
            twi > 0,
            oxi + twi <= wi,
            oyi + thi <= h as int,
            wi * h as int * 4 <= usize::MAX,
            sheet@ == partly_pasted(start, wi, tile@, twi, thi, oxi, oyi, j as int),
        decreases n - j,
    {
        let ghost ji = j as int;
        let tx: usize = (j / 4) % (tw as usize);
        let ty: usize = (j / 4) / (tw as usize);
        let c: usize = j % 4;
        proof {
            lemma_split_offset(ji, twi);
            assert(ty < thi) by {
                if ty >= thi {
                    assert(ji >= (thi * twi) * 4) by (nonlinear_arith)
                        requires ji == ((ty as int) * twi + tx as int) * 4 + c as int, ty >= thi, 0 <= tx, 0 <= c, twi > 0;
                    assert(thi * twi == twi * thi) by (nonlinear_arith);
                }
            }
        }
        let y: usize = oy as usize + ty;
        let x: usize = ox as usize + tx;
        proof {
            assert((y as int) * wi + (x as int) < wi * (h as int)) by (nonlinear_arith)
                requires y < h as int, x < wi, 0 <= y, 0 <= x;
        }
        let dst: usize = (y * (w as usize) + x) * 4 + c;
        let ghost old_sheet = sheet@;
        sheet.set(dst, tile[j]);
        proof {
            let di = dst as int;
            lemma_join_offset(wi, x as int, y as int, c as int);
            assert(di == rgba_offset(wi, x as int, y as int, c as int));
            assert(in_cell(di, wi, twi, thi, oxi, oyi));
            assert(cell_source(di, wi, twi, oxi, oyi) == ji);
            assert forall|i: int| 0 <= i < start.len() implies #[trigger] sheet@[i] == partly_pasted(
                start,
                wi,
                tile@,
                twi,
                thi,
                oxi,
                oyi,
                ji + 1,
            )[i] by {
                if i != di && in_cell(i, wi, twi, thi, oxi, oyi) && cell_source(i, wi, twi, oxi, oyi) == ji {
                    lemma_split_offset(i, wi);
                    let p = i / 4;
                    lemma_join_offset(twi, p % wi - oxi, p / wi - oyi, i % 4);
                    assert(p % wi - oxi == tx as int);
                    assert(p / wi - oyi == ty as int);
                    assert(i % 4 == c as int);
                    assert(false);
                }
            }
            assert(sheet@ =~= partly_pasted(start, wi, tile@, twi, thi, oxi, oyi, ji + 1));
        }
        j += 1;
    }
    proof {
        assert forall|i: int| 0 <= i < start.len() && in_cell(i, wi, twi, thi, oxi, oyi) implies cell_source(i, wi, twi, oxi, oyi) < n by {
            lemma_split_offset(i, wi);
            let p = i / 4;
            let a = p % wi - oxi;
            let b = p / wi - oyi;
            assert(rgba_offset(twi, a, b, i % 4) < twi * thi * 4) by (nonlinear_arith)
                requires 0 <= a < twi, 0 <= b < thi, 0 <= i % 4 < 4;
        }
        assert(sheet@ =~= pasted(start, wi, tile@, twi, thi, oxi, oyi));
    }
}

/// The RGBA pixels of the PNG `png` resized to exactly `width` x `height`
/// with the Lanczos3 filter; `None` when `png` is not a readable PNG.
pub uninterp spec fn png_thumbnail_rgba(png: Seq<u8>, width: u32, height: u32) -> Option<Seq<u8>>;

/// The PNG encoding of `width` x `height` RGBA `pixels`; `None` when the
/// encoder fails.
pub uninterp spec fn png_encoding(pixels: Seq<u8>, width: u32, height: u32) -> Option<Seq<u8>>;

/// `image::load_from_memory_with_format(png, Png)`, then `resize_exact(width,
/// height, Lanczos3)`, `to_rgba8()` and `into_raw()`: the resized image's
/// pixels, four bytes each, row by row. A function of its arguments.
#[verifier::external_body]
fn thumbnail_rgba(png: &[u8], width: u32, height: u32) -> (r: Option<Vec<u8>>)
    requires
        width > 0,
        height > 0,
    ensures
        match r {
            Some(v) => png_thumbnail_rgba(png@, width, height) == Some(v@),
            None => png_thumbnail_rgba(png@, width, height) is None,
        },
        r matches Some(v) ==> v@.len() == width as int * height as int * 4,
{
    let image = image::load_from_memory_with_format(png, image::ImageFormat::Png).ok()?;
    Some(image.resize_exact(width, height, image::imageops::FilterType::Lanczos3).to_rgba8().into_raw())
}

/// `image::RgbaImage::from_raw(width, height, pixels)` written as PNG by
/// `write_to` into memory. A function of its arguments.
#[verifier::external_body]
fn encode_png(pixels: &Vec<u8>, width: u32, height: u32) -> (r: Option<Vec<u8>>)
    requires
        pixels@.len() == width as int * height as int * 4,
    ensures
        match r {
            Some(v) => png_encoding(pixels@, width, height) == Some(v@),
            None => png_encoding(pixels@, width, height) is None,
        },
{
    let image = image::RgbaImage::from_raw(width, height, pixels.clone())?;
    let mut out = std::io::Cursor::new(Vec::new());
    image.write_to(&mut out, image::ImageFormat::Png).ok()?;
    Some(out.into_inner())
}

/// Width of a contact sheet in pixels.
pub open spec fn sheet_width() -> int {
    CONTACT_CELL_WIDTH * CONTACT_COLUMNS
}

/// The sheet's pixels after the first `k` slides: a transparent sheet of
/// `rows` rows of cells, then each slide's thumbnail pasted into the cell of
/// its index; `None` when a slide is not a readable PNG or its cell is not
/// on the sheet.
pub open spec fn sheet_after(pngs: Seq<Seq<u8>>, indices: Seq<u32>, rows: nat, k: int) -> Option<Seq<u8>>
    decreases k,
{
    if k <= 0 {
        Some(Seq::new((sheet_width() * CONTACT_CELL_HEIGHT * rows * 4) as nat, |i: int| 0u8))
    } else {
        match sheet_after(pngs, indices, rows, k - 1) {
            None => None,
            Some(sheet) => match png_thumbnail_rgba(pngs[k - 1], CONTACT_CELL_WIDTH, CONTACT_CELL_HEIGHT) {
                None => None,
                Some(tile) => if indices[k - 1] > CONTACT_COLUMNS * rows {
                    None
                } else {
                    let cell = contact_cell_of(indices[k - 1] as int);
                    Some(pasted(sheet, sheet_width(), tile, CONTACT_CELL_WIDTH as int, CONTACT_CELL_HEIGHT as int, cell.0, cell.1))
                },
            },
        }
    }
}

/// The contact sheet PNG of the slides `pngs` with their 1-based `indices`
/// on `rows` rows of cells.
pub open spec fn contact_sheet_png(pngs: Seq<Seq<u8>>, indices: Seq<u32>, rows: nat) -> Option<Seq<u8>> {
    match sheet_after(pngs, indices, rows, pngs.len() as int) {
        None => None,
        Some(pixels) => png_encoding(pixels, sheet_width() as u32, (CONTACT_CELL_HEIGHT * rows) as u32),
    }
}

/// The slides as plain byte sequences.
pub open spec fn png_views(pngs: Seq<Vec<u8>>) -> Seq<Seq<u8>> {
    pngs.map_values(|v: Vec<u8>| v@)
}

/// Draws the rendered slides (PNG files, slide `indices[k]` in `pngs[k]`)
/// onto a sheet of `rows` rows of three 320x180 cells: each slide resized to
/// its cell, in order, then the sheet encoded as PNG. `None` when a slide is
/// not a readable PNG, its cell is not on the sheet, or encoding fails.
pub fn compose_contact_sheet(pngs: &Vec<Vec<u8>>, indices: &Vec<u32>, rows: u32) -> (r: Option<Vec<u8>>)
    requires
        pngs@.len() == indices@.len(),
        forall|k: int| 0 <= k < indices@.len() ==> #[trigger] indices@[k] >= 1,
        CONTACT_CELL_HEIGHT * rows <= u32::MAX,
        sheet_width() * CONTACT_CELL_HEIGHT * rows * 4 <= usize::MAX,
    ensures
        match r {
            Some(v) => contact_sheet_png(png_views(pngs@), indices@, rows as nat) == Some(v@),
            None => contact_sheet_png(png_views(pngs@), indices@, rows as nat) is None,
        },
{
    let ghost pv = png_views(pngs@);
    let height: u32 = CONTACT_CELL_HEIGHT * rows;
    let width: u32 = CONTACT_CELL_WIDTH * CONTACT_COLUMNS;
    proof {
        assert(width as int * height as int * 4 == sheet_width() * CONTACT_CELL_HEIGHT * rows * 4) by (nonlinear_arith)
            requires
                width == 960,
                height == 180 * rows,
        ;
        assert(width as int * height as int <= width as int * height as int * 4) by (nonlinear_arith);
    }
    let size: usize = (width as usize) * (height as usize) * 4;
    let mut sheet: Vec<u8> = Vec::new();
    while sheet.len() < size
        invariant
            size == sheet_width() * CONTACT_CELL_HEIGHT * rows * 4,
            sheet@.len() <= size,
            forall|i: int| 0 <= i < sheet@.len() ==> sheet@[i] == 0u8,
        decreases size - sheet.len(),
    {
        sheet.push(0u8);
    }
    assert(sheet@ =~= sheet_after(pv, indices@, rows as nat, 0)->0);
    let mut k: usize = 0;
    while k < pngs.len()
        invariant
            k <= pngs@.len(),
            pngs@.len() == indices@.len(),
            pv == png_views(pngs@),
            forall|m: int| 0 <= m < indices@.len() ==> #[trigger] indices@[m] >= 1,
            width == sheet_width(),
            height == CONTACT_CELL_HEIGHT * rows,
            width as int * height as int * 4 <= usize::MAX,
            sheet_after(pv, indices@, rows as nat, k as int) == Some(sheet@),
            sheet@.len() == width as int * height as int * 4,
        decreases pngs.len() - k,
    {
        assert(pv[k as int] == pngs@[k as int]@);
        let tile = match thumbnail_rgba(pngs[k].as_slice(), CONTACT_CELL_WIDTH, CONTACT_CELL_HEIGHT) {
            Some(t) => t,
            None => {
                proof {
                    lemma_sheet_after_fails(pv, indices@, rows as nat, k as int + 1, pv.len() as int);
                }
                return None;
            },
        };
        let index = indices[k];
        if index > CONTACT_COLUMNS * rows {
            proof {
                lemma_sheet_after_fails(pv, indices@, rows as nat, k as int + 1, pv.len() as int);
            }
            return None;
        }
        proof {
            assert(indices@[k as int] >= 1);
        }
        let position: u32 = index - 1;
        let ox: u32 = (position % CONTACT_COLUMNS) * CONTACT_CELL_WIDTH;
        let oy: u32 = (position / CONTACT_COLUMNS) * CONTACT_CELL_HEIGHT;
        proof {
            assert(oy as int + CONTACT_CELL_HEIGHT <= height) by (nonlinear_arith)
                requires
                    position < 3 * rows,
                    oy == (position / 3) * 180,
                    height == 180 * rows,
            ;
        }
        paste_tile(&mut sheet, width, height, &tile, CONTACT_CELL_WIDTH, CONTACT_CELL_HEIGHT, ox, oy);
        k += 1;
    }
    encode_png(&sheet, width, height)
}

/// Once a step fails, every later sheet fails too.
proof fn lemma_sheet_after_fails(pngs: Seq<Seq<u8>>, indices: Seq<u32>, rows: nat, k: int, n: int)
    requires
        sheet_after(pngs, indices, rows, k) is None,
        k <= n,
        k > 0,
    ensures
        sheet_after(pngs, indices, rows, n) is None,
    decreases n - k,
{
    if k < n {
        lemma_sheet_after_fails(pngs, indices, rows, k + 1, n);
    }
}

} // verus!
