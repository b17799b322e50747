//! Pixel transforms on RGBA buffers: turning an image upright by its EXIF
//! orientation, and magnifying a crop by whole pixels.
use vstd::prelude::*;

use crate::decode::{DecodedImage, Orientation};

verus! {

/// Whether an orientation swaps width and height.
pub open spec fn transposes(o: Orientation) -> bool {
    o == Orientation::Rotate90 || o == Orientation::Rotate270 || o == Orientation::Transpose || o
        == Orientation::Transverse
}

/// Where the pixel at (`x`, `y`) of a `w` by `h` image lands once turned upright.
pub open spec fn oriented_position(o: Orientation, x: int, y: int, w: int, h: int) -> (int, int) {
    match o {
        Orientation::FlipH => (w - 1 - x, y),
        Orientation::Rotate180 => (w - 1 - x, h - 1 - y),
        Orientation::FlipV => (x, h - 1 - y),
        Orientation::Transpose => (y, x),
        Orientation::Rotate90 => (h - 1 - y, x),
        Orientation::Transverse => (h - 1 - y, w - 1 - x),
        Orientation::Rotate270 => (y, w - 1 - x),
        Orientation::Normal => (x, y),
    }
}

/// Which pixel of a `w` by `h` image lands at (`x`, `y`) once turned upright.
pub open spec fn source_position(o: Orientation, x: int, y: int, w: int, h: int) -> (int, int) {
    match o {
        Orientation::FlipH => (w - 1 - x, y),
        Orientation::Rotate180 => (w - 1 - x, h - 1 - y),
        Orientation::FlipV => (x, h - 1 - y),
        Orientation::Transpose => (y, x),
        Orientation::Rotate90 => (y, h - 1 - x),
        Orientation::Transverse => (w - 1 - y, h - 1 - x),
        Orientation::Rotate270 => (w - 1 - y, x),
        Orientation::Normal => (x, y),
    }
}

/// Channel `c` of the pixel at (`x`, `y`) of an RGBA buffer `width` pixels wide.
pub open spec fn pixel_byte(rgba: Seq<u8>, width: int, x: int, y: int, c: int) -> u8 {
    rgba[(y * width + x) * 4 + c]
}

proof fn lemma_row_major_bound(x: int, y: int, w: int, h: int)
    requires
        0 <= x < w,
        0 <= y < h,
    ensures
        0 <= y * w + x < w * h,
        (y * w + x) * 4 + 3 < w * h * 4,
{
    assert(0 <= y * w) by (nonlinear_arith)
        requires
            0 <= y,
            0 <= w,
    ;
    assert(y * w + x < (y + 1) * w) by (nonlinear_arith)
        requires
            x < w,
    ;
    assert((y + 1) * w <= h * w) by (nonlinear_arith)
        requires
            y + 1 <= h,
            0 <= w,
    ;
    assert(w * h == h * w) by (nonlinear_arith);
    assert((y * w + x) * 4 + 3 < w * h * 4) by (nonlinear_arith)
        requires
            y * w + x < w * h,
    ;
}

proof fn lemma_row_major_before(x1: int, y1: int, x2: int, y2: int, w: int)
    requires
        0 <= x1 < w,
        0 <= x2 < w,
        0 <= y1,
        0 <= y2,
        y1 < y2 || (y1 == y2 && x1 < x2),
    ensures
        y1 * w + x1 < y2 * w + x2,
{
    if y1 < y2 {
        assert(y1 * w + x1 < (y1 + 1) * w) by (nonlinear_arith)
            requires
                x1 < w,
        ;
        assert((y1 + 1) * w <= y2 * w) by (nonlinear_arith)
            requires
                y1 + 1 <= y2,
                0 <= w,
        ;
    }
}

proof fn lemma_positions_inverse(o: Orientation, x: int, y: int, w: int, h: int)
    requires
        0 <= x < w,
        0 <= y < h,
    ensures
        ({
            let ow = if transposes(o) {
                h
            } else {
                w
            };
            let oh = if transposes(o) {
                w
            } else {
                h
            };
            let d = oriented_position(o, x, y, w, h);
            &&& 0 <= d.0 < ow
            &&& 0 <= d.1 < oh
            &&& source_position(o, d.0, d.1, w, h) == (x, y)
        }),
{
}

/// Whether `dst`, `dw` by `dh`, is `src`, `w` by `h`, turned upright by
/// orientation `o`, as `apply_orientation` turns it.
pub open spec fn is_oriented(
    o: Orientation,
    src: Seq<u8>,
    w: int,
    h: int,
    dst: Seq<u8>,
    dw: int,
    dh: int,
) -> bool {
    if o == Orientation::Normal {
        dw == w && dh == h && dst == src
    } else {
        &&& dw == (if transposes(o) {
            h
        } else {
            w
        })
        &&& dh == (if transposes(o) {
            w
        } else {
            h
        })
        &&& dst.len() == w * h * 4
        &&& forall|x: int, y: int, c: int|
            0 <= x < w && 0 <= y < h && 0 <= c < 4 ==> pixel_byte(
                dst,
                dw,
                oriented_position(o, x, y, w, h).0,
                oriented_position(o, x, y, w, h).1,
                c,
            ) == #[trigger] pixel_byte(src, w, x, y, c)
    }
}

/// The orientation that turns an image back: a quarter turn one way undoes
/// one the other way; every other orientation undoes itself.
pub open spec fn turned_back(o: Orientation) -> Orientation {
    match o {
        Orientation::Rotate90 => Orientation::Rotate270,
        Orientation::Rotate270 => Orientation::Rotate90,
        _ => o,
    }
}

proof fn lemma_split_index(k: int, w: int, h: int)
    requires
        0 <= k < w * h * 4,
        w > 0,
        h > 0,
    ensures
        ({
            let x = (k / 4) % w;
            let y = (k / 4) / w;
            &&& 0 <= x < w
            &&& 0 <= y < h
            &&& 0 <= k % 4 < 4
            &&& k == (y * w + x) * 4 + k % 4
        }),
{
    let p = k / 4;
    vstd::arithmetic::div_mod::lemma_fundamental_div_mod(k, 4);
    vstd::arithmetic::div_mod::lemma_fundamental_div_mod(p, w);
    assert(0 <= p < w * h) by (nonlinear_arith)
        requires
            0 <= k < w * h * 4,
            k == 4 * (k / 4) + k % 4,
            0 <= k % 4 < 4,
            p == k / 4,
    ;
    assert(0 <= p / w < h) by (nonlinear_arith)
        requires
            0 <= p < w * h,
            w > 0,
            p == w * (p / w) + p % w,
            0 <= p % w < w,
    ;
    let x = p % w;
    let y = p / w;
    assert(k == (y * w + x) * 4 + k % 4) by (nonlinear_arith)
        requires
            k == 4 * p + k % 4,
            p == w * y + x,
    ;
    vstd::arithmetic::div_mod::lemma_mod_bound(k, 4);
    vstd::arithmetic::div_mod::lemma_mod_bound(p, w);
}

/// Turning an image and then turning it back gives the image again.
pub proof fn law_turn_back(
    o: Orientation,
    a: Seq<u8>,
    w: int,
    h: int,
    b: Seq<u8>,
    bw: int,
    bh: int,
    c: Seq<u8>,
    cw: int,
    ch: int,
)
    requires
        0 <= w,
        0 <= h,
        a.len() == w * h * 4,
        is_oriented(o, a, w, h, b, bw, bh),
        is_oriented(turned_back(o), b, bw, bh, c, cw, ch),
    ensures
        cw == w,
        ch == h,
        c == a,
{
    if o != Orientation::Normal {
        assert(bw * bh == w * h) by (nonlinear_arith)
            requires
                (bw == w && bh == h) || (bw == h && bh == w),
        ;
        assert(c.len() == a.len());
        if w > 0 && h > 0 {
            assert forall|k: int| 0 <= k < a.len() implies c[k] == a[k] by {
                lemma_split_index(k, w, h);
                let x = (k / 4) % w;
                let y = (k / 4) / w;
                let q = k % 4;
                let d = oriented_position(o, x, y, w, h);
                lemma_positions_inverse(o, x, y, w, h);
                assert(pixel_byte(a, w, x, y, q) == a[k]);
                assert(pixel_byte(b, bw, d.0, d.1, q) == pixel_byte(a, w, x, y, q));
                assert(oriented_position(turned_back(o), d.0, d.1, bw, bh) == (x, y));
                assert(pixel_byte(c, cw, x, y, q) == pixel_byte(b, bw, d.0, d.1, q));
            }
        } else {
            assert(a.len() == 0) by (nonlinear_arith)
                requires
                    a.len() == w * h * 4,
                    w == 0 || h == 0,
            ;
        }
        assert(c =~= a);
    }
}

/// Where every pixel of a source is put is where another image has it:
/// the two images are the same.
proof fn lemma_oriented_equal(
    o: Orientation,
    a: Seq<u8>,
    w: int,
    h: int,
    d: Seq<u8>,
    dw: int,
    dh: int,
    c: Seq<u8>,
)
    requires
        w > 0,
        h > 0,
        o != Orientation::Normal,
        a.len() == w * h * 4,
        is_oriented(o, a, w, h, d, dw, dh),
        c.len() == w * h * 4,
        forall|x: int, y: int, q: int|
            0 <= x < w && 0 <= y < h && 0 <= q < 4 ==> pixel_byte(
                c,
                dw,
                oriented_position(o, x, y, w, h).0,
                oriented_position(o, x, y, w, h).1,
                q,
            ) == #[trigger] pixel_byte(a, w, x, y, q),
    ensures
        c == d,
{
    assert(dw * dh == w * h) by (nonlinear_arith)
        requires
            (dw == w && dh == h) || (dw == h && dh == w),
    ;
    assert(dw > 0 && dh > 0);
    assert forall|k: int| 0 <= k < c.len() implies c[k] == d[k] by {
        lemma_split_index(k, dw, dh);
        let x2 = (k / 4) % dw;
        let y2 = (k / 4) / dw;
        let q = k % 4;
        let src = source_position(o, x2, y2, w, h);
        assert(0 <= src.0 < w && 0 <= src.1 < h);
        assert(oriented_position(o, src.0, src.1, w, h) == (x2, y2));
        let v = pixel_byte(a, w, src.0, src.1, q);
        assert(pixel_byte(c, dw, x2, y2, q) == v);
        assert(pixel_byte(d, dw, x2, y2, q) == v);
        assert(pixel_byte(c, dw, x2, y2, q) == c[k]);
        assert(pixel_byte(d, dw, x2, y2, q) == d[k]);
    }
    assert(c =~= d);
}

/// Turning by `o1` and then by `o2` gives the image that turning by `o3`
/// gives, where every pixel lands at the same place either way.
proof fn lemma_composed_turns(
    o1: Orientation,
    o2: Orientation,
    o3: Orientation,
    a: Seq<u8>,
    w: int,
    h: int,
    b: Seq<u8>,
    bw: int,
    bh: int,
    c: Seq<u8>,
    cw: int,
    ch: int,
    d: Seq<u8>,
    dw: int,
    dh: int,
)
    requires
        w > 0,
        h > 0,
        o1 != Orientation::Normal,
        o2 != Orientation::Normal,
        o3 != Orientation::Normal,
        a.len() == w * h * 4,
        is_oriented(o1, a, w, h, b, bw, bh),
        is_oriented(o2, b, bw, bh, c, cw, ch),
        is_oriented(o3, a, w, h, d, dw, dh),
        cw == dw,
        ch == dh,
        forall|x: int, y: int|
            0 <= x < w && 0 <= y < h ==> #[trigger] oriented_position(o3, x, y, w, h)
                == oriented_position(
                o2,
                oriented_position(o1, x, y, w, h).0,
                oriented_position(o1, x, y, w, h).1,
                bw,
                bh,
            ),
    ensures
        c == d,
{
    assert(bw * bh == w * h) by (nonlinear_arith)
        requires
            (bw == w && bh == h) || (bw == h && bh == w),
    ;
    assert forall|x: int, y: int, q: int|
        0 <= x < w && 0 <= y < h && 0 <= q < 4 implies pixel_byte(
        c,
        dw,
        oriented_position(o3, x, y, w, h).0,
        oriented_position(o3, x, y, w, h).1,
        q,
    ) == #[trigger] pixel_byte(a, w, x, y, q) by {
        let p = oriented_position(o1, x, y, w, h);
        lemma_positions_inverse(o1, x, y, w, h);
        assert(pixel_byte(b, bw, p.0, p.1, q) == pixel_byte(a, w, x, y, q));
        assert(oriented_position(o3, x, y, w, h) == oriented_position(o2, p.0, p.1, bw, bh));
    }
    lemma_oriented_equal(o3, a, w, h, d, dw, dh, c);
}

/// A half turn is a mirror left to right followed by a mirror top to
/// bottom: pixel (x, y) of a `w` by `h` image ends at (w-1-x, h-1-y).
pub proof fn law_half_turn_is_both_mirrors(
    a: Seq<u8>,
    w: int,
    h: int,
    b: Seq<u8>,
    bw: int,
    bh: int,
    c: Seq<u8>,
    cw: int,
    ch: int,
    d: Seq<u8>,
    dw: int,
    dh: int,
)
    requires
        0 <= w,
        0 <= h,
        a.len() == w * h * 4,
        is_oriented(Orientation::FlipH, a, w, h, b, bw, bh),
        is_oriented(Orientation::FlipV, b, bw, bh, c, cw, ch),
        is_oriented(Orientation::Rotate180, a, w, h, d, dw, dh),
    ensures
        cw == dw,
        ch == dh,
        c == d,
{
    if w > 0 && h > 0 {
        lemma_composed_turns(
            Orientation::FlipH,
            Orientation::FlipV,
            Orientation::Rotate180,
            a, w, h, b, bw, bh, c, cw, ch, d, dw, dh,
        );
    } else {
        assert(w * h == 0 && bw * bh == 0) by (nonlinear_arith)
            requires
                w == 0 || h == 0,
                (bw == w && bh == h) || (bw == h && bh == w),
        ;
        assert(c =~= d);
    }
}

/// Two quarter turns make a half turn.
pub proof fn law_two_quarter_turns_make_a_half_turn(
    a: Seq<u8>,
    w: int,
    h: int,
    b: Seq<u8>,
    bw: int,
    bh: int,
    c: Seq<u8>,
    cw: int,
    ch: int,
    d: Seq<u8>,
    dw: int,
    dh: int,
)
    requires
        0 <= w,
        0 <= h,
        a.len() == w * h * 4,
        is_oriented(Orientation::Rotate90, a, w, h, b, bw, bh),
        is_oriented(Orientation::Rotate90, b, bw, bh, c, cw, ch),
        is_oriented(Orientation::Rotate180, a, w, h, d, dw, dh),
    ensures
        cw == dw,
        ch == dh,
        c == d,
{
    if w > 0 && h > 0 {
        lemma_composed_turns(
            Orientation::Rotate90,
            Orientation::Rotate90,
            Orientation::Rotate180,
            a, w, h, b, bw, bh, c, cw, ch, d, dw, dh,
        );
    } else {
        assert(w * h == 0 && bw * bh == 0) by (nonlinear_arith)
            requires
                w == 0 || h == 0,
                (bw == w && bh == h) || (bw == h && bh == w),
        ;
        assert(c =~= d);
    }
}

/// A transpose is a quarter turn followed by a mirror left to right, and a
/// transverse is a quarter turn the other way followed by the same mirror.
pub proof fn law_transposes_are_turned_mirrors(
    o: Orientation,
    a: Seq<u8>,
    w: int,
    h: int,
    b: Seq<u8>,
    bw: int,
    bh: int,
    c: Seq<u8>,
    cw: int,
    ch: int,
    d: Seq<u8>,
    dw: int,
    dh: int,
)
    requires
        o == Orientation::Rotate90 || o == Orientation::Rotate270,
        0 <= w,
        0 <= h,
        a.len() == w * h * 4,
        is_oriented(o, a, w, h, b, bw, bh),
        is_oriented(Orientation::FlipH, b, bw, bh, c, cw, ch),
        is_oriented(
            if o == Orientation::Rotate90 {
                Orientation::Transpose
            } else {
                Orientation::Transverse
            },
            a,
            w,
            h,
            d,
            dw,
            dh,
        ),
    ensures
        cw == dw,
        ch == dh,
        c == d,
{
    let t = if o == Orientation::Rotate90 {
        Orientation::Transpose
    } else {
        Orientation::Transverse
    };
    if w > 0 && h > 0 {
        lemma_composed_turns(o, Orientation::FlipH, t, a, w, h, b, bw, bh, c, cw, ch, d, dw, dh);
    } else {
        assert(w * h == 0 && bw * bh == 0) by (nonlinear_arith)
            requires
                w == 0 || h == 0,
                (bw == w && bh == h) || (bw == h && bh == w),
        ;
        assert(c =~= d);
    }
}

/// The image turned upright by its orientation: every pixel moved to where
/// `oriented_position` puts it; width and height swap for the orientations
/// that transpose.
pub fn apply_orientation(image: &DecodedImage, orientation: Orientation) -> (r: DecodedImage)
    requires
        orientation != Orientation::Normal ==> image.rgba@.len() >= (image.width as int) * (
        image.height as int) * 4 && (image.width as int) * (image.height as int) * 4 <= usize::MAX,
    ensures
        orientation == Orientation::Normal ==> r.width == image.width && r.height == image.height
            && r.rgba@ == image.rgba@,
        orientation != Orientation::Normal ==> {
            let w = image.width as int;
            let h = image.height as int;
            &&& r.width == (if transposes(orientation) {
                image.height
            } else {
                image.width
            })
            &&& r.height == (if transposes(orientation) {
                image.width
            } else {
                image.height
            })
            &&& r.rgba@.len() == w * h * 4
            &&& forall|x: int, y: int, c: int|
                0 <= x < w && 0 <= y < h && 0 <= c < 4 ==> pixel_byte(
                    r.rgba@,
                    r.width as int,
                    oriented_position(orientation, x, y, w, h).0,
                    oriented_position(orientation, x, y, w, h).1,
                    c,
                ) == #[trigger] pixel_byte(image.rgba@, w, x, y, c)
        },
        is_oriented(
            orientation,
            image.rgba@,
            image.width as int,
            image.height as int,
            r.rgba@,
            r.width as int,
            r.height as int,
        ),
{
    if orientation == Orientation::Normal {
        return DecodedImage { rgba: image.rgba.clone(), width: image.width, height: image.height };
    }
    let w: usize = image.width as usize;
    let h: usize = image.height as usize;
    let t = match orientation {
        Orientation::Rotate90 | Orientation::Rotate270 | Orientation::Transpose
        | Orientation::Transverse => true,
        _ => false,
    };
    let out_w: usize = if t {
        h
    } else {
        w
    };
    let out_h: usize = if t {
        w
    } else {
        h
    };
    let ghost wi = w as int;
    let ghost hi = h as int;
    proof {
        assert(out_w * out_h == wi * hi) by (nonlinear_arith)
            requires
                (out_w == wi && out_h == hi) || (out_w == hi && out_h == wi),
        ;
    }
    let mut out: Vec<u8> = Vec::new();
    let mut y: usize = 0;
    while y < out_h
        invariant
            w == image.width,
            h == image.height,
            wi == w,
            hi == h,
            t == transposes(orientation),
            out_w == (if t { h } else { w }),
            out_h == (if t { w } else { h }),
            out_w * out_h == wi * hi,
            orientation != Orientation::Normal,
            image.rgba@.len() >= wi * hi * 4,
            wi * hi * 4 <= usize::MAX,
            y <= out_h,
            out@.len() == (y * out_w) * 4,
            forall|px: int, py: int, c: int|
                0 <= px < out_w && 0 <= py < y && 0 <= c < 4 ==> #[trigger] pixel_byte(
                    out@,
                    out_w as int,
                    px,
                    py,
                    c,
                ) == pixel_byte(
                    image.rgba@,
                    wi,
                    source_position(orientation, px, py, wi, hi).0,
                    source_position(orientation, px, py, wi, hi).1,
                    c,
                ),
        decreases out_h - y,
    {
        let mut x: usize = 0;
        while x < out_w
            invariant
                w == image.width,
                h == image.height,
                wi == w,
                hi == h,
                t == transposes(orientation),
                out_w == (if t { h } else { w }),
                out_h == (if t { w } else { h }),
                out_w * out_h == wi * hi,
                orientation != Orientation::Normal,
                image.rgba@.len() >= wi * hi * 4,
                wi * hi * 4 <= usize::MAX,
                y < out_h,
                x <= out_w,
                out@.len() == (y * out_w + x) * 4,
                forall|px: int, py: int, c: int|
                    0 <= px < out_w && 0 <= py < y && 0 <= c < 4 ==> #[trigger] pixel_byte(
                        out@,
                        out_w as int,
                        px,
                        py,
                        c,
                    ) == pixel_byte(
                        image.rgba@,
                        wi,
                        source_position(orientation, px, py, wi, hi).0,
                        source_position(orientation, px, py, wi, hi).1,
                        c,
                    ),
                forall|px: int, c: int|
                    0 <= px < x && 0 <= c < 4 ==> #[trigger] pixel_byte(out@, out_w as int, px, y as int, c)
                        == pixel_byte(
                        image.rgba@,
                        wi,
                        source_position(orientation, px, y as int, wi, hi).0,
                        source_position(orientation, px, y as int, wi, hi).1,
                        c,
                    ),
            decreases out_w - x,
        {
            let (sx, sy): (usize, usize) = match orientation {
                Orientation::FlipH => (w - 1 - x, y),
                Orientation::Rotate180 => (w - 1 - x, h - 1 - y),
                Orientation::FlipV => (x, h - 1 - y),
                Orientation::Transpose => (y, x),
                Orientation::Rotate90 => (y, h - 1 - x),
                Orientation::Transverse => (w - 1 - y, h - 1 - x),
                Orientation::Rotate270 => (w - 1 - y, x),
                Orientation::Normal => (x, y),
            };
            assert(source_position(orientation, x as int, y as int, wi, hi) == (sx as int, sy as int));
            assert(sx < w && sy < h);
            proof {
                lemma_row_major_bound(sx as int, sy as int, wi, hi);
                lemma_row_major_bound(x as int, y as int, out_w as int, out_h as int);
            }
            let base: usize = (sy * w + sx) * 4;
            let ghost before = out@;
            out.push(image.rgba[base]);
            out.push(image.rgba[base + 1]);
            out.push(image.rgba[base + 2]);
            out.push(image.rgba[base + 3]);
            proof {
                let here = y * out_w + x;
                assert forall|px: int, py: int, c: int|
                    0 <= px < out_w && 0 <= py < y && 0 <= c < 4 implies #[trigger] pixel_byte(
                    out@,
                    out_w as int,
                    px,
                    py,
                    c,
                ) == pixel_byte(
                    image.rgba@,
                    wi,
                    source_position(orientation, px, py, wi, hi).0,
                    source_position(orientation, px, py, wi, hi).1,
                    c,
                ) by {
                    assert(pixel_byte(before, out_w as int, px, py, c) == pixel_byte(
                        image.rgba@,
                        wi,
                        source_position(orientation, px, py, wi, hi).0,
                        source_position(orientation, px, py, wi, hi).1,
                        c,
                    ));
                    lemma_row_major_before(px, py, x as int, y as int, out_w as int);
                    assert((py * out_w + px) * 4 + c < here * 4) by (nonlinear_arith)
                        requires
                            py * out_w + px < here,
                            c < 4,
                    ;
                }
                assert forall|px: int, c: int|
                    0 <= px < x + 1 && 0 <= c < 4 implies #[trigger] pixel_byte(
                    out@,
                    out_w as int,
                    px,
                    y as int,
                    c,
                ) == pixel_byte(
                    image.rgba@,
                    wi,
                    source_position(orientation, px, y as int, wi, hi).0,
                    source_position(orientation, px, y as int, wi, hi).1,
                    c,
                ) by {
                    if px < x {
                        assert(pixel_byte(before, out_w as int, px, y as int, c) == pixel_byte(
                            image.rgba@,
                            wi,
                            source_position(orientation, px, y as int, wi, hi).0,
                            source_position(orientation, px, y as int, wi, hi).1,
                            c,
                        ));
                        lemma_row_major_before(px, y as int, x as int, y as int, out_w as int);
                        assert((y * out_w + px) * 4 + c < here * 4) by (nonlinear_arith)
                            requires
                                y * out_w + px < here,
                                c < 4,
                        ;
                    } else {
                        assert((y * out_w + px) * 4 + c == here * 4 + c);
                    }
                }
            }
            x = x + 1;
        }
        proof {
            assert(((y + 1) * out_w) * 4 == (y * out_w + out_w) * 4) by (nonlinear_arith);
        }
        y = y + 1;
    }
    proof {
        assert(out@.len() == wi * hi * 4) by (nonlinear_arith)
            requires
                out@.len() == (out_h * out_w) * 4,
                out_w * out_h == wi * hi,
        ;
        assert forall|x: int, yy: int, c: int| 0 <= x < wi && 0 <= yy < hi && 0 <= c < 4 implies pixel_byte(
            out@,
            out_w as int,
            oriented_position(orientation, x, yy, wi, hi).0,
            oriented_position(orientation, x, yy, wi, hi).1,
            c,
        ) == #[trigger] pixel_byte(image.rgba@, wi, x, yy, c) by {
            lemma_positions_inverse(orientation, x, yy, wi, hi);
            let d = oriented_position(orientation, x, yy, wi, hi);
            assert(source_position(orientation, d.0, d.1, wi, hi) == (x, yy));
            assert(pixel_byte(out@, out_w as int, d.0, d.1, c) == pixel_byte(
                image.rgba@,
                wi,
                source_position(orientation, d.0, d.1, wi, hi).0,
                source_position(orientation, d.0, d.1, wi, hi).1,
                c,
            ));
        }
    }
    DecodedImage { rgba: out, width: out_w as u32, height: out_h as u32 }
}


/// The part of a `w` by `h` image a crop covers, clipped to the image:
/// left, top, width and height.
pub open spec fn crop_box(w: int, h: int, crop: (u32, u32, u32, u32)) -> (int, int, int, int) {
    let cx = if crop.0 < w {
        crop.0 as int
    } else {
        w
    };
    let cy = if crop.1 < h {
        crop.1 as int
    } else {
        h
    };
    let cw = if crop.2 < w - cx {
        crop.2 as int
    } else {
        w - cx
    };
    let ch = if crop.3 < h - cy {
        crop.3 as int
    } else {
        h - cy
    };
    (cx, cy, cw, ch)
}

/// The magnification used: `factor`, and at least 1.
pub open spec fn magnification(factor: u32) -> int {
    if factor < 1 {
        1
    } else {
        factor as int
    }
}

/// The crop of an image magnified `factor` times by repeating pixels: the
/// pixel at (`x`, `y`) of the result is the crop's pixel at (`x / f`, `y / f`).
/// An empty crop gives an empty image, and the whole image at factor 1 a copy.
pub fn magnify_nearest_crop(image: &DecodedImage, crop: (u32, u32, u32, u32), factor: u32) -> (r: DecodedImage)
    requires
        ({
            let b = crop_box(image.width as int, image.height as int, crop);
            let f = magnification(factor);
            b.2 == 0 || b.3 == 0 || (image.rgba@.len() >= ((b.1 + b.3 - 1) * (image.width as int) + b.0
                + b.2) * 4 && (b.2 * f) * (b.3 * f) * 4 <= usize::MAX)
        }),
    ensures
        ({
            let w = image.width as int;
            let h = image.height as int;
            let b = crop_box(w, h, crop);
            let f = magnification(factor);
            if b.2 == 0 || b.3 == 0 {
                r.width == 0 && r.height == 0 && r.rgba@.len() == 0
            } else if f == 1 && b.0 == 0 && b.1 == 0 && b.2 == w && b.3 == h {
                r.width == image.width && r.height == image.height && r.rgba@ == image.rgba@
            } else {
                &&& r.width == (b.2 * f) as u32
                &&& r.height == (b.3 * f) as u32
                &&& r.rgba@.len() == (b.2 * f) * (b.3 * f) * 4
                &&& forall|x: int, y: int, c: int|
                    0 <= x < b.2 * f && 0 <= y < b.3 * f && 0 <= c < 4 ==> #[trigger] pixel_byte(
                        r.rgba@,
                        b.2 * f,
                        x,
                        y,
                        c,
                    ) == pixel_byte(image.rgba@, w, b.0 + x / f, b.1 + y / f, c)
            }
        }),
{
    let w: usize = image.width as usize;
    let h: usize = image.height as usize;
    let cx: usize = if (crop.0 as usize) < w {
        crop.0 as usize
    } else {
        w
    };
    let cy: usize = if (crop.1 as usize) < h {
        crop.1 as usize
    } else {
        h
    };
    let cw: usize = if (crop.2 as usize) < w - cx {
        crop.2 as usize
    } else {
        w - cx
    };
    let ch: usize = if (crop.3 as usize) < h - cy {
        crop.3 as usize
    } else {
        h - cy
    };
    let f: usize = if factor < 1 {
        1
    } else {
        factor as usize
    };
    if cw == 0 || ch == 0 {
        return DecodedImage { width: 0, height: 0, rgba: Vec::new() };
    }
    if f == 1 && cx == 0 && cy == 0 && cw == w && ch == h {
        return DecodedImage { rgba: image.rgba.clone(), width: image.width, height: image.height };
    }
    proof {
        assert(cw * f <= (cw * f) * (ch * f)) by (nonlinear_arith)
            requires
                cw >= 1,
                ch >= 1,
                f >= 1,
        ;
        assert(ch * f <= (cw * f) * (ch * f)) by (nonlinear_arith)
            requires
                cw >= 1,
                ch >= 1,
                f >= 1,
        ;
    }
    let out_w: usize = cw * f;
    let out_h: usize = ch * f;
    let n: usize = image.rgba.len();
    let ghost wi = w as int;
    let mut out: Vec<u8> = Vec::new();
    let mut y: usize = 0;
    while y < out_h
        invariant
            w == image.width,
            wi == w,
            f >= 1,
            cw >= 1,
            ch >= 1,
            out_w == cw * f,
            out_h == ch * f,
            out_w * out_h * 4 <= usize::MAX,
            image.rgba@.len() >= ((cy + ch - 1) * wi + cx + cw) * 4,
            cx + cw <= w,
            cy + ch <= image.height,
            n == image.rgba@.len(),
            y <= out_h,
            out@.len() == (y * out_w) * 4,
            forall|px: int, py: int, c: int|
                0 <= px < out_w && 0 <= py < y && 0 <= c < 4 ==> #[trigger] pixel_byte(
                    out@,
                    out_w as int,
                    px,
                    py,
                    c,
                ) == pixel_byte(image.rgba@, wi, cx + px / (f as int), cy + py / (f as int), c),
        decreases out_h - y,
    {
        proof {
            assert(y / f < ch) by (nonlinear_arith)
                requires
                    y < ch * f,
                    f >= 1,
            ;
        }
        let sy: usize = cy + y / f;
        let mut x: usize = 0;
        while x < out_w
            invariant
                w == image.width,
                wi == w,
                f >= 1,
                cw >= 1,
                ch >= 1,
                out_w == cw * f,
                out_h == ch * f,
                out_w * out_h * 4 <= usize::MAX,
                image.rgba@.len() >= ((cy + ch - 1) * wi + cx + cw) * 4,
                cx + cw <= w,
                cy + ch <= image.height,
                n == image.rgba@.len(),
                y < out_h,
                sy == cy + y / f,
                y / f < ch,
                x <= out_w,
                out@.len() == (y * out_w + x) * 4,
                forall|px: int, py: int, c: int|
                    0 <= px < out_w && 0 <= py < y && 0 <= c < 4 ==> #[trigger] pixel_byte(
                        out@,
                        out_w as int,
                        px,
                        py,
                        c,
                    ) == pixel_byte(image.rgba@, wi, cx + px / (f as int), cy + py / (f as int), c),
                forall|px: int, c: int|
                    0 <= px < x && 0 <= c < 4 ==> #[trigger] pixel_byte(out@, out_w as int, px, y as int, c)
                        == pixel_byte(image.rgba@, wi, cx + px / (f as int), sy as int, c),
            decreases out_w - x,
        {
            proof {
                assert(x / f < cw) by (nonlinear_arith)
                    requires
                        x < cw * f,
                        f >= 1,
                ;
            }
            let sx: usize = cx + x / f;
            proof {
                assert(sy * wi <= (cy + ch - 1) * wi) by (nonlinear_arith)
                    requires
                        sy <= cy + ch - 1,
                        wi >= 0,
                ;
                assert(sy * wi + sx <= (cy + ch - 1) * wi + cx + cw - 1);
                assert((sy * wi + sx) * 4 + 3 < image.rgba@.len());
                assert((y * out_w + x) * 4 + 4 <= out_w * out_h * 4) by (nonlinear_arith)
                    requires
                        x < out_w,
                        y < out_h,
                ;
            }
            let base: usize = (sy * w + sx) * 4;
            let ghost before = out@;
            out.push(image.rgba[base]);
            out.push(image.rgba[base + 1]);
            out.push(image.rgba[base + 2]);
            out.push(image.rgba[base + 3]);
            proof {
                let here = y * out_w + x;
                assert forall|px: int, py: int, c: int|
                    0 <= px < out_w && 0 <= py < y && 0 <= c < 4 implies #[trigger] pixel_byte(
                    out@,
                    out_w as int,
                    px,
                    py,
                    c,
                ) == pixel_byte(image.rgba@, wi, cx + px / (f as int), cy + py / (f as int), c) by {
                    assert(pixel_byte(before, out_w as int, px, py, c) == pixel_byte(
                        image.rgba@,
                        wi,
                        cx + px / (f as int),
                        cy + py / (f as int),
                        c,
                    ));
                    lemma_row_major_before(px, py, x as int, y as int, out_w as int);
                    assert((py * out_w + px) * 4 + c < here * 4) by (nonlinear_arith)
                        requires
                            py * out_w + px < here,
                            c < 4,
                    ;
                }
                assert forall|px: int, c: int|
                    0 <= px < x + 1 && 0 <= c < 4 implies #[trigger] pixel_byte(
                    out@,
                    out_w as int,
                    px,
                    y as int,
                    c,
                ) == pixel_byte(image.rgba@, wi, cx + px / (f as int), sy as int, c) by {
                    if px < x {
                        assert(pixel_byte(before, out_w as int, px, y as int, c) == pixel_byte(
                            image.rgba@,
                            wi,
                            cx + px / (f as int),
                            sy as int,
                            c,
                        ));
                        lemma_row_major_before(px, y as int, x as int, y as int, out_w as int);
                        assert((y * out_w + px) * 4 + c < here * 4) by (nonlinear_arith)
                            requires
                                y * out_w + px < here,
                                c < 4,
                        ;
                    } else {
                        assert((y * out_w + px) * 4 + c == here * 4 + c);
                    }
                }
            }
            x = x + 1;
        }
        proof {
            assert(((y + 1) * out_w) * 4 == (y * out_w + out_w) * 4) by (nonlinear_arith);
        }
        y = y + 1;
    }
    proof {
        assert(out@.len() == out_w * out_h * 4) by (nonlinear_arith)
            requires
                out@.len() == (out_h * out_w) * 4,
        ;
    }
    DecodedImage { width: out_w as u32, height: out_h as u32, rgba: out }
}

/// The whole image magnified `factor` times by repeating pixels.
pub fn magnify_nearest(image: &DecodedImage, factor: u32) -> (r: DecodedImage)
    requires
        ({
            let w = image.width as int;
            let h = image.height as int;
            let f = magnification(factor);
            w == 0 || h == 0 || (image.rgba@.len() >= w * h * 4 && (w * f) * (h * f) * 4 <= usize::MAX)
        }),
    ensures
        ({
            let w = image.width as int;
            let h = image.height as int;
            let f = magnification(factor);
            if w == 0 || h == 0 {
                r.width == 0 && r.height == 0 && r.rgba@.len() == 0
            } else if f == 1 {
                r.width == image.width && r.height == image.height && r.rgba@ == image.rgba@
            } else {
                &&& r.width == (w * f) as u32
                &&& r.height == (h * f) as u32
                &&& r.rgba@.len() == (w * f) * (h * f) * 4
                &&& forall|x: int, y: int, c: int|
                    0 <= x < w * f && 0 <= y < h * f && 0 <= c < 4 ==> #[trigger] pixel_byte(
                        r.rgba@,
                        w * f,
                        x,
                        y,
                        c,
                    ) == pixel_byte(image.rgba@, w, x / f, y / f, c)
            }
        }),
{
    proof {
        let w = image.width as int;
        let h = image.height as int;
        if w > 0 && h > 0 {
            assert((h - 1) * w + w == w * h) by (nonlinear_arith);
        }
    }
    magnify_nearest_crop(image, (0, 0, image.width, image.height), factor)
}


/// RGBA bytes reordered to BGRA: in every whole group of four bytes the
/// first and third trade places; a trailing partial group is kept as it is.
pub open spec fn bgra_of(b: Seq<u8>) -> Seq<u8> {
    Seq::new(
        b.len(),
        |i: int|
            if i < b.len() - b.len() % 4 && i % 4 == 0 {
                b[i + 2]
            } else if i < b.len() - b.len() % 4 && i % 4 == 2 {
                b[i - 2]
            } else {
                b[i]
            },
    )
}

/// Reorders RGBA bytes to BGRA in place.
pub fn swap_red_blue(buffer: &mut Vec<u8>)
    ensures
        final(buffer)@ == bgra_of(old(buffer)@),
{
    let ghost orig = buffer@;
    let n = buffer.len();
    let whole = n - n % 4;
    let mut i: usize = 0;
    while i < whole
        invariant
            n == orig.len(),
            buffer@.len() == n,
            whole == n - n % 4,
            i % 4 == 0,
            i <= whole,
            forall|k: int| 0 <= k < i ==> buffer@[k] == #[trigger] bgra_of(orig)[k],
            forall|k: int| i <= k < n ==> buffer@[k] == orig[k],
        decreases whole - i,
    {
        let r = buffer[i];
        let b = buffer[i + 2];
        buffer.set(i, b);
        buffer.set(i + 2, r);
        proof {
            assert forall|k: int| 0 <= k < i + 4 implies buffer@[k] == #[trigger] bgra_of(orig)[k] by {
                if k >= i {
                    assert(k % 4 == (k - i) % 4) by (nonlinear_arith)
                        requires
                            i % 4 == 0,
                            k >= i,
                    ;
                }
            }
        }
        i = i + 4;
    }
    proof {
        assert forall|k: int| 0 <= k < n implies buffer@[k] == #[trigger] bgra_of(orig)[k] by {
            if k >= i {
                assert(!(k < n - n % 4));
            }
        }
        assert(buffer@ =~= bgra_of(orig));
    }
}

} // verus!
