//! The raster target: the one surface a rasterization pass mutates.
//!
//! Workers compute pixel sets without touching it; each accepted triangle is
//! then written in a single [`Frame::write_pixels`] call, so one triangle's
//! write is atomic with respect to the others however writes are
//! interleaved.  [`lemma_disjoint_paints_commute`] states that for triangles
//! with disjoint pixel sets the write order does not matter at all.

use crate::mesh::{paints_of, Color, TrianglePaint};
use crate::num::lemma_mul_bound;
use crate::raster::Pixel;
use vstd::prelude::*;

verus! {

/// The row-major backing-store cell of a pixel in a `width`-wide frame.
pub open spec fn pix_index(p: Pixel, width: int) -> int {
    p.y * width + p.x
}

/// The pixel list `pts` covers backing-store cell `i` of a `width`-wide
/// frame.
pub open spec fn covers(pts: Seq<Pixel>, width: int, i: int) -> bool {
    exists|k: int| 0 <= k < pts.len() && pix_index(#[trigger] pts[k], width) == i
}

/// One paint step over the backing store: every cell covered by `pts` takes
/// the color `c`, every other cell keeps its value.
pub open spec fn paint(data: Seq<Color>, width: int, pts: Seq<Pixel>, c: Color) -> Seq<Color> {
    Seq::new(
        data.len(),
        |i: int|
            if covers(pts, width, i) {
                c
            } else {
                data[i]
            },
    )
}

/// Law: painting two pixel lists that cover no common cell gives the same
/// frame in either order.  This is why a dispatcher may write independent
/// triangles in whatever order its workers finish: when no pixels overlap,
/// every interleaving of whole-triangle writes produces the sequential
/// result.
pub proof fn lemma_disjoint_paints_commute(
    data: Seq<Color>,
    width: int,
    a: Seq<Pixel>,
    ca: Color,
    b: Seq<Pixel>,
    cb: Color,
)
    requires
        forall|i: int| !(#[trigger] covers(a, width, i) && covers(b, width, i)),
    ensures
        paint(paint(data, width, a, ca), width, b, cb) == paint(
            paint(data, width, b, cb),
            width,
            a,
            ca,
        ),
{
    let lhs = paint(paint(data, width, a, ca), width, b, cb);
    let rhs = paint(paint(data, width, b, cb), width, a, ca);
    assert forall|i: int| 0 <= i < data.len() implies lhs[i] == rhs[i] by {
        assert(!(covers(a, width, i) && covers(b, width, i)));
    }
    assert(lhs =~= rhs);
}

/// A list of triangle contributions painted onto the backing store in list
/// order: the sequential dispatch of one frame.
pub open spec fn paint_all(
    data: Seq<Color>,
    width: int,
    paints: Seq<(Seq<Pixel>, Color)>,
) -> Seq<Color>
    decreases paints.len(),
{
    if paints.len() == 0 {
        data
    } else {
        paint(
            paint_all(data, width, paints.drop_last()),
            width,
            paints.last().0,
            paints.last().1,
        )
    }
}

/// Law: swapping two adjacent, pixel-disjoint entries of the paint list
/// leaves the finished frame unchanged.  Applied repeatedly, this is the
/// order independence of dispatching independent triangles: every schedule
/// of whole-triangle writes that a worker pool can produce is a chain of
/// such swaps away from the sequential order.
pub proof fn lemma_paint_all_swap_adjacent(
    data: Seq<Color>,
    width: int,
    paints: Seq<(Seq<Pixel>, Color)>,
    j: int,
)
    requires
        0 <= j < paints.len() - 1,
        forall|i: int| !(#[trigger] covers(paints[j].0, width, i) && covers(paints[j + 1].0, width, i)),
    ensures
        paint_all(data, width, paints.update(j, paints[j + 1]).update(j + 1, paints[j]))
            == paint_all(data, width, paints),
    decreases paints.len(),
{
    let swapped = paints.update(j, paints[j + 1]).update(j + 1, paints[j]);
    if j == paints.len() - 2 {
        let prefix = paints.drop_last().drop_last();
        assert(swapped.drop_last().drop_last() =~= prefix);
        assert(swapped.drop_last() =~= prefix.push(paints[j + 1]));
        assert(paints.drop_last() =~= prefix.push(paints[j]));
        let base = paint_all(data, width, prefix);
        assert(prefix.push(paints[j + 1]).drop_last() =~= prefix);
        assert(prefix.push(paints[j]).drop_last() =~= prefix);
        assert(paint_all(data, width, swapped.drop_last()) == paint(
            base,
            width,
            paints[j + 1].0,
            paints[j + 1].1,
        ));
        assert(paint_all(data, width, paints.drop_last()) == paint(
            base,
            width,
            paints[j].0,
            paints[j].1,
        ));
        lemma_disjoint_paints_commute(
            base,
            width,
            paints[j].0,
            paints[j].1,
            paints[j + 1].0,
            paints[j + 1].1,
        );
        assert(swapped.last() == paints[j]);
        assert(paints.last() == paints[j + 1]);
    } else {
        assert(paints.drop_last()[j] == paints[j]);
        assert(paints.drop_last()[j + 1] == paints[j + 1]);
        lemma_paint_all_swap_adjacent(data, width, paints.drop_last(), j);
        assert(swapped.drop_last() =~= paints.drop_last().update(j, paints[j + 1]).update(
            j + 1,
            paints[j],
        ));
        assert(swapped.last() == paints.last());
    }
}

/// Every pixel of `pts` lies within a `width` by `height` target.
pub open spec fn pixels_within_spec(pts: Seq<Pixel>, width: int, height: int) -> bool {
    forall|k: int| 0 <= k < pts.len() ==> (#[trigger] pts[k]).x < width && pts[k].y < height
}

/// Whether every pixel of `pts` lies within a `width` by `height` target:
/// the runtime check for [`Frame::write_pixels`]'s precondition.
pub fn pixels_within(pts: &Vec<Pixel>, width: u16, height: u16) -> (b: bool)
    ensures
        b == pixels_within_spec(pts@, width as int, height as int),
{
    let mut k: usize = 0;
    while k < pts.len()
        invariant
            k <= pts@.len(),
            forall|j: int|
                0 <= j < k ==> (#[trigger] pts@[j]).x < width && pts@[j].y < height,
        decreases pts@.len() - k,
    {
        let p = pts[k];
        if p.x >= width || p.y >= height {
            return false;
        }
        k = k + 1;
    }
    true
}

/// A width-by-height pixel surface, stored row-major.
pub struct Frame {
    width: u16,
    height: u16,
    data: Vec<Color>,
}

impl Frame {
    pub closed spec fn spec_width(self) -> u16 {
        self.width
    }

    pub closed spec fn spec_height(self) -> u16 {
        self.height
    }

    pub closed spec fn spec_data(self) -> Seq<Color> {
        self.data@
    }

    pub open spec fn wf(self) -> bool {
        &&& self.spec_width() >= 1
        &&& self.spec_height() >= 1
        &&& self.spec_data().len() == self.spec_width() * self.spec_height()
    }

    /// The color of the pixel in column `x` of row `y`.
    pub open spec fn spec_pixel(self, x: int, y: int) -> Color {
        self.spec_data()[y * (self.spec_width() as int) + x]
    }

    /// A frame filled with the background color.
    pub fn new(width: u16, height: u16, background: Color) -> (r: Frame)
        requires
            width >= 1,
            height >= 1,
        ensures
            r.wf(),
            r.spec_width() == width,
            r.spec_height() == height,
            forall|i: int| 0 <= i < r.spec_data().len() ==> r.spec_data()[i] == background,
    {
        proof {
            lemma_mul_bound(width as int, height as int, 0xFFFF, 0xFFFF);
        }
        let n: usize = (width as usize) * (height as usize);
        let mut data: Vec<Color> = Vec::new();
        let mut k: usize = 0;
        while k < n
            invariant
                k <= n,
                data@.len() == k,
                forall|i: int| 0 <= i < k ==> data@[i] == background,
            decreases n - k,
        {
            data.push(background);
            k = k + 1;
        }
        Frame { width, height, data }
    }

    pub fn width(&self) -> (r: u16)
        ensures
            r == self.spec_width(),
    {
        self.width
    }

    pub fn height(&self) -> (r: u16)
        ensures
            r == self.spec_height(),
    {
        self.height
    }

    pub fn get_pixel(&self, x: u16, y: u16) -> (r: Color)
        requires
            self.wf(),
            x < self.spec_width(),
            y < self.spec_height(),
        ensures
            r == self.spec_pixel(x as int, y as int),
    {
        proof {
            lemma_mul_bound(y as int, self.spec_width() as int, 0xFFFE, 0xFFFF);
            lemma_mul_bound(y + 1, self.spec_width() as int, 0xFFFF, 0xFFFF)
        }
        let idx: usize = (y as usize) * (self.width as usize) + (x as usize);
        proof {
            assert((y + 1) * (self.spec_width() as int) == y * (self.spec_width() as int)
                + self.spec_width()) by (nonlinear_arith);
            assert((y + 1) * (self.spec_width() as int) <= (self.spec_height() as int) * (
            self.spec_width() as int)) by (nonlinear_arith)
                requires
                    y + 1 <= self.spec_height() as int,
                    0 <= self.spec_width() as int,
            ;
            assert((self.spec_height() as int) * (self.spec_width() as int) == (
            self.spec_width() as int) * (self.spec_height() as int)) by (nonlinear_arith);
        }
        self.data[idx]
    }

    /// Write one triangle's pixels in the given color: exactly one paint
    /// step of the backing store.
    pub fn write_pixels(&mut self, pts: &Vec<Pixel>, c: Color)
        requires
            old(self).wf(),
            pixels_within_spec(pts@, old(self).spec_width() as int, old(self).spec_height() as int),
        ensures
            final(self).wf(),
            final(self).spec_width() == old(self).spec_width(),
            final(self).spec_height() == old(self).spec_height(),
            final(self).spec_data() == paint(
                old(self).spec_data(),
                old(self).spec_width() as int,
                pts@,
                c,
            ),
    {
        let ghost orig = self.spec_data();
        let ghost gw = self.spec_width() as int;
        let w = self.width;
        let h = self.height;
        let mut k: usize = 0;
        proof {
            assert(self.spec_data() =~= paint(orig, gw, pts@.take(0), c));
        }
        while k < pts.len()
            invariant
                k <= pts@.len(),
                self.width == w,
                self.height == h,
                self.wf(),
                gw == w as int,
                self.spec_data().len() == orig.len(),
                pixels_within_spec(pts@, w as int, h as int),
                self.spec_data() == paint(orig, gw, pts@.take(k as int), c),
            decreases pts@.len() - k,
        {
            let p = pts[k];
            proof {
                lemma_mul_bound(p.y as int, w as int, 0xFFFE, 0xFFFF);
                assert((p.y + 1) * gw == p.y * gw + gw) by (nonlinear_arith);
                assert((p.y + 1) * gw <= (h as int) * gw) by (nonlinear_arith)
                    requires
                        p.y + 1 <= h as int,
                        0 <= gw,
                ;
                assert((h as int) * gw == (w as int) * (h as int)) by (nonlinear_arith)
                    requires
                        gw == w as int,
                ;
            }
            let idx: usize = (p.y as usize) * (w as usize) + (p.x as usize);
            let ghost before = self.spec_data();
            self.data[idx] = c;
            proof {
                let next = paint(orig, gw, pts@.take(k as int + 1), c);
                assert forall|i: int| 0 <= i < orig.len() implies next[i]
                    == self.spec_data()[i] by {
                    assert(pts@.take(k as int + 1)[k as int] == pts@[k as int]);
                    assert(forall|j: int|
                        0 <= j < k ==> pts@.take(k as int + 1)[j] == #[trigger] pts@.take(
                            k as int,
                        )[j]);
                    if i == idx as int {
                        assert(pix_index(pts@.take(k as int + 1)[k as int], gw) == i);
                        assert(covers(pts@.take(k as int + 1), gw, i));
                    } else {
                        if covers(pts@.take(k as int + 1), gw, i) {
                            let j = choose|j: int|
                                0 <= j < pts@.take(k as int + 1).len() && pix_index(
                                    #[trigger] pts@.take(k as int + 1)[j],
                                    gw,
                                ) == i;
                            assert(j < k);
                            assert(pix_index(pts@.take(k as int)[j], gw) == i);
                            assert(covers(pts@.take(k as int), gw, i));
                        }
                        if covers(pts@.take(k as int), gw, i) {
                            let j = choose|j: int|
                                0 <= j < pts@.take(k as int).len() && pix_index(
                                    #[trigger] pts@.take(k as int)[j],
                                    gw,
                                ) == i;
                            assert(pix_index(pts@.take(k as int + 1)[j], gw) == i);
                            assert(covers(pts@.take(k as int + 1), gw, i));
                        }
                    }
                }
                assert(self.spec_data() =~= next);
            }
            k = k + 1;
        }
        proof {
            assert(pts@.take(k as int) =~= pts@);
        }
    }

    /// Write a whole frame's triangle contributions in list order: the
    /// sequential dispatch, exactly [`paint_all`] of the backing store.
    pub fn write_all(&mut self, paints: &Vec<TrianglePaint>)
        requires
            old(self).wf(),
            forall|j: int|
                0 <= j < paints@.len() ==> pixels_within_spec(
                    (#[trigger] paints@[j]).pixels@,
                    old(self).spec_width() as int,
                    old(self).spec_height() as int,
                ),
        ensures
            final(self).wf(),
            final(self).spec_width() == old(self).spec_width(),
            final(self).spec_height() == old(self).spec_height(),
            final(self).spec_data() == paint_all(
                old(self).spec_data(),
                old(self).spec_width() as int,
                paints_of(paints@),
            ),
    {
        let ghost orig = self.spec_data();
        let ghost gw = self.spec_width() as int;
        let ghost gh = self.spec_height() as int;
        let mut k: usize = 0;
        proof {
            assert(paints_of(paints@).take(0) =~= Seq::<(Seq<Pixel>, Color)>::empty());
        }
        while k < paints.len()
            invariant
                k <= paints@.len(),
                self.wf(),
                self.spec_width() as int == gw,
                self.spec_height() as int == gh,
                forall|j: int|
                    0 <= j < paints@.len() ==> pixels_within_spec(
                        (#[trigger] paints@[j]).pixels@,
                        gw,
                        gh,
                    ),
                self.spec_data() == paint_all(orig, gw, paints_of(paints@).take(k as int)),
            decreases paints@.len() - k,
        {
            let tp = &paints[k];
            self.write_pixels(&tp.pixels, tp.color);
            proof {
                let all = paints_of(paints@);
                assert(all[k as int] == (paints@[k as int].pixels@, paints@[k as int].color));
                assert(all.take(k as int + 1).drop_last() =~= all.take(k as int));
                assert(all.take(k as int + 1).last() == all[k as int]);
            }
            k = k + 1;
        }
        proof {
            assert(paints_of(paints@).take(k as int) =~= paints_of(paints@));
        }
    }
}

} // verus!
