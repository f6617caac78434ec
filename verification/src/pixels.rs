//! Pixel work for a layered window: the alpha mask of the shown frame, hit
//! testing against it, and the rectangles of the window region.
use vstd::prelude::*;

verus! {

/// A pixel stops clicks (belongs to the window) from this alpha on.
pub const HIT_ALPHA: u8 = 128;

/// The last index at or after `x` in the row that starts at `base` up to
/// which the pixels stop clicks.
pub open spec fn run_end(a: Seq<u8>, base: int, x: int, w: int) -> int
    decreases w - x,
{
    if x >= w || a[base + x] < HIT_ALPHA {
        x
    } else {
        run_end(a, base, x + 1, w)
    }
}

pub proof fn lemma_run_end(a: Seq<u8>, base: int, x: int, w: int)
    requires
        x <= w,
    ensures
        x <= run_end(a, base, x, w) <= w,
        forall|j: int| base + x <= j < base + run_end(a, base, x, w) ==> #[trigger] a[j] >= HIT_ALPHA,
        run_end(a, base, x, w) < w ==> a[base + run_end(a, base, x, w)] < HIT_ALPHA,
        x < w && a[base + x] >= HIT_ALPHA ==> run_end(a, base, x, w) > x,
    decreases w - x,
{
    if x < w && a[base + x] >= HIT_ALPHA {
        lemma_run_end(a, base, x + 1, w);
    }
}

/// The runs of click-stopping pixels in row `y` (which starts at `base` in
/// the mask) from column `x` on, as rectangles `(left, top, right, bottom)`.
pub open spec fn row_runs(a: Seq<u8>, base: int, x: int, w: int, y: int) -> Seq<(i32, i32, i32, i32)>
    decreases w - x,
{
    if x >= w {
        Seq::empty()
    } else if a[base + x] < HIT_ALPHA {
        row_runs(a, base, x + 1, w, y)
    } else {
        let e = run_end(a, base, x, w);
        proof {
            lemma_run_end(a, base, x, w);
        }
        seq![(x as i32, y as i32, e as i32, (y + 1) as i32)] + row_runs(a, base, e, w, y)
    }
}

/// The runs of the first `h` rows of a mask `w` pixels wide, row by row.
pub open spec fn mask_runs(a: Seq<u8>, w: int, h: int) -> Seq<(i32, i32, i32, i32)>
    decreases h,
{
    if h <= 0 {
        Seq::empty()
    } else {
        mask_runs(a, w, h - 1) + row_runs(a, (h - 1) * w, 0, w, h - 1)
    }
}

/// The alpha channel of the frame a window shows, the rectangles of its
/// click-stopping pixels that its window region was last built from.
pub struct AlphaMask {
    width: i32,
    height: i32,
    alpha: Vec<u8>,
    hits: Vec<(i32, i32, i32, i32)>,
}

impl AlphaMask {
    #[verifier::type_invariant]
    spec fn inv(self) -> bool {
        &&& self.width >= 1
        &&& self.height >= 1
        &&& self.width * self.height <= i32::MAX
        &&& self.alpha@.len() == self.width * self.height
    }

    /// The width in pixels.
    pub closed spec fn spec_width(&self) -> int {
        self.width as int
    }

    /// The height in pixels.
    pub closed spec fn spec_height(&self) -> int {
        self.height as int
    }

    /// The alpha values, row by row.
    pub closed spec fn spec_alpha(&self) -> Seq<u8> {
        self.alpha@
    }

    /// The rectangles the window region was last built from.
    pub closed spec fn spec_hits(&self) -> Seq<(i32, i32, i32, i32)> {
        self.hits@
    }

    /// Whether the mask holds the pixel `(x, y)` and it stops clicks.
    pub open spec fn hits_pixel(&self, x: int, y: int) -> bool {
        &&& 0 <= x < self.spec_width()
        &&& 0 <= y < self.spec_height()
        &&& self.spec_alpha()[y * self.spec_width() + x] >= HIT_ALPHA
    }

    /// A transparent 1 x 1 mask.
    pub fn new() -> (m: AlphaMask)
        ensures
            m.spec_width() == 1,
            m.spec_height() == 1,
            m.spec_alpha() == seq![0u8],
            m.spec_hits().len() == 0,
    {
        let mut alpha: Vec<u8> = Vec::new();
        alpha.push(0);
        AlphaMask { width: 1, height: 1, alpha, hits: Vec::new() }
    }

    pub fn width(&self) -> (r: i32)
        ensures
            r == self.spec_width(),
    {
        self.width
    }

    pub fn height(&self) -> (r: i32)
        ensures
            r == self.spec_height(),
    {
        self.height
    }

    /// The rectangles the window region was last built from.
    pub fn hits(&self) -> (r: &Vec<(i32, i32, i32, i32)>)
        ensures
            r@ == self.spec_hits(),
    {
        &self.hits
    }

    /// A transparent mask for a window of the new size; the region cache is
    /// emptied.
    pub fn resize(&mut self, width: i32, height: i32)
        requires
            width >= 1,
            height >= 1,
            width * height <= i32::MAX,
        ensures
            final(self).spec_width() == width,
            final(self).spec_height() == height,
            final(self).spec_alpha() == Seq::new((width * height) as nat, |i: int| 0u8),
            final(self).spec_hits().len() == 0,
    {
        let n = (width * height) as usize;
        let mut alpha: Vec<u8> = Vec::new();
        let mut i: usize = 0;
        while i < n
            invariant
                i <= n,
                alpha@ == Seq::new(i as nat, |k: int| 0u8),
            decreases n - i,
        {
            alpha.push(0);
            assert(alpha@ =~= Seq::new(i as nat + 1, |k: int| 0u8));
            i = i + 1;
        }
        *self = AlphaMask { width, height, alpha, hits: Vec::new() };
    }

    /// Hit test: whether the pixel `(x, y)` of the window stops clicks;
    /// pixels outside the window never do.
    pub fn hit_test_alpha(&self, x: i32, y: i32) -> (r: bool)
        ensures
            r == self.hits_pixel(x as int, y as int),
    {
        proof {
            use_type_invariant(self);
        }
        if x < 0 || y < 0 || x >= self.width || y >= self.height {
            return false;
        }
        proof {
            assert(y * self.width + x < self.width * self.height) by (nonlinear_arith)
                requires
                    0 <= x < self.width,
                    0 <= y < self.height,
            ;
        }
        self.alpha[(y * self.width + x) as usize] >= HIT_ALPHA
    }

    /// Takes the alpha channel of a frame of BGRA pixels the size of the
    /// mask, row by row.
    pub fn capture_alpha(&mut self, bits: &[u8])
        requires
            bits@.len() >= old(self).spec_width() * old(self).spec_height() * 4,
        ensures
            final(self).spec_width() == old(self).spec_width(),
            final(self).spec_height() == old(self).spec_height(),
            final(self).spec_hits() == old(self).spec_hits(),
            final(self).spec_alpha() == Seq::new(
                (old(self).spec_width() * old(self).spec_height()) as nat,
                |i: int| bits@[i * 4 + 3],
            ),
    {
        proof {
            use_type_invariant(&*self);
        }
        let n = self.alpha.len();
        let bl = bits.len();
        let mut alpha: Vec<u8> = Vec::new();
        let mut i: usize = 0;
        while i < n
            invariant
                i <= n,
                bl == bits@.len(),
                n == self.alpha@.len(),
                bits@.len() >= n * 4,
                alpha@ == Seq::new(i as nat, |k: int| bits@[k * 4 + 3]),
            decreases n - i,
        {
            alpha.push(bits[i * 4 + 3]);
            assert(alpha@ =~= Seq::new(i as nat + 1, |k: int| bits@[k * 4 + 3]));
            i = i + 1;
        }
        self.alpha = alpha;
    }

    /// Recomputes the rectangles of the click-stopping pixels; returns
    /// whether the window region must be rebuilt from them: they changed
    /// and at least one pixel stops clicks (a transparent frame keeps the
    /// region it had).
    pub fn update_hit_region(&mut self) -> (rebuild: bool)
        ensures
            final(self).spec_width() == old(self).spec_width(),
            final(self).spec_height() == old(self).spec_height(),
            final(self).spec_alpha() == old(self).spec_alpha(),
            final(self).spec_hits() == mask_runs(
                old(self).spec_alpha(),
                old(self).spec_width(),
                old(self).spec_height(),
            ),
            rebuild == (final(self).spec_hits() != old(self).spec_hits()
                && final(self).spec_hits().len() > 0),
    {
        proof {
            use_type_invariant(&*self);
        }
        let runs = self.compute_runs();
        if runs_equal(&runs, &self.hits) {
            return false;
        }
        let nonempty = runs.len() > 0;
        self.hits = runs;
        nonempty
    }

    fn compute_runs(&self) -> (runs: Vec<(i32, i32, i32, i32)>)
        ensures
            runs@ == mask_runs(self.spec_alpha(), self.spec_width(), self.spec_height()),
    {
        proof {
            use_type_invariant(self);
        }
        let w = self.width as usize;
        let h = self.height as usize;
        let ghost a = self.alpha@;
        let mut runs: Vec<(i32, i32, i32, i32)> = Vec::new();
        let mut y: usize = 0;
        while y < h
            invariant
                y <= h,
                w == self.width,
                h == self.height,
                w * h <= i32::MAX,
                a == self.alpha@,
                a.len() == w * h,
                runs@ == mask_runs(a, w as int, y as int),
            decreases h - y,
        {
            proof {
                assert(y * w + w <= w * h) by (nonlinear_arith)
                    requires
                        y < h,
                ;
            }
            let base = y * w;
            let ghost start = runs@;
            let mut x: usize = 0;
            while x < w
                invariant
                    x <= w,
                    y < h,
                    w == self.width,
                    h == self.height,
                    w * h <= i32::MAX,
                    base == y * w,
                    base + w <= w * h,
                    a == self.alpha@,
                    a.len() == w * h,
                    runs@ + row_runs(a, base as int, x as int, w as int, y as int) == start
                        + row_runs(a, base as int, 0, w as int, y as int),
                decreases w - x,
            {
                if self.alpha[base + x] < HIT_ALPHA {
                    x = x + 1;
                } else {
                    let s = x;
                    proof {
                        lemma_run_end(a, base as int, s as int, w as int);
                    }
                    while x < w && self.alpha[base + x] >= HIT_ALPHA
                        invariant
                            s <= x <= w,
                            base + w <= a.len(),
                            a.len() <= i32::MAX,
                            a == self.alpha@,
                            run_end(a, base as int, x as int, w as int) == run_end(
                                a,
                                base as int,
                                s as int,
                                w as int,
                            ),
                        decreases w - x,
                    {
                        x = x + 1;
                    }
                    let ghost before = runs@;
                    runs.push((s as i32, y as i32, x as i32, y as i32 + 1));
                    assert(runs@ + row_runs(a, base as int, x as int, w as int, y as int) =~= before
                        + row_runs(a, base as int, s as int, w as int, y as int));
                }
            }
            proof {
                assert(runs@ =~= runs@ + row_runs(a, base as int, x as int, w as int, y as int));
                assert(mask_runs(a, w as int, y as int + 1) == mask_runs(a, w as int, y as int)
                    + row_runs(a, (y as int) * (w as int), 0, w as int, y as int));
            }
            y = y + 1;
        }
        runs
    }
}

/// Whether two lists of rectangles are the same.
fn runs_equal(a: &Vec<(i32, i32, i32, i32)>, b: &Vec<(i32, i32, i32, i32)>) -> (r: bool)
    ensures
        r == (a@ == b@),
{
    if a.len() != b.len() {
        return false;
    }
    let mut i: usize = 0;
    while i < a.len()
        invariant
            i <= a@.len(),
            a@.len() == b@.len(),
            forall|j: int| 0 <= j < i ==> a@[j] == b@[j],
        decreases a@.len() - i,
    {
        let p = a[i];
        let q = b[i];
        if p.0 != q.0 || p.1 != q.1 || p.2 != q.2 || p.3 != q.3 {
            return false;
        }
        i = i + 1;
    }
    assert(a@ =~= b@);
    true
}

} // verus!

verus! {

/// Whether one of the rectangles holds the pixel `(x, y)`.
pub open spec fn covers(runs: Seq<(i32, i32, i32, i32)>, x: int, y: int) -> bool {
    exists|k: int|
        0 <= k < runs.len() && #[trigger] runs[k].1 == y && runs[k].0 <= x < runs[k].2
}

proof fn lemma_row_runs(a: Seq<u8>, base: int, x0: int, w: int, y: int)
    requires
        0 <= x0 <= w <= i32::MAX,
        0 <= base,
        base + w <= a.len(),
        0 <= y < i32::MAX,
    ensures
        forall|k: int|
            0 <= k < row_runs(a, base, x0, w, y).len() ==> {
                let r = #[trigger] row_runs(a, base, x0, w, y)[k];
                &&& r.1 == y
                &&& r.3 == y + 1
                &&& x0 <= r.0 < r.2 <= w
            },
        forall|x: int|
            x0 <= x < w ==> (#[trigger] a[base + x] >= HIT_ALPHA <==> covers(
                row_runs(a, base, x0, w, y),
                x,
                y,
            )),
    decreases w - x0,
{
    let rr = row_runs(a, base, x0, w, y);
    if x0 >= w {
    } else if a[base + x0] < HIT_ALPHA {
        lemma_row_runs(a, base, x0 + 1, w, y);
        assert(rr == row_runs(a, base, x0 + 1, w, y));
        assert forall|x: int| x0 <= x < w implies (#[trigger] a[base + x] >= HIT_ALPHA <==> covers(
            rr,
            x,
            y,
        )) by {
            if x == x0 {
                if covers(rr, x, y) {
                    let k = choose|k: int|
                        0 <= k < rr.len() && #[trigger] rr[k].1 == y && rr[k].0 <= x < rr[k].2;
                    assert(rr[k].0 >= x0 + 1);
                }
            }
        }
    } else {
        let e = run_end(a, base, x0, w);
        lemma_run_end(a, base, x0, w);
        lemma_row_runs(a, base, e, w, y);
        let rest = row_runs(a, base, e, w, y);
        let first = (x0 as i32, y as i32, e as i32, (y + 1) as i32);
        assert(rr == seq![first] + rest);
        assert forall|k: int| 0 <= k < rr.len() implies {
            let r = #[trigger] rr[k];
            &&& r.1 == y
            &&& r.3 == y + 1
            &&& x0 <= r.0 < r.2 <= w
        } by {
            if k > 0 {
                assert(rr[k] == rest[k - 1]);
            }
        }
        assert forall|x: int| x0 <= x < w implies (#[trigger] a[base + x] >= HIT_ALPHA <==> covers(
            rr,
            x,
            y,
        )) by {
            if x < e {
                assert(a[base + x] >= HIT_ALPHA);
                assert(rr[0] == first);
                assert(covers(rr, x, y));
            } else {
                if covers(rest, x, y) {
                    let k = choose|k: int|
                        0 <= k < rest.len() && #[trigger] rest[k].1 == y && rest[k].0 <= x
                            < rest[k].2;
                    assert(rr[k + 1] == rest[k]);
                }
                if covers(rr, x, y) {
                    let k = choose|k: int|
                        0 <= k < rr.len() && #[trigger] rr[k].1 == y && rr[k].0 <= x < rr[k].2;
                    if k == 0 {
                        assert(rr[0] == first);
                    } else {
                        assert(rr[k] == rest[k - 1]);
                    }
                }
            }
        }
    }
}

/// The window region built from the rectangles of a mask holds exactly the
/// pixels that the hit test accepts: every rectangle is one row of pixels
/// inside the mask, and a pixel lies in some rectangle exactly when it is
/// inside the mask and stops clicks.
pub proof fn lemma_region_matches_hit_test(a: Seq<u8>, w: int, h: int)
    requires
        w >= 1,
        h >= 0,
        w * h <= i32::MAX,
        a.len() == w * h,
    ensures
        forall|k: int|
            0 <= k < mask_runs(a, w, h).len() ==> {
                let r = #[trigger] mask_runs(a, w, h)[k];
                &&& 0 <= r.1 < h
                &&& r.3 == r.1 + 1
                &&& 0 <= r.0 < r.2 <= w
            },
        forall|x: int, y: int|
            #![trigger covers(mask_runs(a, w, h), x, y)]
            covers(mask_runs(a, w, h), x, y) <==> (0 <= x < w && 0 <= y < h && a[y * w + x]
                >= HIT_ALPHA),
    decreases h,
{
    let m = mask_runs(a, w, h);
    if h > 0 {
        let y = h - 1;
        assert(w <= w * h) by (nonlinear_arith)
            requires
                h >= 1,
                w >= 1,
        ;
        assert(y * w + w == w * h) by (nonlinear_arith)
            requires
                y == h - 1,
        ;
        assert(y < i32::MAX) by (nonlinear_arith)
            requires
                y < h,
                w >= 1,
                w * h <= i32::MAX,
        ;
        assert(0 <= y * w) by (nonlinear_arith)
            requires
                0 <= y,
                0 <= w,
        ;
        assert(w * (h - 1) <= i32::MAX) by (nonlinear_arith)
            requires
                w * h <= i32::MAX,
                w >= 1,
        ;
        lemma_region_matches_hit_test(a.take(y * w), w, h - 1);
        lemma_mask_runs_prefix(a, w, y);
        let prev = mask_runs(a, w, y);
        let row = row_runs(a, y * w, 0, w, y);
        lemma_row_runs(a, y * w, 0, w, y);
        assert(m == prev + row);
        assert forall|k: int| 0 <= k < m.len() implies {
            let r = #[trigger] m[k];
            &&& 0 <= r.1 < h
            &&& r.3 == r.1 + 1
            &&& 0 <= r.0 < r.2 <= w
        } by {
            if k < prev.len() {
                assert(m[k] == prev[k]);
            } else {
                assert(m[k] == row[k - prev.len()]);
            }
        }
        assert forall|x: int, y2: int|
            #![trigger covers(m, x, y2)]
            covers(m, x, y2) <==> (0 <= x < w && 0 <= y2 < h && a[y2 * w + x] >= HIT_ALPHA) by {
            if covers(m, x, y2) {
                let k = choose|k: int|
                    0 <= k < m.len() && #[trigger] m[k].1 == y2 && m[k].0 <= x < m[k].2;
                if k < prev.len() {
                    assert(m[k] == prev[k]);
                    assert(covers(prev, x, y2));
                    lemma_index_in_prefix(a, w, y, x, y2);
                } else {
                    assert(m[k] == row[k - prev.len()]);
                    assert(covers(row, x, y2));
                }
            }
            if 0 <= x < w && 0 <= y2 < h && a[y2 * w + x] >= HIT_ALPHA {
                if y2 < y {
                    lemma_index_in_prefix(a, w, y, x, y2);
                    assert(covers(prev, x, y2));
                    let k = choose|k: int|
                        0 <= k < prev.len() && #[trigger] prev[k].1 == y2 && prev[k].0 <= x
                            < prev[k].2;
                    assert(m[k] == prev[k]);
                } else {
                    assert(a[y * w + x] >= HIT_ALPHA);
                    assert(covers(row, x, y));
                    let k = choose|k: int|
                        0 <= k < row.len() && #[trigger] row[k].1 == y && row[k].0 <= x
                            < row[k].2;
                    assert(m[k + prev.len()] == row[k]);
                }
            }
        }
    }
}

/// The rows before `y` read the same from the whole mask as from its first
/// `y` rows.
proof fn lemma_mask_runs_prefix(a: Seq<u8>, w: int, y: int)
    requires
        w >= 1,
        0 <= y,
        y * w <= a.len(),
    ensures
        mask_runs(a, w, y) == mask_runs(a.take(y * w), w, y),
    decreases y,
{
    if y > 0 {
        assert((y - 1) * w + w == y * w) by (nonlinear_arith);
        assert(0 <= (y - 1) * w) by (nonlinear_arith)
            requires
                y >= 1,
                w >= 1,
        ;
        lemma_mask_runs_prefix(a, w, y - 1);
        lemma_mask_runs_prefix(a.take(y * w), w, y - 1);
        assert(a.take(y * w).take((y - 1) * w) =~= a.take((y - 1) * w));
        lemma_row_runs_same(a, a.take(y * w), (y - 1) * w, 0, w, y - 1);
    }
}

proof fn lemma_row_runs_same(a: Seq<u8>, b: Seq<u8>, base: int, x0: int, w: int, y: int)
    requires
        0 <= x0 <= w,
        0 <= base,
        base + w <= a.len(),
        base + w <= b.len(),
        forall|j: int| base <= j < base + w ==> a[j] == b[j],
    ensures
        row_runs(a, base, x0, w, y) == row_runs(b, base, x0, w, y),
    decreases w - x0,
{
    if x0 < w {
        if a[base + x0] < HIT_ALPHA {
            lemma_row_runs_same(a, b, base, x0 + 1, w, y);
        } else {
            lemma_run_end(a, base, x0, w);
            lemma_run_end_same(a, b, base, x0, w);
            lemma_row_runs_same(a, b, base, run_end(a, base, x0, w), w, y);
        }
    }
}

proof fn lemma_run_end_same(a: Seq<u8>, b: Seq<u8>, base: int, x: int, w: int)
    requires
        0 <= x <= w,
        0 <= base,
        base + w <= a.len(),
        base + w <= b.len(),
        forall|j: int| base <= j < base + w ==> a[j] == b[j],
    ensures
        run_end(a, base, x, w) == run_end(b, base, x, w),
    decreases w - x,
{
    if x < w {
        lemma_run_end_same(a, b, base, x + 1, w);
    }
}

proof fn lemma_index_in_prefix(a: Seq<u8>, w: int, y: int, x: int, y2: int)
    requires
        w >= 1,
        0 <= x < w,
        0 <= y2 < y,
        y * w <= a.len(),
    ensures
        0 <= y2 * w + x < y * w,
        a.take(y * w)[y2 * w + x] == a[y2 * w + x],
{
    assert(0 <= y2 * w + x < y * w) by (nonlinear_arith)
        requires
            w >= 1,
            0 <= x < w,
            0 <= y2 < y,
    ;
}

} // verus!

verus! {

/// The source row that destination row `y` samples.
pub open spec fn src_row(y: int, sh: int, dh: int) -> int {
    y * sh / dh
}

/// The source column that destination column `x` samples; mirrored, the
/// columns are taken from the right.
pub open spec fn src_col(x: int, sw: int, dw: int, mirror: bool) -> int {
    if mirror {
        sw - 1 - x * sw / dw
    } else {
        x * sw / dw
    }
}

/// The byte that scaling writes at index `i` of the destination.
pub open spec fn scaled_byte(
    src: Seq<u8>,
    i: int,
    stride: int,
    sw: int,
    sh: int,
    dw: int,
    dh: int,
    mirror: bool,
) -> u8 {
    let r = i % stride;
    src[(src_row(i / stride, sh, dh) * sw + src_col(r / 4, sw, dw, mirror)) * 4 + r % 4]
}

/// Whether index `i` of the destination lies in the first `y` rows, or in
/// row `y` before column `x`, of the `dw`-pixel-wide picture.
pub open spec fn in_done(i: int, stride: int, dw: int, y: int, x: int) -> bool {
    &&& i % stride < dw * 4
    &&& (i / stride < y || (i / stride == y && i % stride < x * 4))
}

proof fn lemma_div_below(a: int, b: int, d: int)
    requires
        0 <= a < b * d,
        d >= 1,
        b >= 1,
    ensures
        0 <= a / d < b,
{
    vstd::arithmetic::div_mod::lemma_fundamental_div_mod(a, d);
    vstd::arithmetic::div_mod::lemma_mod_bound(a, d);
    let q = a / d;
    let r = a % d;
    assert(0 <= q < b) by (nonlinear_arith)
        requires
            a == d * q + r,
            0 <= r < d,
            0 <= a < b * d,
            d >= 1,
    ;
}

proof fn lemma_sample_in_source(x: int, y: int, sw: int, sh: int, dw: int, dh: int, mirror: bool)
    requires
        0 <= x < dw,
        0 <= y < dh,
        sw >= 1,
        sh >= 1,
    ensures
        0 <= src_row(y, sh, dh) < sh,
        0 <= src_col(x, sw, dw, mirror) < sw,
        0 <= (src_row(y, sh, dh) * sw + src_col(x, sw, dw, mirror)) * 4 + 3 < sw * sh * 4,
{
    assert(0 <= y * sh < sh * dh) by (nonlinear_arith)
        requires
            0 <= y < dh,
            sh >= 1,
    ;
    lemma_div_below(y * sh, sh, dh);
    assert(0 <= x * sw < sw * dw) by (nonlinear_arith)
        requires
            0 <= x < dw,
            sw >= 1,
    ;
    lemma_div_below(x * sw, sw, dw);
    let r = src_row(y, sh, dh);
    let c = src_col(x, sw, dw, mirror);
    assert(0 <= (r * sw + c) * 4 + 3 < sw * sh * 4) by (nonlinear_arith)
        requires
            0 <= r < sh,
            0 <= c < sw,
    ;
}

proof fn lemma_split_index(i: int, stride: int, y: int, x: int, c: int)
    requires
        stride >= 1,
        0 <= y,
        0 <= x,
        0 <= c < 4,
        x * 4 + c < stride,
        i == y * stride + x * 4 + c,
    ensures
        i / stride == y,
        i % stride == x * 4 + c,
        (i % stride) / 4 == x,
        (i % stride) % 4 == c,
{
    vstd::arithmetic::div_mod::lemma_fundamental_div_mod_converse(i, stride, y, x * 4 + c);
    vstd::arithmetic::div_mod::lemma_fundamental_div_mod_converse(x * 4 + c, 4, x, c);
}

/// Scales the `sw` x `sh` BGRA picture `src` to `dw` x `dh` into `dst`
/// (rows `dst_stride` bytes apart) by nearest sampling, mirrored left to
/// right where asked; the other bytes of `dst` stay as they were.
pub fn scale_bgra(
    src: &[u8],
    sw: usize,
    sh: usize,
    dst: &mut [u8],
    dw: usize,
    dh: usize,
    dst_stride: usize,
    mirror: bool,
)
    requires
        sw >= 1,
        sh >= 1,
        dw >= 1,
        dh >= 1,
        dw * sw <= u64::MAX,
        dh * sh <= u64::MAX,
        src@.len() >= sw * sh * 4,
        dst_stride >= dw * 4,
        old(dst)@.len() >= dst_stride * dh,
    ensures
        final(dst)@.len() == old(dst)@.len(),
        forall|i: int|
            0 <= i < old(dst)@.len() ==> #[trigger] final(dst)@[i] == if in_done(
                i,
                dst_stride as int,
                dw as int,
                dh as int,
                0,
            ) {
                scaled_byte(
                    src@,
                    i,
                    dst_stride as int,
                    sw as int,
                    sh as int,
                    dw as int,
                    dh as int,
                    mirror,
                )
            } else {
                old(dst)@[i]
            },
{
    let ghost d0 = dst@;
    let ghost stride = dst_stride as int;
    let sl = src.len();
    let dl = dst.len();
    let mut y: usize = 0;
    while y < dh
        invariant
            y <= dh,
            sw >= 1,
            sh >= 1,
            dw >= 1,
            dh >= 1,
            dw * sw <= u64::MAX,
            dh * sh <= u64::MAX,
            src@.len() >= sw * sh * 4,
            dst_stride >= dw * 4,
            stride == dst_stride,
            sl == src@.len(),
            dl == dst@.len(),
            dst@.len() == d0.len(),
            d0.len() >= dst_stride * dh,
            forall|i: int|
                0 <= i < d0.len() ==> #[trigger] dst@[i] == if in_done(
                    i,
                    stride,
                    dw as int,
                    y as int,
                    0,
                ) {
                    scaled_byte(src@, i, stride, sw as int, sh as int, dw as int, dh as int, mirror)
                } else {
                    d0[i]
                },
        decreases dh - y,
    {
        proof {
            assert(y * sh <= dh * sh) by (nonlinear_arith)
                requires
                    y < dh,
            ;
            lemma_sample_in_source(0, y as int, sw as int, sh as int, dw as int, dh as int, mirror);
        }
        let sy = ((y as u64) * (sh as u64) / (dh as u64)) as usize;
        let mut x: usize = 0;
        while x < dw
            invariant
                x <= dw,
                y < dh,
                sw >= 1,
                sh >= 1,
                dw >= 1,
                dh >= 1,
                dw * sw <= u64::MAX,
                dh * sh <= u64::MAX,
                src@.len() >= sw * sh * 4,
                dst_stride >= dw * 4,
                stride == dst_stride,
                sy == src_row(y as int, sh as int, dh as int),
                sl == src@.len(),
                dl == dst@.len(),
                dst@.len() == d0.len(),
                d0.len() >= dst_stride * dh,
                forall|i: int|
                    0 <= i < d0.len() ==> #[trigger] dst@[i] == if in_done(
                        i,
                        stride,
                        dw as int,
                        y as int,
                        x as int,
                    ) {
                        scaled_byte(
                            src@,
                            i,
                            stride,
                            sw as int,
                            sh as int,
                            dw as int,
                            dh as int,
                            mirror,
                        )
                    } else {
                        d0[i]
                    },
            decreases dw - x,
        {
            proof {
                lemma_sample_in_source(x as int, y as int, sw as int, sh as int, dw as int, dh as int, mirror);
                assert(y * dst_stride + x * 4 + 3 < dst_stride * dh) by (nonlinear_arith)
                    requires
                        y < dh,
                        x < dw,
                        dst_stride >= dw * 4,
                ;
                assert(x * sw <= dw * sw) by (nonlinear_arith)
                    requires
                        x < dw,
                ;
            }
            let q = ((x as u64) * (sw as u64) / (dw as u64)) as usize;
            let sx = if mirror {
                sw - 1 - q
            } else {
                q
            };
            let s = (sy * sw + sx) * 4;
            let d = y * dst_stride + x * 4;
            let ghost before = dst@;
            dst[d] = src[s];
            dst[d + 1] = src[s + 1];
            dst[d + 2] = src[s + 2];
            dst[d + 3] = src[s + 3];
            proof {
                assert forall|i: int| 0 <= i < d0.len() implies #[trigger] dst@[i] == if in_done(
                    i,
                    stride,
                    dw as int,
                    y as int,
                    x + 1,
                ) {
                    scaled_byte(src@, i, stride, sw as int, sh as int, dw as int, dh as int, mirror)
                } else {
                    d0[i]
                } by {
                    vstd::arithmetic::div_mod::lemma_fundamental_div_mod(i, stride);
                    vstd::arithmetic::div_mod::lemma_mod_bound(i, stride);
                    if d <= i < d + 4 {
                        lemma_split_index(i, stride, y as int, x as int, i - d);
                    } else {
                        assert(before[i] == dst@[i]);
                        if i / stride == y && x * 4 <= i % stride < x * 4 + 4 {
                            assert(stride * y == y * stride) by (nonlinear_arith);
                            assert(i == stride * y + i % stride);
                            assert(false);
                        }
                    }
                }
            }
            x = x + 1;
        }
        y = y + 1;
    }
}

} // verus!

verus! {

/// The byte at index `i` of a buffer of rows `w4` bytes wide, `dst_h` rows
/// high, after a `h`-row frame is drawn into it `pad` rows down on a
/// transparent background.
pub open spec fn blit_byte(frame: Seq<u8>, i: int, w4: int, h: int, pad: int, dst_h: int) -> u8 {
    let r = i / w4;
    if pad <= r < pad + h && r < dst_h {
        frame[(r - pad) * w4 + i % w4]
    } else {
        0u8
    }
}

proof fn lemma_row_index(i: int, w4: int, r: int, k: int)
    requires
        w4 >= 1,
        0 <= k < w4,
        i == r * w4 + k,
    ensures
        i / w4 == r,
        i % w4 == k,
{
    vstd::arithmetic::div_mod::lemma_fundamental_div_mod_converse(i, w4, r, k);
}

/// Clears `buf` and draws the `w` x `h` BGRA frame into it `pad` rows down;
/// rows of the frame that do not fit are left out. The buffer holds as
/// many whole rows as fit in it.
pub fn blit_frame(buf: &mut Vec<u8>, frame: &[u8], w: usize, h: usize, pad: usize)
    requires
        w >= 1,
        w * 4 <= usize::MAX,
        frame@.len() >= w * h * 4,
    ensures
        final(buf)@.len() == old(buf)@.len(),
        forall|i: int|
            0 <= i < final(buf)@.len() ==> #[trigger] final(buf)@[i] == blit_byte(
                frame@,
                i,
                w * 4,
                h as int,
                pad as int,
                old(buf)@.len() as int / (w * 4) as int,
            ),
{
    let w4 = w * 4;
    let n = buf.len();
    let fl = frame.len();
    let dst_h = n / w4;
    let mut k: usize = 0;
    while k < n
        invariant
            k <= n,
            n == buf@.len(),
            n == old(buf)@.len(),
            forall|i: int| 0 <= i < k ==> #[trigger] buf@[i] == 0u8,
        decreases n - k,
    {
        buf.set(k, 0);
        k = k + 1;
    }
    proof {
        assert(dst_h * w4 <= n) by (nonlinear_arith)
            requires
                dst_h == n / w4,
                w4 >= 1,
        ;
    }
    let mut y: usize = 0;
    while y < h
        invariant
            y <= h,
            w >= 1,
            w4 == w * 4,
            n == buf@.len(),
            n == old(buf)@.len(),
            fl == frame@.len(),
            dst_h == n / w4,
            dst_h * w4 <= n,
            frame@.len() >= w * h * 4,
            forall|i: int|
                0 <= i < n ==> #[trigger] buf@[i] == blit_byte(
                    frame@,
                    i,
                    w4 as int,
                    y as int,
                    pad as int,
                    dst_h as int,
                ),
        decreases h - y,
    {
        if pad >= dst_h || y >= dst_h - pad {
            proof {
                assert forall|i: int| 0 <= i < n implies #[trigger] buf@[i] == blit_byte(
                    frame@,
                    i,
                    w4 as int,
                    h as int,
                    pad as int,
                    dst_h as int,
                ) by {
                    assert(blit_byte(frame@, i, w4 as int, h as int, pad as int, dst_h as int)
                        == blit_byte(frame@, i, w4 as int, y as int, pad as int, dst_h as int));
                }
            }
            return;
        }
        proof {
            assert((pad + y) * w4 + w4 <= dst_h * w4) by (nonlinear_arith)
                requires
                    pad + y < dst_h,
            ;
            assert(y * w4 + w4 <= h * w4) by (nonlinear_arith)
                requires
                    y < h,
            ;
            assert(w * h * 4 == h * w4) by (nonlinear_arith)
                requires
                    w4 == w * 4,
            ;
        }
        let s = y * w4;
        let d = (pad + y) * w4;
        let mut c: usize = 0;
        while c < w4
            invariant
                c <= w4,
                w4 >= 1,
                n == buf@.len(),
                pad + y < dst_h,
                y < h,
                s == y * w4,
                d == (pad + y) * w4,
                d + w4 <= n,
                s + w4 <= frame@.len(),
                fl == frame@.len(),
                forall|i: int|
                    0 <= i < n ==> #[trigger] buf@[i] == if d <= i < d + c {
                        frame@[s + (i - d)]
                    } else {
                        blit_byte(frame@, i, w4 as int, y as int, pad as int, dst_h as int)
                    },
            decreases w4 - c,
        {
            buf.set(d + c, frame[s + c]);
            c = c + 1;
        }
        proof {
            assert forall|i: int| 0 <= i < n implies #[trigger] buf@[i] == blit_byte(
                frame@,
                i,
                w4 as int,
                y + 1,
                pad as int,
                dst_h as int,
            ) by {
                vstd::arithmetic::div_mod::lemma_fundamental_div_mod(i, w4 as int);
                vstd::arithmetic::div_mod::lemma_mod_bound(i, w4 as int);
                if d <= i < d + w4 {
                    lemma_row_index(i, w4 as int, pad + y, i - d);
                    assert((i / (w4 as int) - pad) * (w4 as int) + i % (w4 as int) == s + (i - d)) by (nonlinear_arith)
                        requires
                            i / (w4 as int) == pad + y,
                            i % (w4 as int) == i - d,
                            s == y * w4,
                    ;
                } else {
                    if i / (w4 as int) == pad + y {
                        assert((w4 as int) * (pad + y) == d) by (nonlinear_arith)
                            requires
                                d == (pad + y) * w4,
                        ;
                        assert(false);
                    }
                }
            }
        }
        y = y + 1;
    }
}

} // verus!

verus! {

/// Nearest sampling: pixel `(x, y)` of the scaled picture, channel `c`,
/// shows the source row `sy` with `sy * dh <= y * sh < (sy + 1) * dh` (the
/// whole source height squeezed or stretched to `dh` rows) and the source
/// column `sx` with `sx * dw <= x * sw < (sx + 1) * dw`, counted from the
/// right where mirrored.
pub proof fn lemma_scale_samples(
    src: Seq<u8>,
    stride: int,
    sw: int,
    sh: int,
    dw: int,
    dh: int,
    mirror: bool,
    x: int,
    y: int,
    c: int,
    sx: int,
    sy: int,
)
    requires
        sw >= 1,
        sh >= 1,
        dw >= 1,
        dh >= 1,
        stride >= dw * 4,
        0 <= x < dw,
        0 <= y < dh,
        0 <= c < 4,
        sy * dh <= y * sh < (sy + 1) * dh,
        sx * dw <= x * sw < (sx + 1) * dw,
    ensures
        scaled_byte(src, y * stride + x * 4 + c, stride, sw, sh, dw, dh, mirror) == src[(sy * sw
            + (if mirror {
            sw - 1 - sx
        } else {
            sx
        })) * 4 + c],
{
    let i = y * stride + x * 4 + c;
    vstd::arithmetic::div_mod::lemma_fundamental_div_mod_converse(i, stride, y, x * 4 + c);
    vstd::arithmetic::div_mod::lemma_fundamental_div_mod_converse(x * 4 + c, 4, x, c);
    assert(y * sh == dh * sy + (y * sh - sy * dh) && y * sh - sy * dh < dh) by (nonlinear_arith)
        requires
            sy * dh <= y * sh < (sy + 1) * dh,
    ;
    assert(x * sw == dw * sx + (x * sw - sx * dw) && x * sw - sx * dw < dw) by (nonlinear_arith)
        requires
            sx * dw <= x * sw < (sx + 1) * dw,
    ;
    vstd::arithmetic::div_mod::lemma_fundamental_div_mod_converse(y * sh, dh, sy, y * sh - sy * dh);
    vstd::arithmetic::div_mod::lemma_fundamental_div_mod_converse(x * sw, dw, sx, x * sw - sx * dw);
}

/// Drawing a frame into the buffer: pixel `x` of buffer row `r`, channel
/// `c`, is pixel `x` of frame row `r - pad` where that row lies below the
/// padding, inside the frame and inside the buffer (rows are `w * 4` bytes
/// apart in both), and transparent (0) everywhere else.
pub proof fn lemma_blit_pixels(frame: Seq<u8>, w: int, h: int, pad: int, dst_h: int, r: int, x: int, c: int)
    requires
        w >= 1,
        r >= 0,
        0 <= x < w,
        0 <= c < 4,
    ensures
        blit_byte(frame, (r * w + x) * 4 + c, w * 4, h, pad, dst_h) == (if pad <= r < pad + h && r
            < dst_h {
            frame[((r - pad) * w + x) * 4 + c]
        } else {
            0u8
        }),
{
    let w4 = w * 4;
    let i = (r * w + x) * 4 + c;
    assert(i == r * w4 + (x * 4 + c)) by (nonlinear_arith)
        requires
            i == (r * w + x) * 4 + c,
            w4 == w * 4,
    ;
    assert(x * 4 + c < w4) by (nonlinear_arith)
        requires
            x < w,
            c < 4,
            w4 == w * 4,
    ;
    vstd::arithmetic::div_mod::lemma_fundamental_div_mod_converse(i, w4, r, x * 4 + c);
    assert((r - pad) * w4 + (x * 4 + c) == ((r - pad) * w + x) * 4 + c) by (nonlinear_arith)
        requires
            w4 == w * 4,
    ;
}

} // verus!
