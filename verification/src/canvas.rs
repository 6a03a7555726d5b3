use vstd::prelude::*;

verus! {

broadcast use vstd::std_specs::vec::axiom_spec_len;

/// A rectangular buffer of 8-bit RGB pixels, stored row-major.
///
/// It serves both as the canvas that the rendering passes build up and as
/// the in-memory form of a decoded bitmap (logo or background image).
pub struct Canvas {
    pub width: usize,
    pub height: usize,
    pub pixels: Vec<[u8; 3]>,
}

impl Canvas {
    /// The buffer holds exactly one pixel per coordinate.
    pub open spec fn wf(self) -> bool {
        self.pixels@.len() == self.width * self.height
    }

    pub open spec fn spec_width(self) -> int {
        self.width as int
    }

    pub open spec fn spec_height(self) -> int {
        self.height as int
    }

    /// The color at `(x, y)`, for in-range coordinates.
    pub open spec fn pixel_at(self, x: int, y: int) -> [u8; 3]
        recommends
            0 <= x < self.spec_width(),
            0 <= y < self.spec_height(),
    {
        self.pixels@[y * self.spec_width() + x]
    }

    /// The raw row-major pixel sequence.
    pub open spec fn pixel_seq(self) -> Seq<[u8; 3]> {
        self.pixels@
    }

    /// Creates a `width` by `height` canvas with every pixel set to `fill`.
    pub fn new_filled(width: usize, height: usize, fill: [u8; 3]) -> (r: Canvas)
        requires
            width * height <= usize::MAX,
        ensures
            r.wf(),
            r.spec_width() == width,
            r.spec_height() == height,
            forall|i: int| 0 <= i < width * height ==> r.pixel_seq()[i] == fill,
    {
        let total: usize = width * height;
        let mut pixels: Vec<[u8; 3]> = Vec::new();
        let mut i: usize = 0;
        while i < total
            invariant
                i <= total,
                pixels@.len() == i,
                forall|j: int| 0 <= j < i ==> pixels@[j] == fill,
            decreases total - i,
        {
            pixels.push(fill);
            i = i + 1;
        }
        Canvas { width, height, pixels }
    }

    pub fn width(&self) -> (r: usize)
        ensures
            r == self.spec_width(),
    {
        self.width
    }

    pub fn height(&self) -> (r: usize)
        ensures
            r == self.spec_height(),
    {
        self.height
    }

    pub fn get(&self, x: usize, y: usize) -> (r: [u8; 3])
        requires
            self.wf(),
            x < self.spec_width(),
            y < self.spec_height(),
        ensures
            r == self.pixel_at(x as int, y as int),
    {
        proof {
            lemma_row_major_index(self.width as int, self.height as int, x as int, y as int);
            assert(self.pixels.len() <= usize::MAX);
        }
        self.pixels[y * self.width + x]
    }

    pub fn put(&mut self, x: usize, y: usize, color: [u8; 3])
        requires
            old(self).wf(),
            x < old(self).spec_width(),
            y < old(self).spec_height(),
        ensures
            final(self).wf(),
            final(self).spec_width() == old(self).spec_width(),
            final(self).spec_height() == old(self).spec_height(),
            final(self).pixel_seq() == old(self).pixel_seq().update(
                y * old(self).spec_width() + x,
                color,
            ),
    {
        proof {
            lemma_row_major_index(self.width as int, self.height as int, x as int, y as int);
            assert(self.pixels.len() <= usize::MAX);
        }
        let i = y * self.width + x;
        self.pixels.set(i, color);
    }
}

/// A row-major index lies inside the buffer, and each coordinate pair has
/// its own cell.
pub proof fn lemma_row_major_index(w: int, h: int, x: int, y: int)
    requires
        0 <= x < w,
        0 <= y < h,
    ensures
        0 <= y * w + x < w * h,
        (y * w + x) / w == y,
        (y * w + x) % w == x,
{
    assert(0 <= y * w + x < w * h) by (nonlinear_arith)
        requires
            0 <= x < w,
            0 <= y < h,
    ;
    assert((y * w + x) / w == y && (y * w + x) % w == x) by (nonlinear_arith)
        requires
            0 <= x < w,
            0 <= y,
    ;
}

/// A pixel of an earlier row sits below the start of the current row in the
/// row-major buffer.
pub proof fn lemma_earlier_row_index(w: int, y: int, x: int, yy: int)
    requires
        0 <= x < w,
        0 <= yy < y,
    ensures
        0 <= yy * w + x < y * w,
{
    assert(0 <= yy * w + x < y * w) by (nonlinear_arith)
        requires
            0 <= x < w,
            0 <= yy < y,
    ;
}

/// Distinct coordinate pairs have distinct row-major indices.
pub proof fn lemma_row_major_injective(w: int, h: int, x1: int, y1: int, x2: int, y2: int)
    requires
        0 <= x1 < w,
        0 <= y1 < h,
        0 <= x2 < w,
        0 <= y2 < h,
        (x1, y1) != (x2, y2),
    ensures
        y1 * w + x1 != y2 * w + x2,
{
    lemma_row_major_index(w, h, x1, y1);
    lemma_row_major_index(w, h, x2, y2);
}

/// Executable equality test on RGB triples; `==` on arrays reaches an
/// implementation Verus has not read, so the channels are compared directly.
pub fn rgb_eq(a: &[u8; 3], b: &[u8; 3]) -> (r: bool)
    ensures
        r == (*a == *b),
{
    let r = a[0] == b[0] && a[1] == b[1] && a[2] == b[2];
    proof {
        if r {
            assert(*a =~= *b);
        }
    }
    r
}

} // verus!
