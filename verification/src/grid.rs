use vstd::prelude::*;

verus! {

/// A square boolean matrix of QR modules: `true` is a dark (foreground)
/// module, `false` a light one.
pub struct ModuleGrid {
    pub modules: Vec<Vec<bool>>,
}

/// The value of the module at `(x, y)`; coordinates outside the grid count
/// as `false`, light.
pub open spec fn module_at(g: Seq<Seq<bool>>, x: int, y: int) -> bool {
    0 <= y < g.len() && 0 <= x < g.len() && g[y][x]
}

impl View for ModuleGrid {
    type V = Seq<Seq<bool>>;

    open spec fn view(&self) -> Seq<Seq<bool>> {
        self.modules.deep_view()
    }
}

impl ModuleGrid {
    /// Every row is as long as the grid is tall.
    pub open spec fn wf(self) -> bool {
        forall|y: int| 0 <= y < self@.len() ==> (#[trigger] self@[y]).len() == self@.len()
    }

    /// Wraps a matrix as a grid if it is square.
    pub fn from_rows(rows: Vec<Vec<bool>>) -> (r: Option<ModuleGrid>)
        ensures
            match r {
                Some(g) => g.wf() && g@ == rows.deep_view(),
                None => !(ModuleGrid { modules: rows }).wf(),
            },
    {
        let n = rows.len();
        let mut y: usize = 0;
        while y < n
            invariant
                y <= n,
                n == rows@.len(),
                forall|j: int| 0 <= j < y ==> (#[trigger] rows.deep_view()[j]).len() == n,
            decreases n - y,
        {
            assert(rows.deep_view()[y as int].len() == rows@[y as int]@.len());
            if rows[y].len() != n {
                proof {
                    let g = (ModuleGrid { modules: rows });
                    assert(g@[y as int].len() != g@.len());
                }
                return None;
            }
            y = y + 1;
        }
        Some(ModuleGrid { modules: rows })
    }

    /// The number of modules along each side.
    pub fn size(&self) -> (r: usize)
        ensures
            r == self@.len(),
    {
        self.modules.len()
    }

    /// The module at `(x, y)`, `false` when out of range.
    pub fn get(&self, x: usize, y: usize) -> (r: bool)
        requires
            self.wf(),
        ensures
            r == module_at(self@, x as int, y as int),
    {
        if y < self.modules.len() && x < self.modules.len() {
            proof {
                assert(self@[y as int].len() == self@.len());
                assert(self.modules@[y as int]@[x as int] == self@[y as int][x as int]);
            }
            self.modules[y][x]
        } else {
            false
        }
    }
}

/// Why the upstream QR encoder rejected the text.
#[derive(PartialEq, Eq, Structural, Clone, Copy, Debug)]
pub enum EncodingError {
    /// One data segment is longer than its mode allows.
    SegmentTooLong,
    /// The data needs more codeword bits (first field) than the largest
    /// version offers (second field).
    DataOverCapacity(usize, usize),
}

/// The module grid that the QR encoder produces for `text` at medium error
/// correction, or `None` where the text is too long to encode.
pub uninterp spec fn qr_grid_of(text: Seq<char>) -> Option<Seq<Seq<bool>>>;

/// Relies on `qrcodegen::QrCode::encode_text` (with `QrCodeEcc::Medium`),
/// `QrCode::size` and `QrCode::get_module`: encoding is deterministic in the
/// text; a produced grid is square with side `version * 4 + 17` for a
/// version in `[1, 40]`, so in `[21, 177]`.
#[verifier::external_body]
pub(crate) fn encode_text_medium(text: &str) -> (r: Result<ModuleGrid, EncodingError>)
    ensures
        match r {
            Ok(g) => g.wf() && 21 <= g@.len() <= 177 && qr_grid_of(text@) == Some(g@),
            Err(_) => qr_grid_of(text@) is None,
        },
{
    match qrcodegen::QrCode::encode_text(text, qrcodegen::QrCodeEcc::Medium) {
        Ok(qr) => {
            let n = qr.size();
            let rows: Vec<Vec<bool>> = (0..n).map(
                |y| (0..n).map(|x| qr.get_module(x, y)).collect(),
            ).collect();
            Ok(ModuleGrid { modules: rows })
        },
        Err(qrcodegen::DataTooLong::SegmentTooLong) => Err(EncodingError::SegmentTooLong),
        Err(qrcodegen::DataTooLong::DataOverCapacity(bits, cap)) => Err(
            EncodingError::DataOverCapacity(bits, cap),
        ),
    }
}

} // verus!
