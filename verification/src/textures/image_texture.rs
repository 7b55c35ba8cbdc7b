//! A texture read from a picture.
use vstd::prelude::*;

verus! {

/// One pixel of a picture.
#[derive(Clone, Copy, Debug, PartialEq, Eq, Structural)]
pub struct Rgb {
    pub r: u8,
    pub g: u8,
    pub b: u8,
}

/// A picture laid over a surface: its pixels row by row from the top, and
/// its width and height in pixels.
#[derive(Debug)]
pub struct ImageTexture {
    pub data: Vec<Rgb>,
    pub width: usize,
    pub height: usize,
}

/// The index nearest to `at` that a row or column of the given length has.
pub open spec fn nearest_index(at: usize, length: usize) -> int {
    if at >= length {
        length - 1
    } else {
        at as int
    }
}

impl ImageTexture {
    /// Whether there is a pixel for every place of the picture.
    pub open spec fn wf(self) -> bool {
        self.data@.len() == self.width * self.height
    }

    /// The pixel that is looked up for a column and a row, which may lie
    /// beyond the picture: the nearest pixel that the picture has.
    pub open spec fn pixel_at(self, column: usize, row: usize) -> Rgb {
        self.data@[nearest_index(row, self.height) * self.width + nearest_index(
            column,
            self.width,
        )]
    }

    /// A texture of the decoded picture `data`; none unless `data` holds
    /// `width * height` pixels.
    pub fn new(data: Vec<Rgb>, width: usize, height: usize) -> (res: Option<Self>)
        ensures
            res is Some <==> data@.len() == width * height,
            res matches Some(texture) ==> texture.wf() && texture.data@ == data@ && texture.width
                == width && texture.height == height,
    {
        let count: usize = data.len();
        match width.checked_mul(height) {
            Some(area) => {
                if area == count {
                    Some(Self { data, width, height })
                } else {
                    None
                }
            },
            None => {
                proof {
                    assert(data@.len() <= usize::MAX);
                }
                None
            },
        }
    }

    /// The pixel for a column and a row counted from the top left, each of
    /// which is moved into the picture if it lies beyond it. A picture
    /// without pixels has none to give; the caller paints a colour that
    /// shows the fault.
    pub fn value(&self, column: usize, row: usize) -> (res: Option<Rgb>)
        requires
            self.wf(),
        ensures
            res is None <==> self.data@.len() == 0,
            res matches Some(pixel) ==> pixel == self.pixel_at(column, row),
    {
        if self.data.len() == 0 {
            return None;
        }
        let mut i = column;
        let mut j = row;
        proof {
            assert(self.width > 0 && self.height > 0) by (nonlinear_arith)
                requires
                    self.width * self.height > 0,
            ;
        }
        if i >= self.width {
            i = self.width - 1;
        }
        if j >= self.height {
            j = self.height - 1;
        }
        proof {
            assert(j * self.width + i < self.width * self.height) by (nonlinear_arith)
                requires
                    i < self.width,
                    j < self.height,
            ;
        }
        Some(self.data[j * self.width + i])
    }
}

} // verus!
