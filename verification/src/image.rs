//! One raster sample.

use vstd::prelude::*;
use vstd::string::StringExecFns;

verus! {

/// Columns of a raster, and as many rows.
pub const COLS: usize = 28;

/// Entries of a raster: 28 rows of 28 columns.
pub const PIXELS: usize = 784;

/// A raster sample: its intensities, row by row.
#[derive(Clone, Debug, PartialEq, Eq)]
pub struct Image {
    data: Vec<u8>,
}

impl View for Image {
    type V = Seq<u8>;

    closed spec fn view(&self) -> Seq<u8> {
        self.data@
    }
}

/// The mark that stands for one intensity in the text of a sample: a dot
/// for zero, a hash for anything brighter.
pub open spec fn glyph(p: u8) -> char {
    if p > 0 {
        '#'
    } else {
        '.'
    }
}

/// The text of the first `upto` intensities: one mark each, with a line
/// break before the first mark of every row.
pub open spec fn rendered_cells(data: Seq<u8>, upto: int) -> Seq<char>
    decreases upto,
{
    if upto <= 0 {
        Seq::empty()
    } else {
        let before = rendered_cells(data, upto - 1);
        if (upto - 1) % (COLS as int) == 0 {
            before.push('\n').push(glyph(data[upto - 1]))
        } else {
            before.push(glyph(data[upto - 1]))
        }
    }
}

/// The text of a sample: in brackets, the width of a row, a line break and
/// a blank, then the marks row by row.
pub open spec fn rendered(data: Seq<u8>) -> Seq<char> {
    seq!['(', '2', '8', '\n', ' '] + rendered_cells(data, data.len() as int) + seq![')']
}

impl Image {
    /// A sample is a full raster when it has one entry per pixel.
    pub open spec fn is_raster(&self) -> bool {
        self@.len() == PIXELS
    }

    /// Wraps the intensities as a sample, in the order given.
    pub fn new(data: Vec<u8>) -> (img: Self)
        ensures
            img@ == data@,
    {
        Image { data }
    }

    /// The number of intensities held.
    pub fn len(&self) -> (n: usize)
        ensures
            n == self@.len(),
    {
        self.data.len()
    }

    /// The intensity at position `i`, counting row by row.
    pub fn pixel(&self, i: usize) -> (p: u8)
        requires
            i < self@.len(),
        ensures
            p == self@[i as int],
    {
        self.data[i]
    }

    /// Draws the sample as text, one mark per intensity and one line per
    /// row.
    pub fn render(&self) -> (text: String)
        ensures
            text@ == rendered(self@),
    {
        proof {
            reveal_strlit("(28\n ");
            reveal_strlit(")");
        }
        let mut text = String::new();
        text.append("(28\n ");
        assert(text@ =~= seq!['(', '2', '8', '\n', ' ']);
        let n: usize = self.data.len();
        let mut i: usize = 0;
        while i < n
            invariant
                i <= n,
                n == self@.len(),
                text@ == seq!['(', '2', '8', '\n', ' '] + rendered_cells(self@, i as int),
            decreases n - i,
        {
            proof {
                reveal_strlit("\n");
                reveal_strlit("#");
                reveal_strlit(".");
            }
            if i % COLS == 0 {
                text.append("\n");
            }
            if self.data[i] > 0 {
                text.append("#");
            } else {
                text.append(".");
            }
            i += 1;
            assert(text@ =~= seq!['(', '2', '8', '\n', ' '] + rendered_cells(self@, i as int));
        }
        text.append(")");
        assert(text@ =~= rendered(self@));
        text
    }

    /// All intensities, row by row.
    pub fn pixels(&self) -> (s: &[u8])
        ensures
            s@ == self@,
    {
        self.data.as_slice()
    }
}

} // verus!
