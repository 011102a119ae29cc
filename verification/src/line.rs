//! The logical terminal line: styled cells, and their partition into
//! clusters — maximal runs of adjacent cells sharing identical attributes,
//! the unit handed to text shaping.

use crate::color::ColorAttribute;
use vstd::prelude::*;

verus! {

/// Underline attribute of a cell.
#[derive(Clone, Copy, Debug, PartialEq, Eq, Structural)]
pub enum Underline {
    Off,
    Single,
    Double,
}

/// The style attributes of one cell.  A hyperlink is an opaque id handed
/// out by the terminal model.
#[derive(Clone, Copy, Debug, PartialEq, Eq, Structural)]
pub struct CellAttributes {
    pub foreground: ColorAttribute,
    pub background: ColorAttribute,
    pub bold: bool,
    pub underline: Underline,
    pub strikethrough: bool,
    pub reverse: bool,
    pub hyperlink: Option<u64>,
}

/// One cell of the grid: a character and its attributes.
#[derive(Clone, Copy, Debug, PartialEq, Eq, Structural)]
pub struct Cell {
    pub ch: char,
    pub attrs: CellAttributes,
}

/// One line of the grid.
pub struct Line {
    pub cells: Vec<Cell>,
}

/// A maximal run of adjacent cells with identical attributes.  `text` holds
/// the characters in order; cell `first_cell_idx + i` contributed `text[i]`.
pub struct CellCluster {
    pub attrs: CellAttributes,
    pub first_cell_idx: usize,
    pub text: Vec<char>,
}

/// One cluster correctly describes the cells it covers: nonempty, in
/// bounds, uniform attributes, and text matching the cells in order.
pub open spec fn cluster_covers(cells: Seq<Cell>, c: CellCluster) -> bool {
    &&& c.text@.len() >= 1
    &&& c.first_cell_idx + c.text@.len() <= cells.len()
    &&& forall|j: int|
        c.first_cell_idx <= j < c.first_cell_idx + c.text@.len() ==> (#[trigger] cells[j]).attrs
            == c.attrs && cells[j].ch == c.text@[j - c.first_cell_idx]
}

/// The clustering law: `clusters` partitions `cells` into nonempty runs of
/// identical attributes, in order and without gaps, and the runs are
/// maximal: adjacent clusters carry different attributes.
pub open spec fn is_clustering(cells: Seq<Cell>, clusters: Seq<CellCluster>) -> bool {
    &&& (cells.len() == 0 ==> clusters.len() == 0)
    &&& (cells.len() > 0 ==> clusters.len() > 0 && clusters[0].first_cell_idx == 0
        && clusters.last().first_cell_idx + clusters.last().text@.len() == cells.len())
    &&& forall|k: int|
        #![trigger clusters[k], clusters[k + 1]]
        0 <= k < clusters.len() - 1 ==> clusters[k].first_cell_idx + clusters[k].text@.len()
            == clusters[k + 1].first_cell_idx
    &&& forall|k: int| 0 <= k < clusters.len() ==> cluster_covers(cells, #[trigger] clusters[k])
    &&& forall|k: int|
        #![trigger clusters[k], clusters[k + 1]]
        0 <= k < clusters.len() - 1 ==> clusters[k].attrs != clusters[k + 1].attrs
}

/// Field-wise equality of cell attributes.
pub fn attrs_equal(a: &CellAttributes, b: &CellAttributes) -> (r: bool)
    ensures
        r == (a == b),
{
    let hyperlink_eq = match (a.hyperlink, b.hyperlink) {
        (Some(x), Some(y)) => x == y,
        (None, None) => true,
        _ => false,
    };
    let fg_eq = color_attr_equal(&a.foreground, &b.foreground);
    let bg_eq = color_attr_equal(&a.background, &b.background);
    let underline_eq = match (a.underline, b.underline) {
        (Underline::Off, Underline::Off) => true,
        (Underline::Single, Underline::Single) => true,
        (Underline::Double, Underline::Double) => true,
        _ => false,
    };
    fg_eq && bg_eq && a.bold == b.bold && underline_eq && a.strikethrough == b.strikethrough
        && a.reverse == b.reverse && hyperlink_eq
}

/// Field-wise equality of color attributes.
pub fn color_attr_equal(a: &ColorAttribute, b: &ColorAttribute) -> (r: bool)
    ensures
        r == (a == b),
{
    match (a, b) {
        (ColorAttribute::Default, ColorAttribute::Default) => true,
        (ColorAttribute::PaletteIndex(x), ColorAttribute::PaletteIndex(y)) => x == y,
        (ColorAttribute::TrueColor(x), ColorAttribute::TrueColor(y)) => x.red == y.red && x.green
            == y.green && x.blue == y.blue,
        _ => false,
    }
}

impl Line {
    /// Breaks the line into clusters of cells with the same attributes.
    pub fn cluster(&self) -> (r: Vec<CellCluster>)
        ensures
            is_clustering(self.cells@, r@),
    {
        let mut clusters: Vec<CellCluster> = Vec::new();
        let n = self.cells.len();
        if n == 0 {
            return clusters;
        }
        // the run being accumulated: cells[run_first .. idx]
        let mut run_first: usize = 0;
        let mut run_attrs = self.cells[0].attrs;
        let mut run_text: Vec<char> = Vec::new();
        run_text.push(self.cells[0].ch);
        let mut idx: usize = 1;
        while idx < n
            invariant
                n == self.cells@.len(),
                1 <= idx <= n,
                run_first < idx,
                run_text@.len() == idx - run_first,
                forall|j: int|
                    run_first <= j < idx ==> (#[trigger] self.cells@[j]).attrs == run_attrs
                        && self.cells@[j].ch == run_text@[j - run_first],
                clusters@.len() == 0 ==> run_first == 0,
                clusters@.len() > 0 ==> {
                    &&& clusters@[0].first_cell_idx == 0
                    &&& clusters@.last().first_cell_idx + clusters@.last().text@.len() == run_first
                    &&& clusters@.last().attrs != run_attrs
                },
                forall|k: int|
                    #![trigger clusters@[k], clusters@[k + 1]]
                    0 <= k < clusters@.len() - 1 ==> clusters@[k].first_cell_idx
                        + clusters@[k].text@.len() == clusters@[k + 1].first_cell_idx,
                forall|k: int|
                    0 <= k < clusters@.len() ==> cluster_covers(self.cells@, #[trigger] clusters@[k]),
                forall|k: int|
                    #![trigger clusters@[k], clusters@[k + 1]]
                    0 <= k < clusters@.len() - 1 ==> clusters@[k].attrs != clusters@[k + 1].attrs,
            decreases n - idx,
        {
            let cell = self.cells[idx];
            if attrs_equal(&run_attrs, &cell.attrs) {
                run_text.push(cell.ch);
                proof {
                    assert(run_attrs == cell.attrs);
                    assert(self.cells@[idx as int] == cell);
                }
            } else {
                let ghost pre = clusters@;
                let ghost closed = CellCluster {
                    attrs: run_attrs,
                    first_cell_idx: run_first,
                    text: run_text,
                };
                clusters.push(
                    CellCluster { attrs: run_attrs, first_cell_idx: run_first, text: run_text },
                );
                proof {
                    assert(cluster_covers(self.cells@, closed));
                    assert forall|k: int|
                        0 <= k < clusters@.len() implies cluster_covers(
                        self.cells@,
                        #[trigger] clusters@[k],
                    ) by {
                        if k < pre.len() {
                            assert(clusters@[k] == pre[k]);
                        } else {
                            assert(clusters@[k] == closed);
                        }
                    }
                }
                run_first = idx;
                run_attrs = cell.attrs;
                run_text = Vec::new();
                run_text.push(cell.ch);
                proof {
                    assert(self.cells@[idx as int] == cell);
                    assert(run_text@[0] == cell.ch);
                }
            }
            idx = idx + 1;
        }
        let ghost pre = clusters@;
        let ghost closed = CellCluster { attrs: run_attrs, first_cell_idx: run_first, text: run_text };
        clusters.push(CellCluster { attrs: run_attrs, first_cell_idx: run_first, text: run_text });
        proof {
            assert(cluster_covers(self.cells@, closed));
            assert forall|k: int|
                0 <= k < clusters@.len() implies cluster_covers(
                self.cells@,
                #[trigger] clusters@[k],
            ) by {
                if k < pre.len() {
                    assert(clusters@[k] == pre[k]);
                } else {
                    assert(clusters@[k] == closed);
                }
            }
        }
        clusters
    }
}

} // verus!
