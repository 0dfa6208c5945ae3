//! The seven tetrominoes, each in its four rotations.
//!
//! A shape is four cells, given as (row, column) offsets from the top-left
//! corner of the shape's bounding box.

use vstd::prelude::*;

verus! {

/// Number of tetromino kinds.
pub const KINDS: u8 = 7;

/// Number of rotations of each kind.
pub const ROTATIONS: u8 = 4;

/// The cells of every kind in every rotation, as (row, column) offsets.
/// Indexed by kind, then by rotation.
pub const SHAPES: [[[(u8, u8); 4]; 4]; 7] = [
    [
        [(0, 0), (0, 1), (1, 1), (1, 2)],
        [(0, 1), (1, 1), (1, 0), (2, 0)],
        [(0, 0), (0, 1), (1, 1), (1, 2)],
        [(0, 1), (1, 1), (1, 0), (2, 0)],
    ],
    [
        [(1, 0), (1, 1), (0, 1), (0, 2)],
        [(0, 0), (1, 0), (1, 1), (2, 1)],
        [(1, 0), (1, 1), (0, 1), (0, 2)],
        [(0, 0), (1, 0), (1, 1), (2, 1)],
    ],
    [
        [(0, 0), (0, 1), (1, 0), (1, 1)],
        [(0, 0), (0, 1), (1, 0), (1, 1)],
        [(0, 0), (0, 1), (1, 0), (1, 1)],
        [(0, 0), (0, 1), (1, 0), (1, 1)],
    ],
    [
        [(0, 1), (1, 1), (2, 1), (2, 0)],
        [(0, 0), (1, 0), (1, 1), (1, 2)],
        [(0, 0), (0, 1), (1, 0), (2, 0)],
        [(0, 0), (0, 1), (0, 2), (1, 2)],
    ],
    [
        [(1, 0), (1, 1), (1, 2), (0, 1)],
        [(0, 0), (1, 0), (2, 0), (1, 1)],
        [(0, 0), (0, 1), (0, 2), (1, 1)],
        [(0, 1), (1, 1), (2, 1), (1, 0)],
    ],
    [
        [(0, 0), (0, 1), (0, 2), (0, 3)],
        [(0, 0), (1, 0), (2, 0), (3, 0)],
        [(0, 0), (0, 1), (0, 2), (0, 3)],
        [(0, 0), (1, 0), (2, 0), (3, 0)],
    ],
    [
        [(0, 0), (1, 0), (2, 0), (2, 1)],
        [(0, 0), (0, 1), (0, 2), (1, 0)],
        [(0, 0), (0, 1), (1, 1), (2, 1)],
        [(1, 0), (1, 1), (1, 2), (0, 2)],
    ],
];

/// A kind and a rotation that the table has an entry for.
pub open spec fn valid_shape(kind: int, rotation: int) -> bool {
    0 <= kind < 7 && 0 <= rotation < 4
}

/// The four cells of `kind` in `rotation`.
pub open spec fn shape(kind: int, rotation: int) -> Seq<(u8, u8)> {
    SHAPES[kind][rotation]@
}

pub open spec fn largest(a: int, b: int, c: int, d: int) -> int {
    let ab = if a >= b { a } else { b };
    let cd = if c >= d { c } else { d };
    if ab >= cd { ab } else { cd }
}

pub open spec fn smallest(a: int, b: int, c: int, d: int) -> int {
    let ab = if a <= b { a } else { b };
    let cd = if c <= d { c } else { d };
    if ab <= cd { ab } else { cd }
}

/// Largest column offset minus smallest column offset: one less than the
/// number of columns the shape spans.
pub open spec fn spec_width(kind: int, rotation: int) -> int {
    let s = shape(kind, rotation);
    largest(s[0].1 as int, s[1].1 as int, s[2].1 as int, s[3].1 as int)
        - smallest(s[0].1 as int, s[1].1 as int, s[2].1 as int, s[3].1 as int)
}

/// Largest row offset minus smallest row offset: one less than the number of
/// rows the shape spans.
pub open spec fn spec_height(kind: int, rotation: int) -> int {
    let s = shape(kind, rotation);
    largest(s[0].0 as int, s[1].0 as int, s[2].0 as int, s[3].0 as int)
        - smallest(s[0].0 as int, s[1].0 as int, s[2].0 as int, s[3].0 as int)
}

/// Width and height of every shape lie between 0 and 3.
pub proof fn lemma_extent_bounds(kind: int, rotation: int)
    requires
        valid_shape(kind, rotation),
    ensures
        0 <= spec_width(kind, rotation) <= 3,
        0 <= spec_height(kind, rotation) <= 3,
{
}

/// Every shape touches the top row and the left column of its bounding box,
/// so each of its cells lies within `spec_height` rows and `spec_width`
/// columns of the anchor.
pub proof fn lemma_shape_in_box(kind: int, rotation: int)
    requires
        valid_shape(kind, rotation),
    ensures
        shape(kind, rotation).len() == 4,
        forall|i: int|
            0 <= i < 4 ==> {
                &&& (#[trigger] shape(kind, rotation)[i]).0 <= spec_height(kind, rotation) <= 3
                &&& shape(kind, rotation)[i].1 <= spec_width(kind, rotation) <= 3
            },
{
}

/// The four cells of a shape are four different cells.
pub proof fn lemma_shape_cells_distinct(kind: int, rotation: int)
    requires
        valid_shape(kind, rotation),
    ensures
        forall|i: int, j: int|
            0 <= i < j < 4 ==> #[trigger] shape(kind, rotation)[i] != #[trigger] shape(
                kind,
                rotation,
            )[j],
{
}

/// The four (row, column) offsets of `kind` in `rotation`.
pub fn offsets(kind: u8, rotation: u8) -> (cells: [(u8, u8); 4])
    requires
        valid_shape(kind as int, rotation as int),
    ensures
        cells@ == shape(kind as int, rotation as int),
{
    SHAPES[kind as usize][rotation as usize]
}

/// Largest minus smallest column offset of the shape.
pub fn width(kind: u8, rotation: u8) -> (w: u8)
    requires
        valid_shape(kind as int, rotation as int),
    ensures
        w == spec_width(kind as int, rotation as int),
        w <= 3,
{
    let cells = offsets(kind, rotation);
    let mut hi: u8 = 0;
    let mut lo: u8 = 9;
    let mut i: usize = 0;
    while i < 4
        invariant
            i <= 4,
            cells@ == shape(kind as int, rotation as int),
            valid_shape(kind as int, rotation as int),
            forall|j: int| 0 <= j < i ==> lo <= (#[trigger] cells@[j]).1 <= hi,
            i == 0 ==> hi == 0 && lo == 9,
            i > 0 ==> exists|j: int| 0 <= j < i && hi == (#[trigger] cells@[j]).1,
            i > 0 ==> exists|j: int| 0 <= j < i && lo == (#[trigger] cells@[j]).1,
        decreases 4 - i,
    {
        let c = cells[i].1;
        if c > hi {
            hi = c;
        }
        if c < lo {
            lo = c;
        }
        i += 1;
    }
    proof {
        lemma_extent_bounds(kind as int, rotation as int);
    }
    hi - lo
}

/// Largest minus smallest row offset of the shape.
pub fn height(kind: u8, rotation: u8) -> (h: u8)
    requires
        valid_shape(kind as int, rotation as int),
    ensures
        h == spec_height(kind as int, rotation as int),
        h <= 3,
{
    let cells = offsets(kind, rotation);
    let mut hi: u8 = 0;
    let mut lo: u8 = 9;
    let mut i: usize = 0;
    while i < 4
        invariant
            i <= 4,
            cells@ == shape(kind as int, rotation as int),
            valid_shape(kind as int, rotation as int),
            forall|j: int| 0 <= j < i ==> lo <= (#[trigger] cells@[j]).0 <= hi,
            i == 0 ==> hi == 0 && lo == 9,
            i > 0 ==> exists|j: int| 0 <= j < i && hi == (#[trigger] cells@[j]).0,
            i > 0 ==> exists|j: int| 0 <= j < i && lo == (#[trigger] cells@[j]).0,
        decreases 4 - i,
    {
        let r = cells[i].0;
        if r > hi {
            hi = r;
        }
        if r < lo {
            lo = r;
        }
        i += 1;
    }
    proof {
        lemma_extent_bounds(kind as int, rotation as int);
    }
    hi - lo
}

} // verus!
