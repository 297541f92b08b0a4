//! The tetromino catalog: the seven piece types, their rotation shapes and
//! per-type colour ids, and the translation of a piece instance to absolute
//! grid cells. Every shape is a sequence of exactly four `(x, y, colour)`
//! cell offsets relative to the piece's anchor; the rotation index is always
//! reduced modulo the number of rotation states, so lookups cannot fail.
use vstd::prelude::*;

verus! {

/// The seven tetromino kinds.
#[derive(Debug, Clone, Copy, PartialEq, Eq, Structural)]
pub enum PieceType {
    I,
    L,
    J,
    S,
    Z,
    T,
    O,
}

/// An active piece instance: anchor position and rotation index. The shape
/// logic lives in the catalog.
#[derive(Debug, Clone, Copy, PartialEq, Eq, Structural)]
pub struct Piece {
    pub x: i32,
    pub y: i32,
    pub rot: i32,
}

/// The colour id a piece of type `t` is baked into the grid with.
pub open spec fn color_of(t: PieceType) -> u8 {
    match t {
        PieceType::I => 2,
        PieceType::L => 3,
        PieceType::J => 4,
        PieceType::S => 5,
        PieceType::Z => 6,
        PieceType::O => 7,
        PieceType::T => 8,
    }
}

/// Per-type colour id, unique per type and in `[1, 8]`.
pub fn get_color(t: &PieceType) -> (c: usize)
    ensures
        c == color_of(*t),
{
    match *t {
        PieceType::I => 2,
        PieceType::L => 3,
        PieceType::J => 4,
        PieceType::S => 5,
        PieceType::Z => 6,
        PieceType::O => 7,
        PieceType::T => 8,
    }
}

/// The rotation states of each piece type: for every type at least one
/// state, and every state exactly four cell offsets, each offset an
/// `(x, y, colour)` triple with `x` and `y` in `[0, 3]`.
pub open spec fn rotation_states(t: PieceType) -> Seq<Seq<(i32, i32, i32)>> {
    match t {
        PieceType::I => seq![
            seq![(0i32, 2i32, 9i32), (1i32, 2i32, 10i32), (2i32, 2i32, 10i32), (3i32, 2i32, 11i32)],
            seq![(1i32, 3i32, 12i32), (1i32, 2i32, 13i32), (1i32, 1i32, 13i32), (1i32, 0i32, 14i32)],
        ],
        PieceType::L => seq![
            seq![(0i32, 2i32, 3i32), (1i32, 2i32, 3i32), (2i32, 2i32, 3i32), (0i32, 1i32, 3i32)],
            seq![(1i32, 3i32, 3i32), (1i32, 2i32, 3i32), (1i32, 1i32, 3i32), (2i32, 1i32, 3i32)],
            seq![(2i32, 3i32, 3i32), (0i32, 2i32, 3i32), (1i32, 2i32, 3i32), (2i32, 2i32, 3i32)],
            seq![(0i32, 3i32, 3i32), (1i32, 3i32, 3i32), (1i32, 2i32, 3i32), (1i32, 1i32, 3i32)],
        ],
        PieceType::J => seq![
            seq![(0i32, 2i32, 4i32), (1i32, 2i32, 4i32), (2i32, 2i32, 4i32), (2i32, 1i32, 4i32)],
            seq![(1i32, 3i32, 4i32), (1i32, 2i32, 4i32), (0i32, 1i32, 4i32), (1i32, 1i32, 4i32)],
            seq![(0i32, 3i32, 4i32), (0i32, 2i32, 4i32), (1i32, 2i32, 4i32), (2i32, 2i32, 4i32)],
            seq![(1i32, 3i32, 4i32), (2i32, 3i32, 4i32), (1i32, 2i32, 4i32), (1i32, 1i32, 4i32)],
        ],
        PieceType::S => seq![
            seq![(1i32, 2i32, 5i32), (2i32, 2i32, 5i32), (0i32, 1i32, 5i32), (1i32, 1i32, 5i32)],
            seq![(0i32, 3i32, 5i32), (0i32, 2i32, 5i32), (1i32, 2i32, 5i32), (1i32, 1i32, 5i32)],
        ],
        PieceType::Z => seq![
            seq![(0i32, 2i32, 6i32), (1i32, 2i32, 6i32), (1i32, 1i32, 6i32), (2i32, 1i32, 6i32)],
            seq![(1i32, 3i32, 6i32), (0i32, 2i32, 6i32), (1i32, 2i32, 6i32), (0i32, 1i32, 6i32)],
        ],
        PieceType::O => seq![
            seq![(1i32, 2i32, 7i32), (2i32, 2i32, 7i32), (1i32, 1i32, 7i32), (2i32, 1i32, 7i32)],
        ],
        PieceType::T => seq![
            seq![(0i32, 2i32, 8i32), (1i32, 2i32, 8i32), (2i32, 2i32, 8i32), (1i32, 1i32, 8i32)],
            seq![(1i32, 3i32, 8i32), (0i32, 2i32, 8i32), (1i32, 2i32, 8i32), (1i32, 1i32, 8i32)],
            seq![(1i32, 3i32, 8i32), (0i32, 2i32, 8i32), (1i32, 2i32, 8i32), (2i32, 2i32, 8i32)],
            seq![(1i32, 3i32, 8i32), (1i32, 2i32, 8i32), (2i32, 2i32, 8i32), (1i32, 1i32, 8i32)],
        ],
    }
}

/// A single catalog cell offset: coordinates in `[0, 3]`, colour in `[1, 14]`.
pub open spec fn cell_ok(c: (i32, i32, i32)) -> bool {
    &&& 0 <= c.0 <= 3
    &&& 0 <= c.1 <= 3
    &&& 1 <= c.2 <= 14
}

/// Two cells at distinct `(x, y)` positions.
pub open spec fn pos_distinct(a: (i32, i32, i32), b: (i32, i32, i32)) -> bool {
    a.0 != b.0 || a.1 != b.1
}

/// A well-formed shape: exactly four in-range cells, pairwise at distinct
/// positions.
pub open spec fn shape_ok(s: Seq<(i32, i32, i32)>) -> bool {
    &&& s.len() == 4
    &&& cell_ok(s[0]) && cell_ok(s[1]) && cell_ok(s[2]) && cell_ok(s[3])
    &&& pos_distinct(s[0], s[1]) && pos_distinct(s[0], s[2]) && pos_distinct(s[0], s[3])
    &&& pos_distinct(s[1], s[2]) && pos_distinct(s[1], s[3]) && pos_distinct(s[2], s[3])
}

/// Every catalog entry is a well-formed shape.
pub proof fn lemma_catalog_shape_ok(t: PieceType, r: int)
    requires
        0 <= r < rotation_states(t).len(),
    ensures
        shape_ok(rotation_states(t)[r]),
{
    match t {
        PieceType::I => {
            assert(shape_ok(rotation_states(t)[0]));
            assert(shape_ok(rotation_states(t)[1]));
        },
        PieceType::L => {
            assert(shape_ok(rotation_states(t)[0]));
            assert(shape_ok(rotation_states(t)[1]));
            assert(shape_ok(rotation_states(t)[2]));
            assert(shape_ok(rotation_states(t)[3]));
        },
        PieceType::J => {
            assert(shape_ok(rotation_states(t)[0]));
            assert(shape_ok(rotation_states(t)[1]));
            assert(shape_ok(rotation_states(t)[2]));
            assert(shape_ok(rotation_states(t)[3]));
        },
        PieceType::S => {
            assert(shape_ok(rotation_states(t)[0]));
            assert(shape_ok(rotation_states(t)[1]));
        },
        PieceType::Z => {
            assert(shape_ok(rotation_states(t)[0]));
            assert(shape_ok(rotation_states(t)[1]));
        },
        PieceType::O => {
            assert(shape_ok(rotation_states(t)[0]));
        },
        PieceType::T => {
            assert(shape_ok(rotation_states(t)[0]));
            assert(shape_ok(rotation_states(t)[1]));
            assert(shape_ok(rotation_states(t)[2]));
            assert(shape_ok(rotation_states(t)[3]));
        },
    }
}

/// Every type has at least one and at most four rotation states.
pub proof fn lemma_states_len(t: PieceType)
    ensures
        1 <= rotation_states(t).len() <= 4,
{
}

/// The rotation index a piece of type `t` with raw rotation `rot` selects:
/// wrapped modulo the state count.
pub open spec fn rot_index(t: PieceType, rot: int) -> int {
    rot % (rotation_states(t).len() as int)
}

/// The four absolute cells of piece `p` of type `t`: the selected rotation
/// shape translated elementwise by the anchor `(p.x, p.y)`.
pub open spec fn solid_spec(t: PieceType, p: Piece) -> Seq<(i32, i32, i32)> {
    rotation_states(t)[rot_index(t, p.rot as int)].map_values(
        |c: (i32, i32, i32)| (((c.0 + p.x) as i32, (c.1 + p.y) as i32, c.2)),
    )
}

/// Law: for every piece type and rotation index, a piece's absolute cells
/// are exactly four, pairwise at distinct positions, wherever it is
/// anchored.
pub proof fn lemma_absolute_cells_distinct(t: PieceType, p: Piece)
    requires
        p.x <= i32::MAX - 3,
        p.y <= i32::MAX - 3,
    ensures
        solid_spec(t, p).len() == 4,
        pos_distinct(solid_spec(t, p)[0], solid_spec(t, p)[1]),
        pos_distinct(solid_spec(t, p)[0], solid_spec(t, p)[2]),
        pos_distinct(solid_spec(t, p)[0], solid_spec(t, p)[3]),
        pos_distinct(solid_spec(t, p)[1], solid_spec(t, p)[2]),
        pos_distinct(solid_spec(t, p)[1], solid_spec(t, p)[3]),
        pos_distinct(solid_spec(t, p)[2], solid_spec(t, p)[3]),
{
    lemma_states_len(t);
    let r = rot_index(t, p.rot as int);
    assert(0 <= r < rotation_states(t).len());
    lemma_catalog_shape_ok(t, r);
}

/// The shape tables of the seven piece types, one ordered list of rotation
/// states per type.
pub struct Pieces {
    i: Vec<[(i32, i32, i32); 4]>,
    l: Vec<[(i32, i32, i32); 4]>,
    j: Vec<[(i32, i32, i32); 4]>,
    s: Vec<[(i32, i32, i32); 4]>,
    z: Vec<[(i32, i32, i32); 4]>,
    o: Vec<[(i32, i32, i32); 4]>,
    t: Vec<[(i32, i32, i32); 4]>,
}

/// The stored table `v` lists exactly the shapes `m`, in order.
pub open spec fn rows_match(v: Seq<[(i32, i32, i32); 4]>, m: Seq<Seq<(i32, i32, i32)>>) -> bool {
    &&& v.len() == m.len()
    &&& forall|k: int| 0 <= k < v.len() ==> (#[trigger] v[k])@ == m[k]
}

impl Pieces {
    /// The stored table for type `t`.
    pub closed spec fn base_of(&self, t: PieceType) -> Seq<[(i32, i32, i32); 4]> {
        match t {
            PieceType::I => self.i@,
            PieceType::L => self.l@,
            PieceType::J => self.j@,
            PieceType::S => self.s@,
            PieceType::Z => self.z@,
            PieceType::O => self.o@,
            PieceType::T => self.t@,
        }
    }

    /// The catalog invariant: each type's stored table holds exactly its
    /// rotation states.
    pub closed spec fn wf(&self) -> bool {
        forall|t: PieceType| rows_match(#[trigger] self.base_of(t), rotation_states(t))
    }

    /// Builds the catalog.
    pub fn new() -> (r: Self)
        ensures
            r.wf(),
    {
        let mut i: Vec<[(i32, i32, i32); 4]> = Vec::new();
        i.push([(0, 2, 9), (1, 2, 10), (2, 2, 10), (3, 2, 11)]);
        i.push([(1, 3, 12), (1, 2, 13), (1, 1, 13), (1, 0, 14)]);
        let mut l: Vec<[(i32, i32, i32); 4]> = Vec::new();
        l.push([(0, 2, 3), (1, 2, 3), (2, 2, 3), (0, 1, 3)]);
        l.push([(1, 3, 3), (1, 2, 3), (1, 1, 3), (2, 1, 3)]);
        l.push([(2, 3, 3), (0, 2, 3), (1, 2, 3), (2, 2, 3)]);
        l.push([(0, 3, 3), (1, 3, 3), (1, 2, 3), (1, 1, 3)]);
        let mut j: Vec<[(i32, i32, i32); 4]> = Vec::new();
        j.push([(0, 2, 4), (1, 2, 4), (2, 2, 4), (2, 1, 4)]);
        j.push([(1, 3, 4), (1, 2, 4), (0, 1, 4), (1, 1, 4)]);
        j.push([(0, 3, 4), (0, 2, 4), (1, 2, 4), (2, 2, 4)]);
        j.push([(1, 3, 4), (2, 3, 4), (1, 2, 4), (1, 1, 4)]);
        let mut s: Vec<[(i32, i32, i32); 4]> = Vec::new();
        s.push([(1, 2, 5), (2, 2, 5), (0, 1, 5), (1, 1, 5)]);
        s.push([(0, 3, 5), (0, 2, 5), (1, 2, 5), (1, 1, 5)]);
        let mut z: Vec<[(i32, i32, i32); 4]> = Vec::new();
        z.push([(0, 2, 6), (1, 2, 6), (1, 1, 6), (2, 1, 6)]);
        z.push([(1, 3, 6), (0, 2, 6), (1, 2, 6), (0, 1, 6)]);
        let mut o: Vec<[(i32, i32, i32); 4]> = Vec::new();
        o.push([(1, 2, 7), (2, 2, 7), (1, 1, 7), (2, 1, 7)]);
        let mut t: Vec<[(i32, i32, i32); 4]> = Vec::new();
        t.push([(0, 2, 8), (1, 2, 8), (2, 2, 8), (1, 1, 8)]);
        t.push([(1, 3, 8), (0, 2, 8), (1, 2, 8), (1, 1, 8)]);
        t.push([(1, 3, 8), (0, 2, 8), (1, 2, 8), (2, 2, 8)]);
        t.push([(1, 3, 8), (1, 2, 8), (2, 2, 8), (1, 1, 8)]);
        let r = Pieces { i, l, j, s, z, o, t };
        proof {
            assert forall|k: int| 0 <= k < r.i@.len() implies (#[trigger] r.i@[k])@
                == rotation_states(PieceType::I)[k] by {
                if k == 0 {
                    assert(r.i@[0]@ =~= rotation_states(PieceType::I)[0]);
                } else {
                    assert(r.i@[1]@ =~= rotation_states(PieceType::I)[1]);
                }
            }
            assert forall|k: int| 0 <= k < r.l@.len() implies (#[trigger] r.l@[k])@
                == rotation_states(PieceType::L)[k] by {
                if k == 0 {
                    assert(r.l@[0]@ =~= rotation_states(PieceType::L)[0]);
                } else if k == 1 {
                    assert(r.l@[1]@ =~= rotation_states(PieceType::L)[1]);
                } else if k == 2 {
                    assert(r.l@[2]@ =~= rotation_states(PieceType::L)[2]);
                } else {
                    assert(r.l@[3]@ =~= rotation_states(PieceType::L)[3]);
                }
            }
            assert forall|k: int| 0 <= k < r.j@.len() implies (#[trigger] r.j@[k])@
                == rotation_states(PieceType::J)[k] by {
                if k == 0 {
                    assert(r.j@[0]@ =~= rotation_states(PieceType::J)[0]);
                } else if k == 1 {
                    assert(r.j@[1]@ =~= rotation_states(PieceType::J)[1]);
                } else if k == 2 {
                    assert(r.j@[2]@ =~= rotation_states(PieceType::J)[2]);
                } else {
                    assert(r.j@[3]@ =~= rotation_states(PieceType::J)[3]);
                }
            }
            assert forall|k: int| 0 <= k < r.s@.len() implies (#[trigger] r.s@[k])@
                == rotation_states(PieceType::S)[k] by {
                if k == 0 {
                    assert(r.s@[0]@ =~= rotation_states(PieceType::S)[0]);
                } else {
                    assert(r.s@[1]@ =~= rotation_states(PieceType::S)[1]);
                }
            }
            assert forall|k: int| 0 <= k < r.z@.len() implies (#[trigger] r.z@[k])@
                == rotation_states(PieceType::Z)[k] by {
                if k == 0 {
                    assert(r.z@[0]@ =~= rotation_states(PieceType::Z)[0]);
                } else {
                    assert(r.z@[1]@ =~= rotation_states(PieceType::Z)[1]);
                }
            }
            assert forall|k: int| 0 <= k < r.o@.len() implies (#[trigger] r.o@[k])@
                == rotation_states(PieceType::O)[k] by {
                assert(r.o@[0]@ =~= rotation_states(PieceType::O)[0]);
            }
            assert forall|k: int| 0 <= k < r.t@.len() implies (#[trigger] r.t@[k])@
                == rotation_states(PieceType::T)[k] by {
                if k == 0 {
                    assert(r.t@[0]@ =~= rotation_states(PieceType::T)[0]);
                } else if k == 1 {
                    assert(r.t@[1]@ =~= rotation_states(PieceType::T)[1]);
                } else if k == 2 {
                    assert(r.t@[2]@ =~= rotation_states(PieceType::T)[2]);
                } else {
                    assert(r.t@[3]@ =~= rotation_states(PieceType::T)[3]);
                }
            }
            assert forall|ty: PieceType| rows_match(
                #[trigger] r.base_of(ty),
                rotation_states(ty),
            ) by {
                match ty {
                    PieceType::I => assert(rows_match(r.i@, rotation_states(PieceType::I))),
                    PieceType::L => assert(rows_match(r.l@, rotation_states(PieceType::L))),
                    PieceType::J => assert(rows_match(r.j@, rotation_states(PieceType::J))),
                    PieceType::S => assert(rows_match(r.s@, rotation_states(PieceType::S))),
                    PieceType::Z => assert(rows_match(r.z@, rotation_states(PieceType::Z))),
                    PieceType::O => assert(rows_match(r.o@, rotation_states(PieceType::O))),
                    PieceType::T => assert(rows_match(r.t@, rotation_states(PieceType::T))),
                }
            }
        }
        r
    }

    /// The full rotation-state table of type `t`.
    pub fn get_solid_base(&self, t: &PieceType) -> (r: &Vec<[(i32, i32, i32); 4]>)
        requires
            self.wf(),
        ensures
            r@ == self.base_of(*t),
            rows_match(r@, rotation_states(*t)),
    {
        proof {
            assert(rows_match(self.base_of(*t), rotation_states(*t)));
        }
        match *t {
            PieceType::I => &self.i,
            PieceType::L => &self.l,
            PieceType::J => &self.j,
            PieceType::S => &self.s,
            PieceType::Z => &self.z,
            PieceType::O => &self.o,
            PieceType::T => &self.t,
        }
    }

    /// The four absolute cells of piece `p` of type `t`: the rotation state
    /// selected by `p.rot` (wrapped modulo the state count) translated by the
    /// anchor.
    pub fn get_solid(&self, t: &PieceType, p: &Piece) -> (cells: [(i32, i32, i32); 4])
        requires
            self.wf(),
            0 <= p.rot,
            p.x <= i32::MAX - 3,
            p.y <= i32::MAX - 3,
        ensures
            cells@ == solid_spec(*t, *p),
    {
        let base = self.get_solid_base(t);
        proof {
            lemma_states_len(*t);
        }
        let idx: usize = (p.rot as usize) % base.len();
        proof {
            assert(idx as int == rot_index(*t, p.rot as int));
            lemma_catalog_shape_ok(*t, idx as int);
        }
        let shape: [(i32, i32, i32); 4] = base[idx];
        let mut out = cells_new();
        cells_push(&mut out, (shape[0].0 + p.x, shape[0].1 + p.y, shape[0].2));
        cells_push(&mut out, (shape[1].0 + p.x, shape[1].1 + p.y, shape[1].2));
        cells_push(&mut out, (shape[2].0 + p.x, shape[2].1 + p.y, shape[2].2));
        cells_push(&mut out, (shape[3].0 + p.x, shape[3].1 + p.y, shape[3].2));
        let cells = cells_into_inner(out);
        proof {
            assert(cells@ =~= solid_spec(*t, *p));
        }
        cells
    }
}

impl Default for Pieces {
    /// The catalog; same as `Pieces::new`.
    fn default() -> (r: Self)
        ensures
            r.wf(),
    {
        Pieces::new()
    }
}

#[verifier::external_type_specification]
#[verifier::external_body]
#[verifier::reject_recursive_types(T)]
pub struct ExArrayVec<T, const CAP: usize>(arrayvec::ArrayVec<T, CAP>);

/// The cells a fixed-capacity cell buffer holds, in insertion order.
pub uninterp spec fn cell_buf_view(v: arrayvec::ArrayVec<(i32, i32, i32), 4>) -> Seq<
    (i32, i32, i32),
>;

/// Relies on arrayvec::ArrayVec::new: a fresh vector is empty.
#[verifier::external_body]
fn cells_new() -> (v: arrayvec::ArrayVec<(i32, i32, i32), 4>)
    ensures
        cell_buf_view(v) == Seq::<(i32, i32, i32)>::empty(),
{
    arrayvec::ArrayVec::new()
}

/// Relies on arrayvec::ArrayVec::push: appends the element; panics only on a
/// full vector, which the precondition rules out.
#[verifier::external_body]
fn cells_push(v: &mut arrayvec::ArrayVec<(i32, i32, i32), 4>, c: (i32, i32, i32))
    requires
        cell_buf_view(*old(v)).len() < 4,
    ensures
        cell_buf_view(*final(v)) == cell_buf_view(*old(v)).push(c),
{
    v.push(c)
}

/// Relies on arrayvec::ArrayVec::into_inner: returns the elements as an
/// array exactly when length equals capacity, which the precondition gives.
#[verifier::external_body]
fn cells_into_inner(v: arrayvec::ArrayVec<(i32, i32, i32), 4>) -> (r: [(i32, i32, i32); 4])
    requires
        cell_buf_view(v).len() == 4,
    ensures
        r@ == cell_buf_view(v),
{
    v.into_inner().unwrap()
}

} // verus!
