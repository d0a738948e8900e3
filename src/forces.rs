use vstd::prelude::*;
use crate::color::{ParticleColor, NUM_COLORS};

verus! {

/// Number of cells of the affinity table.
pub const NUM_CELLS: usize = 16;

/// Row-major position of the cell `(who, to)`: row `who`, column `to`.
pub open spec fn cell_of(who: ParticleColor, to: ParticleColor) -> int {
    who.ordinal() * NUM_COLORS + to.ordinal()
}

/// The color pair whose cell sits at row-major position `i`.
pub open spec fn pair_of(i: int) -> (ParticleColor, ParticleColor) {
    (ParticleColor::of_ordinal((i / NUM_COLORS as int) as nat),
     ParticleColor::of_ordinal((i % NUM_COLORS as int) as nat))
}

/// A pair of distinct ordered color pairs occupies distinct cells.
pub proof fn lemma_cells_distinct(a: ParticleColor, b: ParticleColor, c: ParticleColor, d: ParticleColor)
    ensures
        cell_of(a, b) == cell_of(c, d) <==> (a == c && b == d),
{
}

/// The affinity table: `get(who, to)` is the force that particles of color
/// `who` feel from particles of color `to`. The table is not symmetric. It is
/// generic over the cell type and `Copy` whenever the cells are, so that each
/// worker can take its own copy.
#[derive(Clone, Copy)]
pub struct ForcesConfig<T> {
    cells: [T; NUM_CELLS],
}

impl<T> View for ForcesConfig<T> {
    type V = Seq<T>;

    /// The cells in row-major order.
    closed spec fn view(&self) -> Seq<T> {
        self.cells@
    }
}

impl<T: Copy> ForcesConfig<T> {
    /// A table holds one cell per ordered color pair.
    pub proof fn lemma_view_len(self)
        ensures
            self@.len() == NUM_CELLS,
    {
    }

    /// The affinity of `who` toward `to` in this table.
    pub open spec fn force(self, who: ParticleColor, to: ParticleColor) -> T {
        self@[cell_of(who, to)]
    }

    /// A table whose every cell holds `value` (a table of zeros is the empty
    /// table).
    pub fn filled(value: T) -> (r: Self)
        ensures
            r@ == Seq::new(NUM_CELLS as nat, |i: int| value),
            forall|who: ParticleColor, to: ParticleColor| #[trigger] r.force(who, to) == value,
    {
        let cells = [value; NUM_CELLS];
        let r = ForcesConfig { cells };
        assert(r@ =~= Seq::new(NUM_CELLS as nat, |i: int| value));
        r
    }

    /// A table built from its cells in row-major order: cell `i` is the
    /// affinity of color `i / NUM_COLORS` toward color `i % NUM_COLORS`.
    pub fn from_row_major(cells: [T; NUM_CELLS]) -> (r: Self)
        ensures
            r@ == cells@,
            forall|i: int| 0 <= i < NUM_CELLS ==> #[trigger] r.force(pair_of(i).0, pair_of(i).1) == cells@[i],
    {
        ForcesConfig { cells }
    }

    /// The cells in row-major order, as handed to a data-parallel backend.
    pub fn to_row_major(&self) -> (r: [T; NUM_CELLS])
        ensures
            r@ == self@,
            forall|who: ParticleColor, to: ParticleColor| #[trigger] r@[cell_of(who, to)] == self.force(who, to),
    {
        self.cells
    }

    /// This table with the affinity of `who` toward `to` set to `force`; every
    /// other cell, `(to, who)` included, is kept.
    pub fn with_force(self, who: ParticleColor, to: ParticleColor, force: T) -> (r: Self)
        ensures
            r@ == self@.update(cell_of(who, to), force),
            r.force(who, to) == force,
            forall|a: ParticleColor, b: ParticleColor| !(a == who && b == to) ==> #[trigger] r.force(a, b) == self.force(a, b),
    {
        let i = who.index() * NUM_COLORS + to.index();
        let mut cells = self.cells;
        cells[i] = force;
        let r = ForcesConfig { cells };
        proof {
            assert forall|a: ParticleColor, b: ParticleColor| !(a == who && b == to) implies #[trigger] r.force(a, b) == self.force(a, b) by {
                lemma_cells_distinct(a, b, who, to);
            }
        }
        r
    }

    /// The affinity of `who` toward `to`.
    pub fn get(&self, who: ParticleColor, to: ParticleColor) -> (r: T)
        ensures
            r == self.force(who, to),
            r == self@[cell_of(who, to)],
    {
        self.cells[who.index() * NUM_COLORS + to.index()]
    }
}

/// The two directions of a color pair are independent cells: setting the
/// affinity of `a` toward `b` leaves that of `b` toward `a` as it was, and
/// after setting both each reads back its own value, in whichever order they
/// were set.
pub proof fn lemma_asymmetry<T: Copy>(t: ForcesConfig<T>, a: ParticleColor, b: ParticleColor, x: T, y: T)
    requires
        a != b,
    ensures
        t@.update(cell_of(a, b), x)[cell_of(b, a)] == t.force(b, a),
        t@.update(cell_of(a, b), x).update(cell_of(b, a), y)[cell_of(a, b)] == x,
        t@.update(cell_of(a, b), x).update(cell_of(b, a), y)[cell_of(b, a)] == y,
        t@.update(cell_of(a, b), x).update(cell_of(b, a), y)
            == t@.update(cell_of(b, a), y).update(cell_of(a, b), x),
{
    t.lemma_view_len();
    lemma_cells_distinct(a, b, b, a);
    assert(t@.update(cell_of(a, b), x).update(cell_of(b, a), y)
        =~= t@.update(cell_of(b, a), y).update(cell_of(a, b), x));
}

} // verus!
