use vstd::prelude::*;

verus! {

/// The state of one grid cell. Every cell is always in exactly one of these
/// three states; `RecentlyDead` is a transient tombstone that a renderer can
/// show for one generation and that counts as non-alive everywhere.
#[derive(Clone, Copy, Debug, PartialEq, Eq, Structural)]
pub enum Cell {
    Dead,
    Alive,
    RecentlyDead,
}

/// One step of the cyclic toggle `Dead -> Alive -> RecentlyDead -> Dead`.
pub open spec fn spec_toggle(c: Cell) -> Cell {
    match c {
        Cell::Dead => Cell::Alive,
        Cell::Alive => Cell::RecentlyDead,
        Cell::RecentlyDead => Cell::Dead,
    }
}

/// The generation rule: the state a cell in state `c` with `live_neighbors`
/// live neighbors takes after one tick.
///
/// - A live cell survives with two or three live neighbors and otherwise
///   becomes `RecentlyDead` (under- or overpopulation).
/// - A `RecentlyDead` or `Dead` cell is born with exactly three live
///   neighbors; otherwise a `RecentlyDead` cell decays to `Dead` and a
///   `Dead` cell stays `Dead`.
pub open spec fn next_cell(c: Cell, live_neighbors: nat) -> Cell {
    match c {
        Cell::Alive => if 2 <= live_neighbors <= 3 {
            Cell::Alive
        } else {
            Cell::RecentlyDead
        },
        Cell::RecentlyDead => if live_neighbors == 3 {
            Cell::Alive
        } else {
            Cell::Dead
        },
        Cell::Dead => if live_neighbors == 3 {
            Cell::Alive
        } else {
            Cell::Dead
        },
    }
}

impl Cell {
    /// Advance this cell one step along the cycle
    /// `Dead -> Alive -> RecentlyDead -> Dead`.
    pub fn toggle(&mut self)
        ensures
            *final(self) == spec_toggle(*old(self)),
    {
        *self = match *self {
            Cell::Dead => Cell::Alive,
            Cell::Alive => Cell::RecentlyDead,
            Cell::RecentlyDead => Cell::Dead,
        };
    }

    /// Force this cell to `Alive`, whatever it was before.
    pub fn set_alive(&mut self)
        ensures
            *final(self) == Cell::Alive,
    {
        *self = Cell::Alive;
    }

    /// Force this cell to `Dead`, whatever it was before.
    pub fn set_dead(&mut self)
        ensures
            *final(self) == Cell::Dead,
    {
        *self = Cell::Dead;
    }

    /// The fill color a renderer uses for this cell state.
    pub fn get_color(&self) -> (r: &'static str)
        ensures
            r@ == spec_color(*self),
    {
        match *self {
            Cell::Dead => "#FFFFFF",
            Cell::Alive => "#32b9fc",
            Cell::RecentlyDead => "#96e0ff",
        }
    }
}

/// The default color of each cell state, as the renderer interface fixes it.
pub open spec fn spec_color(c: Cell) -> Seq<char> {
    match c {
        Cell::Dead => "#FFFFFF"@,
        Cell::Alive => "#32b9fc"@,
        Cell::RecentlyDead => "#96e0ff"@,
    }
}

/// Law: the toggle cycle has order three. Three consecutive toggles return
/// a cell to its original state, whatever that state was.
pub proof fn lemma_toggle_order_three(c: Cell)
    ensures
        spec_toggle(spec_toggle(spec_toggle(c))) == c,
{
}

/// Law: a live cell survives a tick exactly with two or three live
/// neighbors; with any other count it becomes `RecentlyDead`.
pub proof fn lemma_alive_rule(live_neighbors: nat)
    ensures
        2 <= live_neighbors <= 3 ==> next_cell(Cell::Alive, live_neighbors) == Cell::Alive,
        !(2 <= live_neighbors <= 3) ==> next_cell(Cell::Alive, live_neighbors)
            == Cell::RecentlyDead,
{
}

/// Law: a `RecentlyDead` cell resurrects exactly with three live neighbors;
/// with any other count it decays to `Dead`.
pub proof fn lemma_recently_dead_rule(live_neighbors: nat)
    ensures
        live_neighbors == 3 ==> next_cell(Cell::RecentlyDead, live_neighbors) == Cell::Alive,
        live_neighbors != 3 ==> next_cell(Cell::RecentlyDead, live_neighbors) == Cell::Dead,
{
}

} // verus!
