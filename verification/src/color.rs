use vstd::prelude::*;

verus! {

/// The fixed default color palette that the renderer interface exposes:
/// one color per cell state and one for the grid lines.
pub struct Color;

impl Color {
    /// The color of the grid lines.
    pub fn grid_color() -> (r: String)
        ensures
            r@ == "#454545"@,
    {
        String::from_str("#454545")
    }

    /// The fill color of an `Alive` cell.
    pub fn alive_color() -> (r: String)
        ensures
            r@ == "#32b9fc"@,
    {
        String::from_str("#32b9fc")
    }

    /// The fill color of a `Dead` cell.
    pub fn dead_color() -> (r: String)
        ensures
            r@ == "#FFFFFF"@,
    {
        String::from_str("#FFFFFF")
    }

    /// The fill color of a `RecentlyDead` cell.
    pub fn recently_dead_color() -> (r: String)
        ensures
            r@ == "#96e0ff"@,
    {
        String::from_str("#96e0ff")
    }
}

} // verus!
