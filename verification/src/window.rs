use vstd::prelude::*;

verus! {

/// Lines kept visible below the cursor when possible.
pub const SCROLLOFF: usize = 5;

/// The `[offset, end)` window of a list of `n` one-line items shown in a
/// viewport of `height` rows with the cursor on item `cursor`.
pub open spec fn window_offset(cursor: int, height: int, n: int) -> int {
    let want = if cursor + SCROLLOFF + 1 >= height { cursor + SCROLLOFF + 1 - height } else { 0 };
    let last = if n >= height { n - height } else { 0 };
    let a = if want <= last { want } else { last };
    if a <= cursor { a } else { cursor }
}

pub open spec fn window_end(cursor: int, height: int, n: int) -> int {
    let o = window_offset(cursor, height, n);
    if o + height <= n { o + height } else { n }
}

/// The `[offset, end)` slice of items to build widgets for.
pub fn visible_window(cursor: usize, height: usize, n: usize) -> (r: (usize, usize))
    ensures
        r.0 == window_offset(cursor as int, height as int, n as int),
        r.1 == window_end(cursor as int, height as int, n as int),
        // The window lies in the list and is no taller than the viewport.
        r.0 <= r.1 <= n,
        r.1 - r.0 <= height,
        // The cursor is inside it whenever there is room to show it.
        cursor < n ==> r.0 <= cursor,
        cursor < n && height > 0 ==> cursor < r.1,
        // A list that fits is shown whole; a longer one fills the viewport.
        n <= height ==> r.0 == 0 && r.1 == n,
        cursor < n && height <= n ==> r.1 - r.0 == height,
        // `SCROLLOFF` lines stay visible below the cursor, until the end of the list.
        cursor < n && height > SCROLLOFF && cursor + SCROLLOFF + 1 <= n ==> cursor + SCROLLOFF < r.1,
{
    let offset = (cursor.saturating_add(SCROLLOFF + 1)).saturating_sub(height);
    let offset = if offset < n.saturating_sub(height) { offset } else { n.saturating_sub(height) };
    let offset = if offset < cursor { offset } else { cursor };
    let end = offset.saturating_add(height);
    let end = if end < n { end } else { n };
    (offset, end)
}

} // verus!
