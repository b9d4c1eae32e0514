use vstd::prelude::*;

use crate::task::{Task, TaskStatus, TaskView};

verus! {

/// A screen rectangle in terminal cells.
#[derive(Clone, Copy, Debug, PartialEq, Eq, Structural)]
pub struct Rect {
    pub x: u16,
    pub y: u16,
    pub width: u16,
    pub height: u16,
}

pub open spec fn spans_x(r: Rect, x: int) -> bool {
    r.x <= x < r.x + r.width
}

pub open spec fn contains_point(r: Rect, x: int, y: int) -> bool {
    spans_x(r, x) && r.y <= y < r.y + r.height
}

/// `i` is the first rectangle that contains the point.
pub open spec fn first_containing(areas: Seq<Rect>, x: int, y: int, i: int) -> bool {
    &&& 0 <= i < areas.len()
    &&& contains_point(areas[i], x, y)
    &&& forall|j: int| 0 <= j < i ==> !contains_point(#[trigger] areas[j], x, y)
}

/// `i` is the first rectangle whose horizontal span holds `x`.
pub open spec fn first_spanning(areas: Seq<Rect>, x: int, i: int) -> bool {
    &&& 0 <= i < areas.len()
    &&& spans_x(areas[i], x)
    &&& forall|j: int| 0 <= j < i ==> !spans_x(#[trigger] areas[j], x)
}

/// Index of the first rectangle containing the point, or -1.
pub open spec fn column_hit(areas: Seq<Rect>, x: int, y: int) -> int {
    if exists|i: int| first_containing(areas, x, y, i) {
        choose|i: int| first_containing(areas, x, y, i)
    } else {
        -1
    }
}

/// Index of the first rectangle whose horizontal span holds `x`, or -1.
pub open spec fn x_hit(areas: Seq<Rect>, x: int) -> int {
    if exists|i: int| first_spanning(areas, x, i) {
        choose|i: int| first_spanning(areas, x, i)
    } else {
        -1
    }
}

/// The lane shown in column `c`: the first three in order, the last for any
/// other index.
pub open spec fn status_of_column(c: int) -> TaskStatus {
    if c == 0 {
        TaskStatus::NotStarted
    } else if c == 1 {
        TaskStatus::InProgress
    } else if c == 2 {
        TaskStatus::Blocked
    } else {
        TaskStatus::Complete
    }
}

/// The lane shown in column `col`.
pub fn column_status(col: usize) -> (r: TaskStatus)
    ensures
        r == status_of_column(col as int),
{
    match col {
        0 => TaskStatus::NotStarted,
        1 => TaskStatus::InProgress,
        2 => TaskStatus::Blocked,
        _ => TaskStatus::Complete,
    }
}

/// The first column rectangle that contains the point.
pub fn column_at(areas: &Vec<Rect>, x: u16, y: u16) -> (r: Option<usize>)
    ensures
        match r {
            Some(i) => first_containing(areas@, x as int, y as int, i as int) && column_hit(areas@, x as int, y as int)
                == i,
            None => column_hit(areas@, x as int, y as int) == -1,
        },
{
    let mut i: usize = 0;
    while i < areas.len()
        invariant
            i <= areas@.len(),
            forall|j: int| 0 <= j < i ==> !contains_point(#[trigger] areas@[j], x as int, y as int),
        decreases areas.len() - i,
    {
        let a = areas[i];
        if a.x <= x && (x as u32) < a.x as u32 + a.width as u32 && a.y <= y && (y as u32) < a.y as u32
            + a.height as u32 {
            proof {
                assert(first_containing(areas@, x as int, y as int, i as int));
                let k = choose|k: int| first_containing(areas@, x as int, y as int, k);
                assert(k == i as int) by {
                    if k < i {
                        assert(!contains_point(areas@[k], x as int, y as int));
                    } else if k > i {
                        assert(!contains_point(areas@[i as int], x as int, y as int));
                    }
                }
            }
            return Some(i);
        }
        i += 1;
    }
    None
}

/// The first column rectangle whose horizontal span holds `x`.
pub fn column_at_x(areas: &Vec<Rect>, x: u16) -> (r: Option<usize>)
    ensures
        match r {
            Some(i) => first_spanning(areas@, x as int, i as int) && x_hit(areas@, x as int) == i,
            None => x_hit(areas@, x as int) == -1,
        },
{
    let mut i: usize = 0;
    while i < areas.len()
        invariant
            i <= areas@.len(),
            forall|j: int| 0 <= j < i ==> !spans_x(#[trigger] areas@[j], x as int),
        decreases areas.len() - i,
    {
        let a = areas[i];
        if a.x <= x && (x as u32) < a.x as u32 + a.width as u32 {
            proof {
                assert(first_spanning(areas@, x as int, i as int));
                let k = choose|k: int| first_spanning(areas@, x as int, k);
                assert(k == i as int) by {
                    if k < i {
                        assert(!spans_x(areas@[k], x as int));
                    } else if k > i {
                        assert(!spans_x(areas@[i as int], x as int));
                    }
                }
            }
            return Some(i);
        }
        i += 1;
    }
    None
}

/// Line of row `y` counted from the first line below the top border of
/// `r`; negative on the border and above it.
pub open spec fn offset_in(r: Rect, y: int) -> int {
    y - r.y - 1
}

/// Line of row `y` below the top border of `area`; `None` on the border row
/// and above it, where no card is.
pub fn offset_below_border(area: Rect, y: u16) -> (r: Option<u16>)
    ensures
        match r {
            Some(o) => o == offset_in(area, y as int),
            None => offset_in(area, y as int) < 0,
        },
{
    if y as u32 >= area.y as u32 + 1 {
        Some(((y as u32) - (area.y as u32) - 1) as u16)
    } else {
        None
    }
}

/// Lines a card takes: three without steps, four with.
pub open spec fn card_height_of(t: TaskView) -> nat {
    if t.steps.len() == 0 {
        3
    } else {
        4
    }
}

/// Lines the card of `task` takes.
pub fn card_height(task: &Task) -> (r: u16)
    ensures
        r == card_height_of(task@),
{
    if task.steps.len() == 0 {
        3
    } else {
        4
    }
}

/// Card heights of a column's tasks, in display order.
pub open spec fn heights_of(ts: Seq<TaskView>) -> Seq<u16> {
    ts.map_values(|t: TaskView| card_height_of(t) as u16)
}

/// Card heights of a column's tasks, in display order.
pub fn card_heights(tasks: &Vec<&Task>) -> (r: Vec<u16>)
    ensures
        r@ == heights_of(tasks@.map_values(|t: &Task| t@)),
{
    let mut r: Vec<u16> = Vec::new();
    let mut i: usize = 0;
    while i < tasks.len()
        invariant
            i <= tasks@.len(),
            r@.len() == i,
            forall|k: int| 0 <= k < i ==> #[trigger] r@[k] as nat == card_height_of(tasks@[k]@),
        decreases tasks.len() - i,
    {
        r.push(card_height(tasks[i]));
        i += 1;
    }
    assert(r@ =~= heights_of(tasks@.map_values(|t: &Task| t@)));
    r
}

/// First line of card `i` when cards of heights `hs` are stacked from line 0.
pub open spec fn card_top(hs: Seq<u16>, i: int) -> int
    decreases i,
{
    if i <= 0 || i > hs.len() {
        0
    } else {
        card_top(hs, i - 1) + hs[i - 1]
    }
}

/// Card `i` covers line `off`.
pub open spec fn card_covers(hs: Seq<u16>, i: int, off: int) -> bool {
    0 <= i < hs.len() && card_top(hs, i) <= off < card_top(hs, i) + hs[i]
}

/// Stacked cards never start above an earlier one.
pub proof fn lemma_card_top_monotone(hs: Seq<u16>, i: int, j: int)
    requires
        0 <= i <= j <= hs.len(),
    ensures
        card_top(hs, i) <= card_top(hs, j),
    decreases j - i,
{
    if i < j {
        lemma_card_top_monotone(hs, i, j - 1);
    }
}

/// Stacked cards do not overlap.
pub proof fn lemma_cards_disjoint(hs: Seq<u16>, i: int, j: int, off: int)
    requires
        card_covers(hs, i, off),
        card_covers(hs, j, off),
    ensures
        i == j,
{
    if i < j {
        lemma_card_top_monotone(hs, i + 1, j);
    } else if j < i {
        lemma_card_top_monotone(hs, j + 1, i);
    }
}

/// Index of the card covering line `off`, or -1.
pub open spec fn card_hit(hs: Seq<u16>, off: int) -> int {
    if exists|i: int| card_covers(hs, i, off) {
        choose|i: int| card_covers(hs, i, off)
    } else {
        -1
    }
}

/// The card whose vertical span holds line `offset`, cards being stacked from
/// line 0 with heights `heights`; `None` below the last card.
pub fn card_at_offset(heights: &Vec<u16>, offset: u16) -> (r: Option<usize>)
    ensures
        match r {
            Some(i) => card_covers(heights@, i as int, offset as int) && card_hit(heights@, offset as int) == i,
            None => (forall|i: int| !card_covers(heights@, i, offset as int)) && card_hit(heights@, offset as int)
                == -1,
        },
{
    let mut top: u32 = 0;
    let mut i: usize = 0;
    while i < heights.len()
        invariant
            i <= heights@.len(),
            top == card_top(heights@, i as int),
            top <= offset,
            forall|j: int| 0 <= j < i ==> !card_covers(heights@, j, offset as int),
        decreases heights.len() - i,
    {
        let h = heights[i];
        if offset as u32 >= top && (offset as u32) < top + h as u32 {
            assert(h == heights@[i as int]);
            assert(card_covers(heights@, i as int, offset as int));
            proof {
                let k = choose|k: int| card_covers(heights@, k, offset as int);
                lemma_cards_disjoint(heights@, k, i as int, offset as int);
            }
            return Some(i);
        }
        top = top + h as u32;
        assert(top == card_top(heights@, i + 1));
        i += 1;
    }
    None
}

} // verus!
