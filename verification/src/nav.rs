//! The selection engine: a cursor over the visible task sequence, moved
//! either in flat list order or column-aware over the kanban board, where a
//! column holds the visible tasks of one status and is ordered by priority,
//! highest first, ties broken by position in the visible sequence.
//!
//! The engine works on cells: the status and priority of each visible task,
//! in visible order. The cursor is a position into that sequence.

use vstd::prelude::*;

use crate::models::{
    spec_next_status, spec_previous_status, spec_rank, TaskPriority, TaskStatus,
};

verus! {

/// What the board sees of one visible task: its status and priority.
#[derive(Clone, Copy, Debug, PartialEq, Eq, Structural)]
pub struct Cell {
    pub status: TaskStatus,
    pub priority: TaskPriority,
}

/// Whether position `j` holds a cell of the given status and priority.
pub open spec fn cell_matches(
    cells: Seq<Cell>,
    st: TaskStatus,
    pr: TaskPriority,
    j: int,
) -> bool {
    0 <= j < cells.len() && cells[j].status == st && cells[j].priority == pr
}

/// The positions in [lo, hi) holding the given status and priority, in
/// descending position order.
pub open spec fn desc_range(
    cells: Seq<Cell>,
    st: TaskStatus,
    pr: TaskPriority,
    lo: int,
    hi: int,
) -> Seq<int>
    decreases hi - lo,
{
    if lo >= hi {
        Seq::empty()
    } else {
        (if cell_matches(cells, st, pr, hi - 1) {
            seq![hi - 1]
        } else {
            Seq::empty()
        }) + desc_range(cells, st, pr, lo, hi - 1)
    }
}

/// All positions holding the given status and priority, descending.
pub open spec fn bucket(cells: Seq<Cell>, st: TaskStatus, pr: TaskPriority) -> Seq<int> {
    desc_range(cells, st, pr, 0, cells.len() as int)
}

/// A column in traversal order: its positions with priority ascending, ties
/// in descending visible position. This is the reverse of the column's
/// display order (priority descending, ties in visible order).
pub open spec fn col_asc(cells: Seq<Cell>, st: TaskStatus) -> Seq<int> {
    bucket(cells, st, TaskPriority::Low) + bucket(cells, st, TaskPriority::Medium) + bucket(
        cells,
        st,
        TaskPriority::High,
    ) + bucket(cells, st, TaskPriority::Critical)
}

/// Peeling the low end off a descending range: the range over [lo, hi) is
/// the range over [lo + 1, hi) with `lo` appended when it matches.
proof fn lemma_desc_range_peel_lo(
    cells: Seq<Cell>,
    st: TaskStatus,
    pr: TaskPriority,
    lo: int,
    hi: int,
)
    requires
        lo < hi,
    ensures
        desc_range(cells, st, pr, lo, hi) =~= desc_range(cells, st, pr, lo + 1, hi) + (if cell_matches(
            cells,
            st,
            pr,
            lo,
        ) {
            seq![lo]
        } else {
            Seq::empty()
        }),
    decreases hi - lo,
{
    let lopart: Seq<int> = if cell_matches(cells, st, pr, lo) {
        seq![lo]
    } else {
        Seq::empty()
    };
    if lo < hi - 1 {
        lemma_desc_range_peel_lo(cells, st, pr, lo, hi - 1);
        let head: Seq<int> = if cell_matches(cells, st, pr, hi - 1) {
            seq![hi - 1]
        } else {
            Seq::empty()
        };
        let mid = desc_range(cells, st, pr, lo + 1, hi - 1);
        assert(desc_range(cells, st, pr, lo, hi - 1) == mid + lopart);
        assert(desc_range(cells, st, pr, lo, hi) =~= head + (mid + lopart));
        assert(desc_range(cells, st, pr, lo + 1, hi) == head + mid);
        assert(head + (mid + lopart) =~= (head + mid) + lopart);
    } else {
        assert(desc_range(cells, st, pr, lo, lo) =~= Seq::<int>::empty());
        assert(desc_range(cells, st, pr, lo + 1, hi) =~= Seq::<int>::empty());
        assert(desc_range(cells, st, pr, lo, hi) =~= lopart + Seq::<int>::empty());
        assert(lopart + Seq::<int>::empty() =~= Seq::<int>::empty() + lopart);
    }
}

/// Every entry of a descending range lies in [lo, hi) and matches; the
/// entries are strictly descending; and every matching position is listed.
proof fn lemma_desc_range_props(
    cells: Seq<Cell>,
    st: TaskStatus,
    pr: TaskPriority,
    lo: int,
    hi: int,
)
    ensures
        forall|k: int|
            0 <= k < desc_range(cells, st, pr, lo, hi).len() ==> lo <= #[trigger] desc_range(
                cells,
                st,
                pr,
                lo,
                hi,
            )[k] < hi && cell_matches(cells, st, pr, desc_range(cells, st, pr, lo, hi)[k]),
        forall|k1: int, k2: int|
            0 <= k1 < k2 < desc_range(cells, st, pr, lo, hi).len() ==> #[trigger] desc_range(
                cells,
                st,
                pr,
                lo,
                hi,
            )[k1] > #[trigger] desc_range(cells, st, pr, lo, hi)[k2],
        forall|j: int|
            lo <= j < hi && cell_matches(cells, st, pr, j) ==> desc_range(
                cells,
                st,
                pr,
                lo,
                hi,
            ).contains(j),
    decreases hi - lo,
{
    if lo < hi {
        lemma_desc_range_props(cells, st, pr, lo, hi - 1);
        let head: Seq<int> = if cell_matches(cells, st, pr, hi - 1) {
            seq![hi - 1]
        } else {
            Seq::empty()
        };
        let tail = desc_range(cells, st, pr, lo, hi - 1);
        let cur = desc_range(cells, st, pr, lo, hi);
        assert(cur == head + tail);
        assert forall|j: int| lo <= j < hi && cell_matches(cells, st, pr, j) implies cur.contains(
            j,
        ) by {
            if j == hi - 1 {
                assert(cur[0] == j);
            } else {
                assert(tail.contains(j));
                let k = choose|k: int| 0 <= k < tail.len() && tail[k] == j;
                assert(cur[head.len() + k] == j);
            }
        }
    }
}

/// Every entry of a column's traversal order is a distinct in-range position
/// of that status; priorities are non-decreasing along the order; and every
/// position of that status is listed.
pub proof fn lemma_col_asc_props(cells: Seq<Cell>, st: TaskStatus)
    ensures
        forall|k: int|
            0 <= k < col_asc(cells, st).len() ==> 0 <= #[trigger] col_asc(cells, st)[k]
                < cells.len() && cells[col_asc(cells, st)[k]].status == st,
        forall|k1: int, k2: int|
            0 <= k1 < k2 < col_asc(cells, st).len() ==> #[trigger] col_asc(cells, st)[k1]
                != #[trigger] col_asc(cells, st)[k2],
        forall|k1: int, k2: int|
            0 <= k1 <= k2 < col_asc(cells, st).len() ==> spec_rank(
                cells[#[trigger] col_asc(cells, st)[k1]].priority,
            ) <= spec_rank(cells[#[trigger] col_asc(cells, st)[k2]].priority),
        forall|j: int|
            0 <= j < cells.len() && cells[j].status == st ==> col_asc(cells, st).contains(j),
{
    let n = cells.len() as int;
    lemma_desc_range_props(cells, st, TaskPriority::Low, 0, n);
    lemma_desc_range_props(cells, st, TaskPriority::Medium, 0, n);
    lemma_desc_range_props(cells, st, TaskPriority::High, 0, n);
    lemma_desc_range_props(cells, st, TaskPriority::Critical, 0, n);
    let b1 = bucket(cells, st, TaskPriority::Low);
    let b2 = bucket(cells, st, TaskPriority::Medium);
    let b3 = bucket(cells, st, TaskPriority::High);
    let b4 = bucket(cells, st, TaskPriority::Critical);
    let a = col_asc(cells, st);
    assert(a == b1 + b2 + b3 + b4);
    assert forall|j: int| 0 <= j < cells.len() && cells[j].status == st implies a.contains(j) by {
        match cells[j].priority {
            TaskPriority::Low => {
                assert(cell_matches(cells, st, TaskPriority::Low, j));
                assert(b1.contains(j));
                let k = choose|k: int| 0 <= k < b1.len() && b1[k] == j;
                assert(a[k] == j);
            },
            TaskPriority::Medium => {
                assert(cell_matches(cells, st, TaskPriority::Medium, j));
                assert(b2.contains(j));
                let k = choose|k: int| 0 <= k < b2.len() && b2[k] == j;
                assert(a[b1.len() + k] == j);
            },
            TaskPriority::High => {
                assert(cell_matches(cells, st, TaskPriority::High, j));
                assert(b3.contains(j));
                let k = choose|k: int| 0 <= k < b3.len() && b3[k] == j;
                assert(a[b1.len() + b2.len() + k] == j);
            },
            TaskPriority::Critical => {
                assert(cell_matches(cells, st, TaskPriority::Critical, j));
                assert(b4.contains(j));
                let k = choose|k: int| 0 <= k < b4.len() && b4[k] == j;
                assert(a[b1.len() + b2.len() + b3.len() + k] == j);
            },
        }
    }
}

/// The three columns together list every position exactly once: their
/// lengths add up to the number of cells.
pub proof fn lemma_status_partition_len(cells: Seq<Cell>)
    ensures
        col_asc(cells, TaskStatus::Todo).len() + col_asc(cells, TaskStatus::InProgress).len()
            + col_asc(cells, TaskStatus::Done).len() == cells.len(),
{
    lemma_bucket_len_sum(cells, 0);
    assert(desc_range(cells, TaskStatus::Todo, TaskPriority::Low, 0, 0).len() == 0);
}

/// The total length of all twelve status-priority buckets over [lo, n)
/// is n - lo: each position matches exactly one bucket.
proof fn lemma_bucket_len_sum(cells: Seq<Cell>, lo: int)
    requires
        0 <= lo <= cells.len(),
    ensures
        bucket_len_sum(cells, lo) == cells.len() - lo,
    decreases cells.len() - lo,
{
    let n = cells.len() as int;
    if lo == n {
    } else {
        lemma_bucket_len_sum(cells, lo + 1);
        lemma_desc_range_peel_lo(cells, TaskStatus::Todo, TaskPriority::Low, lo, n);
        lemma_desc_range_peel_lo(cells, TaskStatus::Todo, TaskPriority::Medium, lo, n);
        lemma_desc_range_peel_lo(cells, TaskStatus::Todo, TaskPriority::High, lo, n);
        lemma_desc_range_peel_lo(cells, TaskStatus::Todo, TaskPriority::Critical, lo, n);
        lemma_desc_range_peel_lo(cells, TaskStatus::InProgress, TaskPriority::Low, lo, n);
        lemma_desc_range_peel_lo(cells, TaskStatus::InProgress, TaskPriority::Medium, lo, n);
        lemma_desc_range_peel_lo(cells, TaskStatus::InProgress, TaskPriority::High, lo, n);
        lemma_desc_range_peel_lo(cells, TaskStatus::InProgress, TaskPriority::Critical, lo, n);
        lemma_desc_range_peel_lo(cells, TaskStatus::Done, TaskPriority::Low, lo, n);
        lemma_desc_range_peel_lo(cells, TaskStatus::Done, TaskPriority::Medium, lo, n);
        lemma_desc_range_peel_lo(cells, TaskStatus::Done, TaskPriority::High, lo, n);
        lemma_desc_range_peel_lo(cells, TaskStatus::Done, TaskPriority::Critical, lo, n);
    }
}

/// The sum of the lengths of all twelve buckets over [lo, n).
pub open spec fn bucket_len_sum(cells: Seq<Cell>, lo: int) -> int {
    let n = cells.len() as int;
    desc_range(cells, TaskStatus::Todo, TaskPriority::Low, lo, n).len() as int + desc_range(
        cells,
        TaskStatus::Todo,
        TaskPriority::Medium,
        lo,
        n,
    ).len() as int + desc_range(cells, TaskStatus::Todo, TaskPriority::High, lo, n).len() as int + desc_range(
        cells,
        TaskStatus::Todo,
        TaskPriority::Critical,
        lo,
        n,
    ).len() as int + desc_range(cells, TaskStatus::InProgress, TaskPriority::Low, lo, n).len() as int
        + desc_range(cells, TaskStatus::InProgress, TaskPriority::Medium, lo, n).len() as int + desc_range(
        cells,
        TaskStatus::InProgress,
        TaskPriority::High,
        lo,
        n,
    ).len() as int + desc_range(cells, TaskStatus::InProgress, TaskPriority::Critical, lo, n).len() as int
        + desc_range(cells, TaskStatus::Done, TaskPriority::Low, lo, n).len() as int + desc_range(
        cells,
        TaskStatus::Done,
        TaskPriority::Medium,
        lo,
        n,
    ).len() as int + desc_range(cells, TaskStatus::Done, TaskPriority::High, lo, n).len() as int + desc_range(
        cells,
        TaskStatus::Done,
        TaskPriority::Critical,
        lo,
        n,
    ).len() as int
}

/// The positions of one status-priority bucket, highest first.
fn bucket_descending(cells: &Vec<Cell>, st: TaskStatus, pr: TaskPriority) -> (r: Vec<usize>)
    ensures
        r@.map_values(|u: usize| u as int) == bucket(cells@, st, pr),
{
    let n = cells.len();
    let mut r: Vec<usize> = Vec::new();
    let mut j: usize = n;
    while j > 0
        invariant
            j <= n,
            n == cells@.len(),
            r@.map_values(|u: usize| u as int) =~= desc_range(cells@, st, pr, j as int, n as int),
        decreases j,
    {
        let idx = j - 1;
        let c = cells[idx];
        if c.status == st && c.priority == pr {
            r.push(idx);
        }
        j = idx;
        proof {
            lemma_desc_range_peel_lo(cells@, st, pr, j as int, n as int);
            assert(r@.map_values(|u: usize| u as int) =~= desc_range(
                cells@,
                st,
                pr,
                j as int,
                n as int,
            ));
        }
    }
    r
}

/// A column's positions in traversal order: priority ascending, ties in
/// descending visible position (the reverse of the display order).
pub fn column_order_ascending(cells: &Vec<Cell>, st: TaskStatus) -> (r: Vec<usize>)
    ensures
        r@.map_values(|u: usize| u as int) == col_asc(cells@, st),
{
    let mut r = bucket_descending(cells, st, TaskPriority::Low);
    let mut b2 = bucket_descending(cells, st, TaskPriority::Medium);
    let mut b3 = bucket_descending(cells, st, TaskPriority::High);
    let mut b4 = bucket_descending(cells, st, TaskPriority::Critical);
    r.append(&mut b2);
    r.append(&mut b3);
    r.append(&mut b4);
    proof {
        assert(r@.map_values(|u: usize| u as int) =~= col_asc(cells@, st));
    }
    r
}

/// A column's positions in display order: priority descending, ties in
/// visible order. This is what the board draws, top to bottom.
pub fn column_order_display(cells: &Vec<Cell>, st: TaskStatus) -> (r: Vec<usize>)
    ensures
        r@.map_values(|u: usize| u as int) == col_asc(cells@, st).reverse(),
{
    let asc = column_order_ascending(cells, st);
    let mut r: Vec<usize> = Vec::new();
    let mut j: usize = asc.len();
    while j > 0
        invariant
            j <= asc@.len(),
            asc@.map_values(|u: usize| u as int) == col_asc(cells@, st),
            r@.len() == asc@.len() - j,
            forall|k: int| 0 <= k < r@.len() ==> r@[k] == asc@[asc@.len() - 1 - k],
        decreases j,
    {
        j = j - 1;
        r.push(asc[j]);
    }
    proof {
        assert(r@.map_values(|u: usize| u as int) =~= col_asc(cells@, st).reverse());
    }
    r
}

/// A cursor as the specification sees it.
pub open spec fn opt_int(o: Option<usize>) -> Option<int> {
    match o {
        None => None,
        Some(u) => Some(u as int),
    }
}

/// One forward step in flat order: the next position, wrapping past the end
/// (and recovering to the front from a stale out-of-range cursor).
pub open spec fn flat_next(cur: int, n: int) -> int {
    if cur + 1 < n {
        cur + 1
    } else {
        0
    }
}

/// One backward step in flat order: the previous position, wrapping from the
/// front to the end (and recovering to the end from a stale cursor).
pub open spec fn flat_previous(cur: int, n: int) -> int {
    if 0 < cur < n {
        cur - 1
    } else {
        n - 1
    }
}

/// One forward step on the board from a valid position: up the current
/// column's traversal order; from the column's priority-highest member, to
/// the first traversal element of the next column in the fixed status cycle;
/// and when that column has no visible member, a flat wrapping step.
pub open spec fn board_next(cells: Seq<Cell>, c: int) -> int
    recommends
        0 <= c < cells.len(),
{
    let a = col_asc(cells, cells[c].status);
    let p = a.index_of(c);
    if p < a.len() - 1 {
        a[p + 1]
    } else {
        let b = col_asc(cells, spec_next_status(cells[c].status));
        if b.len() > 0 {
            b[0]
        } else {
            flat_next(c, cells.len() as int)
        }
    }
}

/// One backward step on the board from a valid position: down the current
/// column's traversal order; from the column's priority-lowest member, to
/// the last traversal element (the priority-highest) of the previous column
/// in the cycle; and when that column is empty, a flat wrapping step.
pub open spec fn board_previous(cells: Seq<Cell>, c: int) -> int
    recommends
        0 <= c < cells.len(),
{
    let a = col_asc(cells, cells[c].status);
    let p = a.index_of(c);
    if p > 0 {
        a[p - 1]
    } else {
        let b = col_asc(cells, spec_previous_status(cells[c].status));
        if b.len() > 0 {
            b[b.len() - 1]
        } else {
            flat_previous(c, cells.len() as int)
        }
    }
}

/// Where the cursor stands after `select_next`: cleared when nothing is
/// visible; on the first position when it was unset or stale; otherwise one
/// step forward in flat or board order.
pub open spec fn spec_select_next(cells: Seq<Cell>, board: bool, cur: Option<int>) -> Option<
    int,
> {
    let n = cells.len() as int;
    if n == 0 {
        None
    } else {
        match cur {
            None => Some(0),
            Some(c) => if c < 0 || c >= n {
                Some(0)
            } else if !board {
                Some(flat_next(c, n))
            } else {
                Some(board_next(cells, c))
            },
        }
    }
}

/// Where the cursor stands after `select_previous`: cleared when nothing is
/// visible; on the last position when it was unset or stale; otherwise one
/// step backward in flat or board order.
pub open spec fn spec_select_previous(cells: Seq<Cell>, board: bool, cur: Option<int>) -> Option<
    int,
> {
    let n = cells.len() as int;
    if n == 0 {
        None
    } else {
        match cur {
            None => Some(n - 1),
            Some(c) => if c < 0 || c >= n {
                Some(n - 1)
            } else if !board {
                Some(flat_previous(c, n))
            } else {
                Some(board_previous(cells, c))
            },
        }
    }
}

/// Where the cursor stands after jumping a column: to the display-first
/// (priority-highest) member of the adjacent column in the cycle, counting
/// from the cursor's column (or from Todo when the cursor is unset or
/// stale); unchanged when nothing is visible or the target column is empty.
pub open spec fn spec_shift_column(cells: Seq<Cell>, forward: bool, cur: Option<int>) -> Option<
    int,
> {
    let n = cells.len() as int;
    if n == 0 {
        cur
    } else {
        let st = match cur {
            Some(c) => if 0 <= c < n {
                cells[c].status
            } else {
                TaskStatus::Todo
            },
            None => TaskStatus::Todo,
        };
        let target = if forward {
            spec_next_status(st)
        } else {
            spec_previous_status(st)
        };
        let b = col_asc(cells, target);
        if b.len() > 0 {
            Some(b[b.len() - 1])
        } else {
            cur
        }
    }
}

/// The whole board in traversal order: the Todo column, then the InProgress
/// column, then the Done column, each in its own traversal order.
pub open spec fn board_order(cells: Seq<Cell>) -> Seq<int> {
    col_asc(cells, TaskStatus::Todo) + col_asc(cells, TaskStatus::InProgress) + col_asc(
        cells,
        TaskStatus::Done,
    )
}

/// Whether every status column has at least one visible member.
pub open spec fn all_columns_inhabited(cells: Seq<Cell>) -> bool {
    &&& exists|j: int| 0 <= j < cells.len() && (#[trigger] cells[j]).status == TaskStatus::Todo
    &&& exists|j: int|
        0 <= j < cells.len() && (#[trigger] cells[j]).status == TaskStatus::InProgress
    &&& exists|j: int| 0 <= j < cells.len() && (#[trigger] cells[j]).status == TaskStatus::Done
}

/// The cursor after `k` repetitions of `select_next`.
pub open spec fn iterate_select_next(
    cells: Seq<Cell>,
    board: bool,
    cur: Option<int>,
    k: nat,
) -> Option<int>
    decreases k,
{
    if k == 0 {
        cur
    } else {
        spec_select_next(cells, board, iterate_select_next(cells, board, cur, (k - 1) as nat))
    }
}

proof fn lemma_flat_iter(cells: Seq<Cell>, start: int, k: nat)
    requires
        cells.len() > 0,
        0 <= start < cells.len(),
        k <= cells.len(),
    ensures
        iterate_select_next(cells, false, Some(start), k) == Some(
            if start + k < cells.len() {
                start + k
            } else {
                start + k - cells.len()
            },
        ),
    decreases k,
{
    if k > 0 {
        lemma_flat_iter(cells, start, (k - 1) as nat);
    }
}

/// Cycle closure in the flat topology: from any valid cursor position over a
/// non-empty visible sequence, repeating `select_next` exactly once per
/// visible task returns the cursor to its starting position.
pub proof fn lemma_select_next_flat_cycle(cells: Seq<Cell>, start: int)
    requires
        cells.len() > 0,
        0 <= start < cells.len(),
    ensures
        iterate_select_next(cells, false, Some(start), cells.len()) == Some(start),
{
    lemma_flat_iter(cells, start, cells.len());
}

/// One board step follows the board traversal order cyclically: from the
/// member at position `i` of the order, `select_next` moves the cursor to
/// the member at position `i + 1`, wrapping at the end — provided every
/// status column has a visible member.
#[verifier::rlimit(100)]
proof fn lemma_board_step(cells: Seq<Cell>, i: int)
    requires
        all_columns_inhabited(cells),
        0 <= i < board_order(cells).len(),
    ensures
        board_order(cells).len() == cells.len(),
        0 <= board_order(cells)[i] < cells.len(),
        spec_select_next(cells, true, Some(board_order(cells)[i])) == Some(
            board_order(cells)[if i + 1 < board_order(cells).len() {
                i + 1
            } else {
                0
            }],
        ),
{
    let t = col_asc(cells, TaskStatus::Todo);
    let ip = col_asc(cells, TaskStatus::InProgress);
    let d = col_asc(cells, TaskStatus::Done);
    let b = board_order(cells);
    lemma_col_asc_props(cells, TaskStatus::Todo);
    lemma_col_asc_props(cells, TaskStatus::InProgress);
    lemma_col_asc_props(cells, TaskStatus::Done);
    lemma_status_partition_len(cells);
    assert(t.len() > 0) by {
        let j = choose|j: int|
            0 <= j < cells.len() && (#[trigger] cells[j]).status == TaskStatus::Todo;
        assert(t.contains(j));
    }
    assert(ip.len() > 0) by {
        let j = choose|j: int|
            0 <= j < cells.len() && (#[trigger] cells[j]).status == TaskStatus::InProgress;
        assert(ip.contains(j));
    }
    assert(d.len() > 0) by {
        let j = choose|j: int|
            0 <= j < cells.len() && (#[trigger] cells[j]).status == TaskStatus::Done;
        assert(d.contains(j));
    }
    let c = b[i];
    if i < t.len() {
        assert(c == t[i]);
        assert(cells[c].status == TaskStatus::Todo);
        lemma_index_of_unique(t, c, i);
        if i < t.len() - 1 {
            assert(b[i + 1] == t[i + 1]);
        } else {
            assert(b[i + 1] == ip[0]);
        }
    } else if i < t.len() + ip.len() {
        let p = i - t.len();
        assert(c == ip[p]);
        assert(cells[c].status == TaskStatus::InProgress);
        lemma_index_of_unique(ip, c, p);
        if p < ip.len() - 1 {
            assert(b[i + 1] == ip[p + 1]);
        } else {
            assert(b[i + 1] == d[0]);
        }
    } else {
        let p = i - t.len() - ip.len();
        assert(c == d[p]);
        assert(cells[c].status == TaskStatus::Done);
        lemma_index_of_unique(d, c, p);
        if p < d.len() - 1 {
            assert(b[i + 1] == d[p + 1]);
        } else {
            assert(i == b.len() - 1);
            assert(b[0] == t[0]);
        }
    }
}

proof fn lemma_board_iter(cells: Seq<Cell>, i: int, k: nat)
    requires
        all_columns_inhabited(cells),
        0 <= i < board_order(cells).len(),
        k <= board_order(cells).len(),
    ensures
        iterate_select_next(cells, true, Some(board_order(cells)[i]), k) == Some(
            board_order(cells)[if i + k < board_order(cells).len() {
                i + k
            } else {
                i + k - board_order(cells).len()
            }],
        ),
    decreases k,
{
    let b = board_order(cells);
    if k > 0 {
        lemma_board_iter(cells, i, (k - 1) as nat);
        let j = if i + k - 1 < b.len() {
            i + k - 1
        } else {
            i + k - 1 - b.len()
        };
        lemma_board_step(cells, j);
    }
}

/// Cycle closure on the board: from any valid cursor position, when every
/// status column has at least one visible member, repeating `select_next`
/// exactly once per visible task returns the cursor to its starting
/// position.
pub proof fn lemma_select_next_board_cycle(cells: Seq<Cell>, start: int)
    requires
        all_columns_inhabited(cells),
        0 <= start < cells.len(),
    ensures
        iterate_select_next(cells, true, Some(start), cells.len()) == Some(start),
{
    let t = col_asc(cells, TaskStatus::Todo);
    let ip = col_asc(cells, TaskStatus::InProgress);
    let d = col_asc(cells, TaskStatus::Done);
    let b = board_order(cells);
    lemma_col_asc_props(cells, TaskStatus::Todo);
    lemma_col_asc_props(cells, TaskStatus::InProgress);
    lemma_col_asc_props(cells, TaskStatus::Done);
    lemma_status_partition_len(cells);
    let i: int = match cells[start].status {
        TaskStatus::Todo => {
            assert(t.contains(start));
            let k = choose|k: int| 0 <= k < t.len() && t[k] == start;
            k
        },
        TaskStatus::InProgress => {
            assert(ip.contains(start));
            let k = choose|k: int| 0 <= k < ip.len() && ip[k] == start;
            t.len() + k
        },
        TaskStatus::Done => {
            assert(d.contains(start));
            let k = choose|k: int| 0 <= k < d.len() && d[k] == start;
            t.len() + ip.len() + k
        },
    };
    assert(b[i] == start);
    lemma_board_iter(cells, i, cells.len());
}

/// The boundary rule, forward: `select_next` on the board keeps the cursor
/// on a visible task, and moves it to a task of another status only when the
/// task it left had no higher-priority companion in its own column.
pub proof fn lemma_board_next_boundary(cells: Seq<Cell>, cur: int)
    requires
        0 <= cur < cells.len(),
    ensures
        0 <= board_next(cells, cur) < cells.len(),
        cells[board_next(cells, cur)].status != cells[cur].status ==> forall|j: int|
            0 <= j < cells.len() && (#[trigger] cells[j]).status == cells[cur].status ==> spec_rank(
                cells[j].priority,
            ) <= spec_rank(cells[cur].priority),
{
    let st = cells[cur].status;
    let a = col_asc(cells, st);
    lemma_col_asc_props(cells, st);
    lemma_col_asc_props(cells, spec_next_status(st));
    assert(a.contains(cur));
    let p = a.index_of(cur);
    assert(0 <= p < a.len() && a[p] == cur);
    if p < a.len() - 1 {
        assert(cells[board_next(cells, cur)].status == st);
    } else {
        assert forall|j: int|
            0 <= j < cells.len() && (#[trigger] cells[j]).status == st implies spec_rank(
            cells[j].priority,
        ) <= spec_rank(cells[cur].priority) by {
            assert(a.contains(j));
            let k = choose|k: int| 0 <= k < a.len() && a[k] == j;
            assert(spec_rank(cells[a[k]].priority) <= spec_rank(cells[a[p]].priority));
        }
    }
}

/// The boundary rule, backward: `select_previous` on the board keeps the
/// cursor on a visible task, and moves it to a task of another status only
/// when the task it left had no lower-priority companion in its own column.
pub proof fn lemma_board_previous_boundary(cells: Seq<Cell>, cur: int)
    requires
        0 <= cur < cells.len(),
    ensures
        0 <= board_previous(cells, cur) < cells.len(),
        cells[board_previous(cells, cur)].status != cells[cur].status ==> forall|j: int|
            0 <= j < cells.len() && (#[trigger] cells[j]).status == cells[cur].status ==> spec_rank(
                cells[j].priority,
            ) >= spec_rank(cells[cur].priority),
{
    let st = cells[cur].status;
    let a = col_asc(cells, st);
    lemma_col_asc_props(cells, st);
    lemma_col_asc_props(cells, spec_previous_status(st));
    assert(a.contains(cur));
    let p = a.index_of(cur);
    assert(0 <= p < a.len() && a[p] == cur);
    if p > 0 {
        assert(cells[board_previous(cells, cur)].status == st);
    } else {
        assert forall|j: int|
            0 <= j < cells.len() && (#[trigger] cells[j]).status == st implies spec_rank(
            cells[j].priority,
        ) >= spec_rank(cells[cur].priority) by {
            assert(a.contains(j));
            let k = choose|k: int| 0 <= k < a.len() && a[k] == j;
            assert(spec_rank(cells[a[p]].priority) <= spec_rank(cells[a[k]].priority));
        }
    }
}

/// In a sequence with pairwise-distinct entries, `index_of` returns the one
/// position holding the value.
proof fn lemma_index_of_unique(s: Seq<int>, x: int, p: int)
    requires
        0 <= p < s.len(),
        s[p] == x,
        forall|k1: int, k2: int| 0 <= k1 < k2 < s.len() ==> s[k1] != s[k2],
    ensures
        s.index_of(x) == p,
{
    assert(s.contains(x));
    let q = s.index_of(x);
    assert(0 <= q < s.len() && s[q] == x);
    if q < p {
        assert(s[q] != s[p]);
    } else if p < q {
        assert(s[p] != s[q]);
    }
}

/// The first position of `x` in `a`. The caller must know `x` occurs.
fn find_pos(a: &Vec<usize>, x: usize) -> (p: usize)
    requires
        exists|k: int| 0 <= k < a@.len() && a@[k] == x,
    ensures
        p < a@.len(),
        a@[p as int] == x,
        forall|k: int| 0 <= k < p ==> a@[k] != x,
{
    let mut i: usize = 0;
    while i < a.len()
        invariant
            i <= a@.len(),
            exists|k: int| 0 <= k < a@.len() && a@[k] == x,
            forall|k: int| 0 <= k < i ==> a@[k] != x,
        decreases a@.len() - i,
    {
        if a[i] == x {
            return i;
        }
        i = i + 1;
    }
    proof {
        let k = choose|k: int| 0 <= k < a@.len() && a@[k] == x;
        assert(a@[k] != x);
        assert(false);
    }
    0
}

/// One forward cursor step over the given cells. The result is never
/// stale: it is unset exactly when nothing is visible, and otherwise lands
/// on a visible position.
pub fn select_next_pos(cells: &Vec<Cell>, board: bool, cur: Option<usize>) -> (r: Option<usize>)
    ensures
        opt_int(r) == spec_select_next(cells@, board, opt_int(cur)),
        r is None <==> cells@.len() == 0,
        r is Some ==> r.unwrap() < cells@.len(),
{
    let n = cells.len();
    if n == 0 {
        return None;
    }
    let c = match cur {
        None => {
            return Some(0);
        },
        Some(c) => c,
    };
    if c >= n {
        return Some(0);
    }
    if !board {
        return Some(if c + 1 < n {
            c + 1
        } else {
            0
        });
    }
    let st = cells[c].status;
    let a = column_order_ascending(cells, st);
    proof {
        lemma_col_asc_props(cells@, st);
        assert(col_asc(cells@, st).contains(c as int));
    }
    let p = find_pos(&a, c);
    proof {
        lemma_index_of_unique(col_asc(cells@, st), c as int, p as int);
    }
    if p + 1 < a.len() {
        return Some(a[p + 1]);
    }
    let ns = crate::models::next_status(st);
    let b = column_order_ascending(cells, ns);
    proof {
        lemma_col_asc_props(cells@, ns);
    }
    if b.len() > 0 {
        Some(b[0])
    } else {
        Some(
            if c + 1 < n {
                c + 1
            } else {
                0
            },
        )
    }
}

/// One backward cursor step over the given cells. The result is never
/// stale: it is unset exactly when nothing is visible, and otherwise lands
/// on a visible position.
pub fn select_previous_pos(cells: &Vec<Cell>, board: bool, cur: Option<usize>) -> (r: Option<
    usize,
>)
    ensures
        opt_int(r) == spec_select_previous(cells@, board, opt_int(cur)),
        r is None <==> cells@.len() == 0,
        r is Some ==> r.unwrap() < cells@.len(),
{
    let n = cells.len();
    if n == 0 {
        return None;
    }
    let c = match cur {
        None => {
            return Some(n - 1);
        },
        Some(c) => c,
    };
    if c >= n {
        return Some(n - 1);
    }
    if !board {
        return Some(if c > 0 {
            c - 1
        } else {
            n - 1
        });
    }
    let st = cells[c].status;
    let a = column_order_ascending(cells, st);
    proof {
        lemma_col_asc_props(cells@, st);
        assert(col_asc(cells@, st).contains(c as int));
    }
    let p = find_pos(&a, c);
    proof {
        lemma_index_of_unique(col_asc(cells@, st), c as int, p as int);
    }
    if p > 0 {
        return Some(a[p - 1]);
    }
    let ps = crate::models::previous_status(st);
    let b = column_order_ascending(cells, ps);
    proof {
        lemma_col_asc_props(cells@, ps);
    }
    if b.len() > 0 {
        Some(b[b.len() - 1])
    } else {
        Some(
            if c > 0 {
                c - 1
            } else {
                n - 1
            },
        )
    }
}

/// A direct column jump over the given cells, forward or backward in the
/// status cycle. Whenever the cursor moves at all, it lands on a visible
/// position.
pub fn shift_column_pos(cells: &Vec<Cell>, forward: bool, cur: Option<usize>) -> (r: Option<
    usize,
>)
    ensures
        opt_int(r) == spec_shift_column(cells@, forward, opt_int(cur)),
        opt_int(r) != opt_int(cur) ==> r is Some && r.unwrap() < cells@.len(),
{
    let n = cells.len();
    if n == 0 {
        return cur;
    }
    let st = match cur {
        Some(c) => if c < n {
            cells[c].status
        } else {
            TaskStatus::Todo
        },
        None => TaskStatus::Todo,
    };
    let target = if forward {
        crate::models::next_status(st)
    } else {
        crate::models::previous_status(st)
    };
    let b = column_order_ascending(cells, target);
    proof {
        lemma_col_asc_props(cells@, target);
    }
    if b.len() > 0 {
        Some(b[b.len() - 1])
    } else {
        cur
    }
}

} // verus!
