//! The application state: the task store, the filter criteria, the view
//! enums, and the cursor, together with every operation a decoded input
//! command can ask of them.

use vstd::prelude::*;

use crate::filter::{spec_visible, visible_indices, FilterCriteria};
use crate::models::{spec_next_status, Task, TaskPriority, TaskStatus};
use crate::nav::{
    opt_int, select_next_pos, select_previous_pos, shift_column_pos, spec_select_next,
    spec_select_previous, spec_shift_column, Cell,
};

verus! {

/// The view mode: a detail pane, the kanban board, or the flat list.
#[derive(Clone, Copy, Debug, PartialEq, Eq, Structural)]
pub enum AppMode {
    Normal,
    Kanban,
    List,
}

/// Whether keystrokes navigate or feed text entry.
#[derive(Clone, Copy, Debug, PartialEq, Eq, Structural)]
pub enum InputMode {
    Normal,
    Editing,
}

/// The active tab of the interface.
#[derive(Clone, Copy, Debug, PartialEq, Eq, Structural)]
pub enum AppTab {
    Tasks,
    Calendar,
    Statistics,
}

/// The mode after toggling: the fixed cycle Normal -> Kanban -> List.
pub open spec fn spec_next_mode(m: AppMode) -> AppMode {
    match m {
        AppMode::Normal => AppMode::Kanban,
        AppMode::Kanban => AppMode::List,
        AppMode::List => AppMode::Normal,
    }
}

/// The next tab in the fixed cycle Tasks -> Calendar -> Statistics.
pub open spec fn spec_next_tab(t: AppTab) -> AppTab {
    match t {
        AppTab::Tasks => AppTab::Calendar,
        AppTab::Calendar => AppTab::Statistics,
        AppTab::Statistics => AppTab::Tasks,
    }
}

/// The previous tab in the cycle.
pub open spec fn spec_previous_tab(t: AppTab) -> AppTab {
    match t {
        AppTab::Tasks => AppTab::Statistics,
        AppTab::Calendar => AppTab::Tasks,
        AppTab::Statistics => AppTab::Calendar,
    }
}

/// The other input mode.
pub open spec fn spec_toggle_input(m: InputMode) -> InputMode {
    match m {
        InputMode::Normal => InputMode::Editing,
        InputMode::Editing => InputMode::Normal,
    }
}

/// One session's state. The cursor `selected_task_index` points into the
/// visible sequence, never into the store; it is `None` when nothing is
/// visible.
pub struct App {
    pub tasks: Vec<Task>,
    pub mode: AppMode,
    pub input_mode: InputMode,
    pub current_tab: AppTab,
    pub selected_task_index: Option<usize>,
    pub new_task_input: String,
    pub filter: FilterCriteria,
    pub show_help: bool,
    pub show_task_details: bool,
}

/// The cells the selection engine sees: for each entry of `vis`, the status
/// and priority of the task it points at.
pub open spec fn cells_of(tasks: Seq<Task>, vis: Seq<int>) -> Seq<Cell> {
    Seq::new(
        vis.len(),
        |k: int|
            Cell { status: tasks[vis[k]].status, priority: tasks[vis[k]].priority },
    )
}

/// The cells of the currently visible tasks of a session.
pub open spec fn app_cells(a: App) -> Seq<Cell> {
    cells_of(a.tasks@, spec_visible(a.tasks@, a.filter))
}

/// Whether `b` is `a` with at most the cursor changed.
pub open spec fn same_but_selection(a: App, b: App) -> bool {
    &&& b.tasks == a.tasks
    &&& b.mode == a.mode
    &&& b.input_mode == a.input_mode
    &&& b.current_tab == a.current_tab
    &&& b.new_task_input == a.new_task_input
    &&& b.filter == a.filter
    &&& b.show_help == a.show_help
    &&& b.show_task_details == a.show_task_details
}

/// Whether `b` is `a` with at most the task store changed.
pub open spec fn same_but_tasks(a: App, b: App) -> bool {
    &&& b.mode == a.mode
    &&& b.input_mode == a.input_mode
    &&& b.current_tab == a.current_tab
    &&& b.selected_task_index == a.selected_task_index
    &&& b.new_task_input == a.new_task_input
    &&& b.filter == a.filter
    &&& b.show_help == a.show_help
    &&& b.show_task_details == a.show_task_details
}

/// A freshly started session: an empty store, the kanban board showing, no
/// cursor, no text entry, and the filter switch off.
pub open spec fn spec_initial(a: App) -> bool {
    &&& a.tasks@ == Seq::<Task>::empty()
    &&& a.mode == AppMode::Kanban
    &&& a.input_mode == InputMode::Normal
    &&& a.current_tab == AppTab::Tasks
    &&& a.selected_task_index is None
    &&& a.new_task_input@ == Seq::<char>::empty()
    &&& !a.filter.active
    &&& a.filter.status_filter is None
    &&& a.filter.priority_filter is None
    &&& a.filter.search_query@ == Seq::<char>::empty()
    &&& !a.show_help
    &&& !a.show_task_details
}

/// A task after one status advance: the same record, one step along the
/// status cycle.
pub open spec fn spec_advance(t: Task) -> Task {
    Task { status: spec_next_status(t.status), ..t }
}

/// Advancing a task's status three times returns the task to exactly its
/// original state: the cycle Todo -> InProgress -> Done closes.
pub proof fn lemma_advance_cycle_closes(t: Task)
    ensures
        spec_advance(spec_advance(spec_advance(t))) == t,
{
}

/// The title of the k-th seeded sample task.
pub open spec fn sample_title(k: int) -> &'static str {
    if k == 0 {
        "Implement task creation"
    } else if k == 1 {
        "Design kanban view"
    } else if k == 2 {
        "Add keyboard shortcuts"
    } else if k == 3 {
        "Create task filtering"
    } else if k == 4 {
        "Implement persistence"
    } else if k == 5 {
        "Add due dates"
    } else if k == 6 {
        "Create list view"
    } else if k == 7 {
        "Add task search"
    } else if k == 8 {
        "Design statistics view"
    } else {
        "Write documentation"
    }
}

/// The description of the k-th seeded sample task.
pub open spec fn sample_description(k: int) -> &'static str {
    if k == 0 {
        "Add ability to create new tasks"
    } else if k == 1 {
        "Create a beautiful kanban board UI"
    } else if k == 2 {
        "Implement intuitive keyboard navigation"
    } else if k == 3 {
        "Allow filtering by status and priority"
    } else if k == 4 {
        "Save tasks to disk"
    } else if k == 5 {
        "Implement due date field and sorting"
    } else if k == 6 {
        "Implement alternative list view"
    } else if k == 7 {
        "Implement text search functionality"
    } else if k == 8 {
        "Create charts for task progress"
    } else {
        "Document usage and shortcuts"
    }
}

/// The status of the k-th seeded sample task.
pub open spec fn sample_status(k: int) -> TaskStatus {
    if k == 1 || k == 4 {
        TaskStatus::InProgress
    } else if k == 6 || k == 7 {
        TaskStatus::Done
    } else {
        TaskStatus::Todo
    }
}

/// The priority of the k-th seeded sample task.
pub open spec fn sample_priority(k: int) -> TaskPriority {
    if k == 1 {
        TaskPriority::Critical
    } else if k == 0 || k == 4 {
        TaskPriority::High
    } else if k == 2 || k == 5 || k == 6 || k == 8 {
        TaskPriority::Medium
    } else {
        TaskPriority::Low
    }
}

/// The number of tasks below index `n` that carry the given status.
pub open spec fn spec_count_status(tasks: Seq<Task>, st: TaskStatus, n: int) -> int
    decreases n,
{
    if n <= 0 {
        0
    } else {
        spec_count_status(tasks, st, n - 1) + if tasks[n - 1].status == st {
            1int
        } else {
            0int
        }
    }
}

/// The number of tasks below index `n` that carry the given priority.
pub open spec fn spec_count_priority(tasks: Seq<Task>, pr: TaskPriority, n: int) -> int
    decreases n,
{
    if n <= 0 {
        0
    } else {
        spec_count_priority(tasks, pr, n - 1) + if tasks[n - 1].priority == pr {
            1int
        } else {
            0int
        }
    }
}

/// The least index at or after `j` whose task carries the given identity, or
/// the store length when there is none.
pub open spec fn first_index_with_id(tasks: Seq<Task>, id: Seq<char>, j: int) -> int
    decreases tasks.len() - j,
{
    if j < 0 || j >= tasks.len() {
        tasks.len() as int
    } else if tasks[j].id@ == id {
        j
    } else {
        first_index_with_id(tasks, id, j + 1)
    }
}

proof fn lemma_first_index_found(tasks: Seq<Task>, id: Seq<char>, start: int, i: int)
    requires
        0 <= start <= i < tasks.len(),
        tasks[i].id@ == id,
        forall|j: int| start <= j < i ==> tasks[j].id@ != id,
    ensures
        first_index_with_id(tasks, id, start) == i,
    decreases i - start,
{
    if start < i {
        lemma_first_index_found(tasks, id, start + 1, i);
    }
}

impl Default for App {
    /// The documented starting state of a session.
    fn default() -> (a: Self)
        ensures
            spec_initial(a),
    {
        App {
            tasks: Vec::new(),
            mode: AppMode::Kanban,
            input_mode: InputMode::Normal,
            current_tab: AppTab::Tasks,
            selected_task_index: None,
            new_task_input: String::new(),
            filter: FilterCriteria::new(),
            show_help: false,
            show_task_details: false,
        }
    }
}

/// The cells of the given visible entries, read off the store.
fn visible_cells(tasks: &Vec<Task>, vis: &Vec<usize>) -> (r: Vec<Cell>)
    requires
        forall|k: int| 0 <= k < vis@.len() ==> vis@[k] < tasks@.len(),
    ensures
        r@.len() == vis@.len(),
        forall|k: int|
            0 <= k < vis@.len() ==> #[trigger] r@[k] == (Cell {
                status: tasks@[vis@[k] as int].status,
                priority: tasks@[vis@[k] as int].priority,
            }),
{
    let mut r: Vec<Cell> = Vec::new();
    let mut i: usize = 0;
    while i < vis.len()
        invariant
            i <= vis@.len(),
            forall|k: int| 0 <= k < vis@.len() ==> vis@[k] < tasks@.len(),
            r@.len() == i,
            forall|k: int|
                0 <= k < i ==> #[trigger] r@[k] == (Cell {
                    status: tasks@[vis@[k] as int].status,
                    priority: tasks@[vis@[k] as int].priority,
                }),
        decreases vis@.len() - i,
    {
        let idx = vis[i];
        r.push(Cell { status: tasks[idx].status, priority: tasks[idx].priority });
        i += 1;
    }
    r
}

impl App {
    /// A fresh session in the documented starting state.
    pub fn new() -> (a: Self)
        ensures
            spec_initial(a),
    {
        Self::default()
    }

    /// Appends a new task built from the given fields; everything else,
    /// the cursor included, stays as it was.
    pub fn add_task(
        &mut self,
        title: String,
        description: String,
        status: TaskStatus,
        priority: TaskPriority,
    )
        ensures
            same_but_tasks(*old(self), *final(self)),
            final(self).tasks@.len() == old(self).tasks@.len() + 1,
            final(self).tasks@.subrange(0, old(self).tasks@.len() as int) == old(self).tasks@,
            final(self).tasks@.last().title@ == title@,
            final(self).tasks@.last().description@ == description@,
            final(self).tasks@.last().status == status,
            final(self).tasks@.last().priority == priority,
            final(self).tasks@.last().due_date is None,
            final(self).tasks@.last().tags@ == Seq::<String>::empty(),
    {
        let task = Task::new(title.as_str(), description.as_str(), status, priority);
        self.tasks.push(task);
        proof {
            assert(final(self).tasks@.subrange(0, old(self).tasks@.len() as int) =~= old(
                self,
            ).tasks@);
        }
    }

    /// Seeds the documented sample tasks, appended in order to whatever the
    /// store already holds. Called when loading found no prior data.
    pub fn add_sample_tasks(&mut self)
        ensures
            same_but_tasks(*old(self), *final(self)),
            final(self).tasks@.len() == old(self).tasks@.len() + 10,
            final(self).tasks@.subrange(0, old(self).tasks@.len() as int) == old(self).tasks@,
            forall|k: int|
                0 <= k < 10 ==> {
                    let t = #[trigger] final(self).tasks@[old(self).tasks@.len() + k];
                    &&& t.title@ == sample_title(k)@
                    &&& t.description@ == sample_description(k)@
                    &&& t.status == sample_status(k)
                    &&& t.priority == sample_priority(k)
                    &&& t.due_date is None
                },
    {
        self.tasks.push(
            Task::new(
                "Implement task creation",
                "Add ability to create new tasks",
                TaskStatus::Todo,
                TaskPriority::High,
            ),
        );
        self.tasks.push(
            Task::new(
                "Design kanban view",
                "Create a beautiful kanban board UI",
                TaskStatus::InProgress,
                TaskPriority::Critical,
            ),
        );
        self.tasks.push(
            Task::new(
                "Add keyboard shortcuts",
                "Implement intuitive keyboard navigation",
                TaskStatus::Todo,
                TaskPriority::Medium,
            ),
        );
        self.tasks.push(
            Task::new(
                "Create task filtering",
                "Allow filtering by status and priority",
                TaskStatus::Todo,
                TaskPriority::Low,
            ),
        );
        self.tasks.push(
            Task::new(
                "Implement persistence",
                "Save tasks to disk",
                TaskStatus::InProgress,
                TaskPriority::High,
            ),
        );
        self.tasks.push(
            Task::new(
                "Add due dates",
                "Implement due date field and sorting",
                TaskStatus::Todo,
                TaskPriority::Medium,
            ),
        );
        self.tasks.push(
            Task::new(
                "Create list view",
                "Implement alternative list view",
                TaskStatus::Done,
                TaskPriority::Medium,
            ),
        );
        self.tasks.push(
            Task::new(
                "Add task search",
                "Implement text search functionality",
                TaskStatus::Done,
                TaskPriority::Low,
            ),
        );
        self.tasks.push(
            Task::new(
                "Design statistics view",
                "Create charts for task progress",
                TaskStatus::Todo,
                TaskPriority::Medium,
            ),
        );
        self.tasks.push(
            Task::new(
                "Write documentation",
                "Document usage and shortcuts",
                TaskStatus::Todo,
                TaskPriority::Low,
            ),
        );
        proof {
            assert(final(self).tasks@.subrange(0, old(self).tasks@.len() as int) =~= old(
                self,
            ).tasks@);
        }
    }

    /// The number of stored tasks with the given status.
    pub fn count_by_status(&self, st: TaskStatus) -> (n: usize)
        ensures
            n as int == spec_count_status(self.tasks@, st, self.tasks@.len() as int),
    {
        let mut n: usize = 0;
        let mut i: usize = 0;
        while i < self.tasks.len()
            invariant
                i <= self.tasks@.len(),
                n as int == spec_count_status(self.tasks@, st, i as int),
                n <= i,
            decreases self.tasks@.len() - i,
        {
            if self.tasks[i].status == st {
                n += 1;
            }
            i += 1;
        }
        n
    }

    /// The number of stored tasks with the given priority.
    pub fn count_by_priority(&self, pr: TaskPriority) -> (n: usize)
        ensures
            n as int == spec_count_priority(self.tasks@, pr, self.tasks@.len() as int),
    {
        let mut n: usize = 0;
        let mut i: usize = 0;
        while i < self.tasks.len()
            invariant
                i <= self.tasks@.len(),
                n as int == spec_count_priority(self.tasks@, pr, i as int),
                n <= i,
            decreases self.tasks@.len() - i,
        {
            if self.tasks[i].priority == pr {
                n += 1;
            }
            i += 1;
        }
        n
    }

    /// Switches to the next view mode in the fixed cycle.
    pub fn toggle_mode(&mut self)
        ensures
            *final(self) == (App { mode: spec_next_mode(old(self).mode), ..*old(self) }),
    {
        self.mode = match self.mode {
            AppMode::Normal => AppMode::Kanban,
            AppMode::Kanban => AppMode::List,
            AppMode::List => AppMode::Normal,
        };
    }

    /// Moves to the next tab in the fixed cycle.
    pub fn next_tab(&mut self)
        ensures
            *final(self) == (App { current_tab: spec_next_tab(old(self).current_tab), ..*old(self) }),
    {
        self.current_tab = match self.current_tab {
            AppTab::Tasks => AppTab::Calendar,
            AppTab::Calendar => AppTab::Statistics,
            AppTab::Statistics => AppTab::Tasks,
        };
    }

    /// Moves to the previous tab in the fixed cycle.
    pub fn previous_tab(&mut self)
        ensures
            *final(self) == (App {
                current_tab: spec_previous_tab(old(self).current_tab),
                ..*old(self)
            }),
    {
        self.current_tab = match self.current_tab {
            AppTab::Tasks => AppTab::Statistics,
            AppTab::Calendar => AppTab::Tasks,
            AppTab::Statistics => AppTab::Calendar,
        };
    }

    /// Toggles between navigation and text entry.
    pub fn toggle_input_mode(&mut self)
        ensures
            *final(self) == (App {
                input_mode: spec_toggle_input(old(self).input_mode),
                ..*old(self)
            }),
    {
        self.input_mode = match self.input_mode {
            InputMode::Normal => InputMode::Editing,
            InputMode::Editing => InputMode::Normal,
        };
    }

    /// Shows or hides the help overlay.
    pub fn toggle_help(&mut self)
        ensures
            *final(self) == (App { show_help: !old(self).show_help, ..*old(self) }),
    {
        self.show_help = !self.show_help;
    }

    /// The store indices of the tasks the filter lets through, in store
    /// order.
    pub fn filtered_tasks(&self) -> (r: Vec<usize>)
        ensures
            r@.map_values(|u: usize| u as int) == spec_visible(self.tasks@, self.filter),
            forall|k: int| 0 <= k < r@.len() ==> r@[k] < self.tasks@.len(),
    {
        visible_indices(&self.tasks, &self.filter)
    }

    /// Moves the cursor one step forward over the visible tasks: in kanban
    /// mode along the board traversal, otherwise along the flat list.
    pub fn select_next_task(&mut self)
        ensures
            same_but_selection(*old(self), *final(self)),
            opt_int(final(self).selected_task_index) == spec_select_next(
                app_cells(*old(self)),
                old(self).mode == AppMode::Kanban,
                opt_int(old(self).selected_task_index),
            ),
            final(self).selected_task_index is None <==> app_cells(*old(self)).len() == 0,
            final(self).selected_task_index is Some ==> final(self).selected_task_index.unwrap()
                < app_cells(*old(self)).len(),
    {
        let vis = visible_indices(&self.tasks, &self.filter);
        let cells = visible_cells(&self.tasks, &vis);
        let board = self.mode == AppMode::Kanban;
        proof {
            assert(cells@ =~= app_cells(*old(self)));
        }
        self.selected_task_index = select_next_pos(&cells, board, self.selected_task_index);
    }

    /// Moves the cursor one step backward over the visible tasks.
    pub fn select_previous_task(&mut self)
        ensures
            same_but_selection(*old(self), *final(self)),
            opt_int(final(self).selected_task_index) == spec_select_previous(
                app_cells(*old(self)),
                old(self).mode == AppMode::Kanban,
                opt_int(old(self).selected_task_index),
            ),
            final(self).selected_task_index is None <==> app_cells(*old(self)).len() == 0,
            final(self).selected_task_index is Some ==> final(self).selected_task_index.unwrap()
                < app_cells(*old(self)).len(),
    {
        let vis = visible_indices(&self.tasks, &self.filter);
        let cells = visible_cells(&self.tasks, &vis);
        let board = self.mode == AppMode::Kanban;
        proof {
            assert(cells@ =~= app_cells(*old(self)));
        }
        self.selected_task_index = select_previous_pos(&cells, board, self.selected_task_index);
    }

    /// In kanban mode, jumps the cursor to the priority-highest visible task
    /// of the next column in the cycle; a no-op in the other modes, when
    /// nothing is visible, or when that column is empty.
    pub fn next_column(&mut self)
        ensures
            same_but_selection(*old(self), *final(self)),
            opt_int(final(self).selected_task_index) == (if old(self).mode == AppMode::Kanban {
                spec_shift_column(
                    app_cells(*old(self)),
                    true,
                    opt_int(old(self).selected_task_index),
                )
            } else {
                opt_int(old(self).selected_task_index)
            }),
            opt_int(final(self).selected_task_index) != opt_int(old(self).selected_task_index)
                ==> final(self).selected_task_index is Some
                && final(self).selected_task_index.unwrap() < app_cells(*old(self)).len(),
    {
        if self.mode != AppMode::Kanban {
            return ;
        }
        let vis = visible_indices(&self.tasks, &self.filter);
        let cells = visible_cells(&self.tasks, &vis);
        proof {
            assert(cells@ =~= app_cells(*old(self)));
        }
        self.selected_task_index = shift_column_pos(&cells, true, self.selected_task_index);
    }

    /// In kanban mode, jumps the cursor to the priority-highest visible task
    /// of the previous column in the cycle; a no-op in the other modes, when
    /// nothing is visible, or when that column is empty.
    pub fn previous_column(&mut self)
        ensures
            same_but_selection(*old(self), *final(self)),
            opt_int(final(self).selected_task_index) == (if old(self).mode == AppMode::Kanban {
                spec_shift_column(
                    app_cells(*old(self)),
                    false,
                    opt_int(old(self).selected_task_index),
                )
            } else {
                opt_int(old(self).selected_task_index)
            }),
            opt_int(final(self).selected_task_index) != opt_int(old(self).selected_task_index)
                ==> final(self).selected_task_index is Some
                && final(self).selected_task_index.unwrap() < app_cells(*old(self)).len(),
    {
        if self.mode != AppMode::Kanban {
            return ;
        }
        let vis = visible_indices(&self.tasks, &self.filter);
        let cells = visible_cells(&self.tasks, &vis);
        proof {
            assert(cells@ =~= app_cells(*old(self)));
        }
        self.selected_task_index = shift_column_pos(&cells, false, self.selected_task_index);
    }

    /// Advances the status of the selected task one step along the cycle.
    /// The selected visible entry is resolved to the store through the
    /// task's stable identity, never through its position. Returns whether
    /// a task was changed, so the caller knows to persist the store.
    pub fn move_task_status(&mut self) -> (changed: bool)
        ensures
            same_but_tasks(*old(self), *final(self)),
            ({
                let vis = spec_visible(old(self).tasks@, old(self).filter);
                let cur = opt_int(old(self).selected_task_index);
                if cur is Some && cur.unwrap() < vis.len() {
                    let k = first_index_with_id(
                        old(self).tasks@,
                        old(self).tasks@[vis[cur.unwrap()]].id@,
                        0,
                    );
                    &&& changed
                    &&& 0 <= k < old(self).tasks@.len()
                    &&& final(self).tasks@ == old(self).tasks@.update(
                        k,
                        spec_advance(old(self).tasks@[k]),
                    )
                } else {
                    &&& !changed
                    &&& final(self).tasks@ == old(self).tasks@
                }
            }),
    {
        let vis = visible_indices(&self.tasks, &self.filter);
        let cur = match self.selected_task_index {
            None => {
                return false;
            },
            Some(c) => c,
        };
        if cur >= vis.len() {
            return false;
        }
        let store_idx = vis[cur];
        let target_id = self.tasks[store_idx].id.clone();
        proof {
            let visq = spec_visible(old(self).tasks@, old(self).filter);
            assert(visq[cur as int] == store_idx as int);
        }
        let mut i: usize = 0;
        while i < self.tasks.len()
            invariant
                self == old(self),
                store_idx < self.tasks@.len(),
                self.tasks@[store_idx as int].id@ == target_id@,
                opt_int(old(self).selected_task_index) == Some(cur as int),
                cur < spec_visible(old(self).tasks@, old(self).filter).len(),
                spec_visible(old(self).tasks@, old(self).filter)[cur as int] == store_idx as int,
                i <= self.tasks@.len(),
                forall|j: int| 0 <= j < i ==> self.tasks@[j].id@ != target_id@,
            decreases self.tasks@.len() - i,
        {
            if self.tasks[i].id == target_id {
                proof {
                    lemma_first_index_found(self.tasks@, target_id@, 0, i as int);
                }
                let ns = crate::models::next_status(self.tasks[i].status);
                self.tasks[i].status = ns;
                return true;
            }
            i += 1;
        }
        proof {
            assert(self.tasks@[store_idx as int].id@ != target_id@);
            assert(false);
        }
        false
    }
}

} // verus!
