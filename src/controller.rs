use vstd::prelude::*;

use crate::board::{
    card_at_offset, card_heights, card_hit, column_at, column_at_x, column_hit, column_status, heights_of,
    offset_below_border, offset_in, status_of_column, x_hit, Rect,
};
use crate::calendar::{MeetingView, NextMeeting};
use crate::store::{
    advance_outcome, after_block, after_complete, after_remove, after_reset, after_set_description, after_set_status,
    after_set_step_text, after_step_back, can_step_back, column_of, has_current_step, has_id,
    index_of, lemma_index_of, lemma_update_keeps_inv, new_task_view, store_inv, task_of, with_status, Advance, TaskStore,
};
use crate::task::{copy_strings, steps_view, Task, TaskStatus, TaskView, Timestamp};
use crate::text::{pop_char, push_char};

verus! {

/// What the board is doing with the keyboard.
#[derive(Clone, Copy, Debug, PartialEq, Eq, Structural)]
pub enum AppMode {
    Navigate,
    AddTask,
    EditStep,
    EditTaskName,
    ConfirmDelete,
}

/// Form field holding the description.
pub const DESCRIPTION_FIELD: usize = 0;

/// Form field where steps are entered one at a time.
pub const STEP_FIELD: usize = 1;

/// Form field that submits the form.
pub const SUBMIT_FIELD: usize = 2;

/// The add-task form: a description, the steps entered so far, the step being
/// typed, and the field that has focus.
pub struct TaskForm {
    pub description: String,
    pub steps: Vec<String>,
    pub current_step_input: String,
    pub active_field: usize,
}

pub ghost struct FormView {
    pub description: Seq<char>,
    pub steps: Seq<Seq<char>>,
    pub input: Seq<char>,
    pub active_field: nat,
}

impl View for TaskForm {
    type V = FormView;

    open spec fn view(&self) -> FormView {
        FormView {
            description: self.description@,
            steps: steps_view(self.steps@),
            input: self.current_step_input@,
            active_field: self.active_field as nat,
        }
    }
}

pub open spec fn empty_form() -> FormView {
    FormView { description: Seq::empty(), steps: Seq::empty(), input: Seq::empty(), active_field: 0 }
}

impl TaskForm {
    /// An empty form with focus on the description.
    pub fn new() -> (r: TaskForm)
        ensures
            r@ == empty_form(),
    {
        let r = TaskForm {
            description: String::new(),
            steps: Vec::new(),
            current_step_input: String::new(),
            active_field: DESCRIPTION_FIELD,
        };
        assert(r@.steps =~= Seq::<Seq<char>>::empty());
        r
    }
}

/// A key press, as the board sees it.
#[derive(Clone, Copy, Debug, PartialEq, Eq, Structural)]
pub enum Key {
    Char(char),
    Enter,
    Esc,
    Tab,
    Backspace,
    Left,
    Right,
    Up,
    Down,
    Other,
}

/// What the primary pointer button did.
#[derive(Clone, Copy, Debug, PartialEq, Eq, Structural)]
pub enum PointerKind {
    Down,
    Drag,
    Up,
    Other,
}

/// A pointer event at a terminal cell.
#[derive(Clone, Copy, Debug, PartialEq, Eq, Structural)]
pub struct PointerEvent {
    pub kind: PointerKind,
    pub x: u16,
    pub y: u16,
}

/// Work the caller does after an event: persist the store, play the
/// completion chime.
#[derive(Clone, Copy, Debug, PartialEq, Eq, Structural)]
pub struct Effect {
    pub save: bool,
    pub chime: bool,
}

pub open spec fn effect(save: bool, chime: bool) -> Effect {
    Effect { save, chime }
}

impl Effect {
    fn none() -> (r: Effect)
        ensures
            r == effect(false, false),
    {
        Effect { save: false, chime: false }
    }
}

/// The interactive board: the store, the input mode with its buffers, the
/// selection, the column rectangles of the last frame and the drag session.
pub struct App {
    pub store: TaskStore,
    pub mode: AppMode,
    pub selected_column: usize,
    pub selected_task: Option<usize>,
    pub should_quit: bool,
    pub form: TaskForm,
    pub edit_buffer: String,
    pub editing_task_id: Option<usize>,
    pub deleting_task_id: Option<usize>,
    pub column_areas: Vec<Rect>,
    pub dragging_task: Option<(usize, usize)>,
    pub drag_target_column: Option<usize>,
    pub next_meeting: Option<NextMeeting>,
}

pub ghost struct AppView {
    pub store: Seq<TaskView>,
    pub next_id: nat,
    pub mode: AppMode,
    pub selected_column: usize,
    pub selected_task: Option<usize>,
    pub should_quit: bool,
    pub form: FormView,
    pub edit_buffer: Seq<char>,
    pub editing_task_id: Option<usize>,
    pub deleting_task_id: Option<usize>,
    pub column_areas: Seq<Rect>,
    pub dragging_task: Option<(usize, usize)>,
    pub drag_target_column: Option<usize>,
    pub next_meeting: Option<MeetingView>,
}

impl View for App {
    type V = AppView;

    open spec fn view(&self) -> AppView {
        AppView {
            store: self.store@,
            next_id: self.store.spec_next_id(),
            mode: self.mode,
            selected_column: self.selected_column,
            selected_task: self.selected_task,
            should_quit: self.should_quit,
            form: self.form@,
            edit_buffer: self.edit_buffer@,
            editing_task_id: self.editing_task_id,
            deleting_task_id: self.deleting_task_id,
            column_areas: self.column_areas@,
            dragging_task: self.dragging_task,
            drag_target_column: self.drag_target_column,
            next_meeting: match self.next_meeting {
                Some(m) => Some(m@),
                None => None,
            },
        }
    }
}

/// The tasks of the selected column, in display order.
pub open spec fn lane(v: AppView) -> Seq<TaskView> {
    column_of(v.store, status_of_column(v.selected_column as int))
}

/// Identifier of the selected task: the selection is a position in the
/// selected column's current list.
pub open spec fn selected_id(v: AppView) -> Option<usize> {
    match v.selected_task {
        Some(i) => if i < lane(v).len() {
            Some(lane(v)[i as int].id as usize)
        } else {
            None
        },
        None => None,
    }
}

pub open spec fn select_down(v: AppView) -> Option<usize> {
    let n = lane(v).len();
    if n == 0 {
        v.selected_task
    } else {
        match v.selected_task {
            None => Some(0),
            Some(i) => if i >= n - 1 {
                Some((n - 1) as usize)
            } else {
                Some((i + 1) as usize)
            },
        }
    }
}

pub open spec fn select_up(v: AppView) -> Option<usize> {
    if lane(v).len() == 0 {
        v.selected_task
    } else {
        match v.selected_task {
            None => Some(0),
            Some(i) => if i == 0 {
                Some(0)
            } else {
                Some((i - 1) as usize)
            },
        }
    }
}

/// The task is in the store and complete.
pub open spec fn finished(s: Seq<TaskView>, id: nat) -> bool {
    has_id(s, id) && task_of(s, id).status == TaskStatus::Complete
}

/// Back to navigation with nothing being edited.
pub open spec fn edit_closed(v: AppView) -> AppView {
    AppView { mode: AppMode::Navigate, edit_buffer: Seq::empty(), editing_task_id: None, ..v }
}

/// Navigation keys: the new state and the effect.
pub open spec fn navigate(v: AppView, key: Key) -> (AppView, Effect) {
    let none = effect(false, false);
    match key {
        Key::Char(c) => if c == 'q' {
            (AppView { should_quit: true, ..v }, none)
        } else if c == 'a' {
            (AppView { mode: AppMode::AddTask, form: empty_form(), ..v }, none)
        } else if c == 'n' || c == 'b' {
            match selected_id(v) {
                Some(id) => (
                    AppView {
                        store: if c == 'n' {
                            after_reset(v.store, id as nat)
                        } else {
                            after_block(v.store, id as nat)
                        },
                        selected_task: None,
                        ..v
                    },
                    effect(true, false),
                ),
                None => (v, none),
            }
        } else if c == 'i' {
            match selected_id(v) {
                Some(id) => if has_id(v.store, id as nat) {
                    (
                        AppView {
                            store: after_set_status(v.store, id as nat, TaskStatus::InProgress),
                            selected_task: None,
                            ..v
                        },
                        effect(true, false),
                    )
                } else {
                    (v, none)
                },
                None => (v, none),
            }
        } else if c == 'd' || c == ' ' {
            match selected_id(v) {
                Some(id) => {
                    let s = after_complete(v.store, id as nat);
                    (
                        AppView {
                            store: s,
                            selected_task: if finished(s, id as nat) {
                                None
                            } else {
                                v.selected_task
                            },
                            ..v
                        },
                        effect(true, advance_outcome(v.store, id as nat) == Advance::TaskCompleted),
                    )
                },
                None => (v, none),
            }
        } else if c == 'u' {
            match selected_id(v) {
                Some(id) => (
                    AppView { store: after_step_back(v.store, id as nat), ..v },
                    effect(can_step_back(v.store, id as nat), false),
                ),
                None => (v, none),
            }
        } else if c == 'e' {
            match selected_id(v) {
                Some(id) => if has_current_step(v.store, id as nat) {
                    let t = task_of(v.store, id as nat);
                    (
                        AppView {
                            edit_buffer: t.steps[t.current_step as int],
                            editing_task_id: Some(id),
                            mode: AppMode::EditStep,
                            ..v
                        },
                        none,
                    )
                } else {
                    (v, none)
                },
                None => (v, none),
            }
        } else if c == 'E' {
            match selected_id(v) {
                Some(id) => if has_id(v.store, id as nat) {
                    (
                        AppView {
                            edit_buffer: task_of(v.store, id as nat).description,
                            editing_task_id: Some(id),
                            mode: AppMode::EditTaskName,
                            ..v
                        },
                        none,
                    )
                } else {
                    (v, none)
                },
                None => (v, none),
            }
        } else if c == 'r' {
            match selected_id(v) {
                Some(id) => (AppView { deleting_task_id: Some(id), mode: AppMode::ConfirmDelete, ..v }, none),
                None => (v, none),
            }
        } else {
            (v, none)
        },
        Key::Left => if v.selected_column > 0 {
            (AppView { selected_column: (v.selected_column - 1) as usize, selected_task: None, ..v }, none)
        } else {
            (v, none)
        },
        Key::Right => if v.selected_column < 3 {
            (AppView { selected_column: (v.selected_column + 1) as usize, selected_task: None, ..v }, none)
        } else {
            (v, none)
        },
        Key::Up => (AppView { selected_task: select_up(v), ..v }, none),
        Key::Down => (AppView { selected_task: select_down(v), ..v }, none),
        _ => (v, none),
    }
}

/// A submit creates a task: the description is not empty and an identifier
/// is left.
pub open spec fn can_submit(v: AppView) -> bool {
    v.form.description.len() > 0 && v.next_id < usize::MAX
}

/// The form after a submit: with a description and an identifier left, a new
/// task created at `created_at` carries the form's steps, and the board goes
/// back to navigation.
pub open spec fn submitted(v: AppView, created_at: Timestamp) -> AppView {
    if can_submit(v) {
        let t = TaskView { steps: v.form.steps, ..new_task_view(v.next_id, v.form.description, created_at) };
        AppView {
            store: v.store.push(t),
            next_id: v.next_id + 1,
            mode: AppMode::Navigate,
            form: empty_form(),
            ..v
        }
    } else {
        v
    }
}

pub open spec fn with_form(v: AppView, f: FormView) -> AppView {
    AppView { form: f, ..v }
}

/// Keys in the add-task form.
pub open spec fn form_key(v: AppView, key: Key, created_at: Timestamp) -> (AppView, Effect) {
    let f = v.form;
    let none = effect(false, false);
    match key {
        Key::Esc => (AppView { mode: AppMode::Navigate, form: empty_form(), ..v }, none),
        Key::Tab => (with_form(v, FormView { active_field: (f.active_field + 1) % 3, ..f }), none),
        Key::Enter => if f.active_field == 0 {
            (with_form(v, FormView { active_field: 1, ..f }), none)
        } else if f.active_field == 1 {
            if f.input.len() > 0 {
                (with_form(v, FormView { steps: f.steps.push(f.input), input: Seq::empty(), ..f }), none)
            } else {
                (v, none)
            }
        } else {
            (submitted(v, created_at), effect(can_submit(v), false))
        },
        Key::Char(c) => if f.active_field == 0 {
            (with_form(v, FormView { description: f.description.push(c), ..f }), none)
        } else if f.active_field == 1 {
            (with_form(v, FormView { input: f.input.push(c), ..f }), none)
        } else {
            (v, none)
        },
        Key::Backspace => if f.active_field == 0 && f.description.len() > 0 {
            (with_form(v, FormView { description: f.description.drop_last(), ..f }), none)
        } else if f.active_field == 1 && f.input.len() > 0 {
            (with_form(v, FormView { input: f.input.drop_last(), ..f }), none)
        } else {
            (v, none)
        },
        _ => (v, none),
    }
}

/// Keys while editing text: `Esc` discards, `Enter` commits, characters and
/// backspace edit the buffer.
pub open spec fn edit_key(v: AppView, key: Key, committed: (AppView, Effect)) -> (AppView, Effect) {
    let none = effect(false, false);
    match key {
        Key::Esc => (edit_closed(v), none),
        Key::Enter => committed,
        Key::Char(c) => (AppView { edit_buffer: v.edit_buffer.push(c), ..v }, none),
        Key::Backspace => if v.edit_buffer.len() > 0 {
            (AppView { edit_buffer: v.edit_buffer.drop_last(), ..v }, none)
        } else {
            (v, none)
        },
        _ => (v, none),
    }
}

/// Committing an edited step: a non-empty buffer replaces the current step.
pub open spec fn step_saved(v: AppView) -> (AppView, Effect) {
    match v.editing_task_id {
        Some(id) => if v.edit_buffer.len() > 0 && has_current_step(v.store, id as nat) {
            (
                edit_closed(AppView { store: after_set_step_text(v.store, id as nat, v.edit_buffer), ..v }),
                effect(true, false),
            )
        } else {
            (edit_closed(v), effect(false, false))
        },
        None => (edit_closed(v), effect(false, false)),
    }
}

/// Committing an edited name: a non-empty buffer replaces the description.
pub open spec fn name_saved(v: AppView) -> (AppView, Effect) {
    match v.editing_task_id {
        Some(id) => if v.edit_buffer.len() > 0 && has_id(v.store, id as nat) {
            (
                edit_closed(AppView { store: after_set_description(v.store, id as nat, v.edit_buffer), ..v }),
                effect(true, false),
            )
        } else {
            (edit_closed(v), effect(false, false))
        },
        None => (edit_closed(v), effect(false, false)),
    }
}

/// Keys while a deletion waits for confirmation.
pub open spec fn confirm_key(v: AppView, key: Key) -> (AppView, Effect) {
    let closed = AppView { mode: AppMode::Navigate, deleting_task_id: None, ..v };
    match key {
        Key::Char(c) => if c == 'y' || c == 'Y' {
            match v.deleting_task_id {
                Some(id) => (
                    AppView { store: after_remove(v.store, id as nat), selected_task: None, ..closed },
                    effect(true, false),
                ),
                None => (closed, effect(false, false)),
            }
        } else if c == 'n' || c == 'N' {
            (closed, effect(false, false))
        } else {
            (v, effect(false, false))
        },
        Key::Esc => (closed, effect(false, false)),
        _ => (v, effect(false, false)),
    }
}

/// A key in whatever mode the board is in.
pub open spec fn key_step(v: AppView, key: Key, created_at: Timestamp) -> (AppView, Effect) {
    match v.mode {
        AppMode::Navigate => navigate(v, key),
        AppMode::AddTask => form_key(v, key, created_at),
        AppMode::EditStep => edit_key(v, key, step_saved(v)),
        AppMode::EditTaskName => edit_key(v, key, name_saved(v)),
        AppMode::ConfirmDelete => confirm_key(v, key),
    }
}

/// Pressing the pointer: the column under it is selected; on a card, that
/// card is selected and a drag session starts from its column. The column's
/// top border row holds no card.
pub open spec fn pointer_down(v: AppView, x: int, y: int) -> AppView {
    let c = column_hit(v.column_areas, x, y);
    if c < 0 {
        v
    } else {
        let cards = column_of(v.store, status_of_column(c));
        let off = offset_in(v.column_areas[c], y);
        let k = if off < 0 {
            -1
        } else {
            card_hit(heights_of(cards), off)
        };
        if k < 0 {
            AppView { selected_column: c as usize, ..v }
        } else {
            AppView {
                selected_column: c as usize,
                selected_task: Some(k as usize),
                dragging_task: Some((cards[k].id as usize, c as usize)),
                drag_target_column: Some(c as usize),
                ..v
            }
        }
    }
}

/// Moving with the button held: the column under `x` becomes the drop target.
pub open spec fn pointer_drag(v: AppView, x: int) -> AppView {
    if v.dragging_task is Some && x_hit(v.column_areas, x) >= 0 {
        AppView { drag_target_column: Some(x_hit(v.column_areas, x) as usize), ..v }
    } else {
        v
    }
}

/// Releasing the pointer: a drop on another column overwrites the task's
/// status with that column's; the drag session ends in every case.
pub open spec fn pointer_up(v: AppView) -> (AppView, Effect) {
    let cleared = AppView { dragging_task: None, drag_target_column: None, ..v };
    match v.dragging_task {
        Some(drag) => match v.drag_target_column {
            Some(target) => if target != drag.1 {
                let status = status_of_column(target as int);
                let found = has_id(v.store, drag.0 as nat);
                (
                    AppView {
                        store: after_set_status(v.store, drag.0 as nat, status),
                        selected_column: target,
                        selected_task: None,
                        ..cleared
                    },
                    effect(found, found && status == TaskStatus::Complete),
                )
            } else {
                (cleared, effect(false, false))
            },
            None => (cleared, effect(false, false)),
        },
        None => (cleared, effect(false, false)),
    }
}

/// A pointer event: the new state and the effect.
pub open spec fn pointer_step(v: AppView, ev: PointerEvent) -> (AppView, Effect) {
    match ev.kind {
        PointerKind::Down => (pointer_down(v, ev.x as int, ev.y as int), effect(false, false)),
        PointerKind::Drag => (pointer_drag(v, ev.x as int), effect(false, false)),
        PointerKind::Up => pointer_up(v),
        PointerKind::Other => (v, effect(false, false)),
    }
}

impl App {
    /// The store is well-formed, the form's focus is one of its three fields,
    /// and every column index is one of the four lanes.
    pub open spec fn wf(&self) -> bool {
        &&& self.store.wf()
        &&& self.form.active_field < 3
        &&& self.selected_column <= 3
        &&& self.column_areas@.len() <= 4
        &&& self.dragging_task matches Some(d) ==> d.1 < 4
        &&& self.drag_target_column matches Some(t) ==> t < 4
    }

    /// A board in navigation mode on the first column, with nothing selected,
    /// edited or dragged.
    pub fn new(store: TaskStore, next_meeting: Option<NextMeeting>) -> (r: App)
        requires
            store.wf(),
        ensures
            r.wf(),
            r@.store == store@,
            r@.next_id == store.spec_next_id(),
            r@.mode == AppMode::Navigate,
            r@.selected_column == 0,
            r@.selected_task is None,
            !r@.should_quit,
            r@.form == empty_form(),
            r@.edit_buffer == Seq::<char>::empty(),
            r@.editing_task_id is None,
            r@.deleting_task_id is None,
            r@.column_areas == Seq::<Rect>::empty(),
            r@.dragging_task is None,
            r@.drag_target_column is None,
            r@.next_meeting == match next_meeting {
                Some(m) => Some(m@),
                None => None::<MeetingView>,
            },
    {
        let r = App {
            store,
            mode: AppMode::Navigate,
            selected_column: 0,
            selected_task: None,
            should_quit: false,
            form: TaskForm::new(),
            edit_buffer: String::new(),
            editing_task_id: None,
            deleting_task_id: None,
            column_areas: Vec::new(),
            dragging_task: None,
            drag_target_column: None,
            next_meeting,
        };
        assert(r@.column_areas =~= Seq::<Rect>::empty());
        r
    }

    /// Records the column rectangles of the frame just drawn, one per lane,
    /// for the next event.
    pub fn set_column_areas(&mut self, areas: Vec<Rect>)
        requires
            old(self).wf(),
            areas@.len() <= 4,
        ensures
            final(self).wf(),
            final(self)@ == (AppView { column_areas: areas@, ..old(self)@ }),
    {
        self.column_areas = areas;
    }

    /// The lane of the selected column.
    pub fn current_status(&self) -> (r: TaskStatus)
        ensures
            r == status_of_column(self.selected_column as int),
    {
        column_status(self.selected_column)
    }

    /// Identifier of the selected task, resolved against the selected column's
    /// current list.
    pub fn get_selected_task_id(&self) -> (r: Option<usize>)
        requires
            self.wf(),
        ensures
            r == selected_id(self@),
    {
        let tasks = self.store.column(self.current_status());
        match self.selected_task {
            Some(idx) => {
                if idx < tasks.len() {
                    assert(tasks@.map_values(|t: &Task| t@)[idx as int] == tasks@[idx as int]@);
                    Some(tasks[idx].id)
                } else {
                    None
                }
            },
            None => None,
        }
    }

    fn select_next_task(&mut self)
        requires
            old(self).wf(),
        ensures
            final(self)@ == (AppView { selected_task: select_down(old(self)@), ..old(self)@ }),
    {
        let n = self.store.column(self.current_status()).len();
        if n == 0 {
            return ;
        }
        self.selected_task = Some(
            match self.selected_task {
                None => 0,
                Some(i) => if i >= n - 1 {
                    n - 1
                } else {
                    i + 1
                },
            },
        );
    }

    fn select_previous_task(&mut self)
        requires
            old(self).wf(),
        ensures
            final(self)@ == (AppView { selected_task: select_up(old(self)@), ..old(self)@ }),
    {
        let n = self.store.column(self.current_status()).len();
        if n == 0 {
            return ;
        }
        self.selected_task = Some(
            match self.selected_task {
                None => 0,
                Some(i) => if i == 0 {
                    0
                } else {
                    i - 1
                },
            },
        );
    }

    fn move_to_not_started(&mut self) -> (r: Effect)
        requires
            old(self).wf(),
        ensures
            final(self).wf(),
            (final(self)@, r) == navigate(old(self)@, Key::Char('n')),
    {
        match self.get_selected_task_id() {
            Some(id) => {
                self.store.reset_task(id);
                self.selected_task = None;
                Effect { save: true, chime: false }
            },
            None => Effect::none(),
        }
    }

    fn move_to_in_progress(&mut self) -> (r: Effect)
        requires
            old(self).wf(),
        ensures
            final(self).wf(),
            (final(self)@, r) == navigate(old(self)@, Key::Char('i')),
    {
        match self.get_selected_task_id() {
            Some(id) => {
                if self.store.set_status(id, TaskStatus::InProgress) {
                    self.selected_task = None;
                    Effect { save: true, chime: false }
                } else {
                    Effect::none()
                }
            },
            None => Effect::none(),
        }
    }

    fn move_to_blocked(&mut self) -> (r: Effect)
        requires
            old(self).wf(),
        ensures
            final(self).wf(),
            (final(self)@, r) == navigate(old(self)@, Key::Char('b')),
    {
        match self.get_selected_task_id() {
            Some(id) => {
                self.store.block_task(id);
                self.selected_task = None;
                Effect { save: true, chime: false }
            },
            None => Effect::none(),
        }
    }

    fn complete_task(&mut self) -> (r: Effect)
        requires
            old(self).wf(),
        ensures
            final(self).wf(),
            (final(self)@, r) == navigate(old(self)@, Key::Char('d')),
    {
        match self.get_selected_task_id() {
            Some(id) => {
                let outcome = self.store.complete_task(id);
                let done = match self.store.get_task(id) {
                    Some(t) => t.status == TaskStatus::Complete,
                    None => false,
                };
                if done {
                    self.selected_task = None;
                }
                Effect { save: true, chime: outcome == Advance::TaskCompleted }
            },
            None => Effect::none(),
        }
    }

    fn undo_step(&mut self) -> (r: Effect)
        requires
            old(self).wf(),
        ensures
            final(self).wf(),
            (final(self)@, r) == navigate(old(self)@, Key::Char('u')),
    {
        match self.get_selected_task_id() {
            Some(id) => {
                let moved = self.store.step_back(id);
                Effect { save: moved, chime: false }
            },
            None => Effect::none(),
        }
    }

    fn start_edit_step(&mut self)
        requires
            old(self).wf(),
        ensures
            final(self).wf(),
            final(self)@ == navigate(old(self)@, Key::Char('e')).0,
    {
        if let Some(id) = self.get_selected_task_id() {
            let text = match self.store.get_task(id) {
                Some(t) => {
                    if t.steps.len() > 0 && t.current_step < t.steps.len() {
                        assert(steps_view(t.steps@)[t.current_step as int] == t.steps@[t.current_step as int]@);
                        Some(t.steps[t.current_step].clone())
                    } else {
                        None
                    }
                },
                None => None,
            };
            if let Some(text) = text {
                self.edit_buffer = text;
                self.editing_task_id = Some(id);
                self.mode = AppMode::EditStep;
            }
        }
    }

    fn start_edit_task_name(&mut self)
        requires
            old(self).wf(),
        ensures
            final(self).wf(),
            final(self)@ == navigate(old(self)@, Key::Char('E')).0,
    {
        if let Some(id) = self.get_selected_task_id() {
            let text = match self.store.get_task(id) {
                Some(t) => Some(t.description.clone()),
                None => None,
            };
            if let Some(text) = text {
                self.edit_buffer = text;
                self.editing_task_id = Some(id);
                self.mode = AppMode::EditTaskName;
            }
        }
    }

    fn remove_task(&mut self)
        requires
            old(self).wf(),
        ensures
            final(self).wf(),
            final(self)@ == navigate(old(self)@, Key::Char('r')).0,
    {
        if let Some(id) = self.get_selected_task_id() {
            self.deleting_task_id = Some(id);
            self.mode = AppMode::ConfirmDelete;
        }
    }

    /// Keys in navigation mode: columns, selection, lifecycle commands, and
    /// the starts of adding, editing and deleting.
    pub fn handle_navigate_keys(&mut self, key: Key) -> (r: Effect)
        requires
            old(self).wf(),
        ensures
            final(self).wf(),
            (final(self)@, r) == navigate(old(self)@, key),
    {
        match key {
            Key::Char('q') => {
                self.should_quit = true;
                Effect::none()
            },
            Key::Char('a') => {
                self.mode = AppMode::AddTask;
                self.form = TaskForm::new();
                Effect::none()
            },
            Key::Left => {
                if self.selected_column > 0 {
                    self.selected_column = self.selected_column - 1;
                    self.selected_task = None;
                }
                Effect::none()
            },
            Key::Right => {
                if self.selected_column < 3 {
                    self.selected_column = self.selected_column + 1;
                    self.selected_task = None;
                }
                Effect::none()
            },
            Key::Up => {
                self.select_previous_task();
                Effect::none()
            },
            Key::Down => {
                self.select_next_task();
                Effect::none()
            },
            Key::Char('n') => self.move_to_not_started(),
            Key::Char('i') => self.move_to_in_progress(),
            Key::Char('b') => self.move_to_blocked(),
            Key::Char('d') | Key::Char(' ') => self.complete_task(),
            Key::Char('u') => self.undo_step(),
            Key::Char('e') => {
                self.start_edit_step();
                Effect::none()
            },
            Key::Char('E') => {
                self.start_edit_task_name();
                Effect::none()
            },
            Key::Char('r') => {
                self.remove_task();
                Effect::none()
            },
            _ => Effect::none(),
        }
    }

    /// Creates the task the form describes, with its steps, and goes back to
    /// navigation; does nothing when the description is empty or no
    /// identifier is left.
    fn submit_task(&mut self) -> (r: Effect)
        requires
            old(self).wf(),
        ensures
            final(self).wf(),
            final(self)@ == submitted(old(self)@, final(self)@.store.last().created_at),
            r == effect(can_submit(old(self)@), false),
    {
        if self.form.description.as_str().is_empty() || self.store.next_id() == usize::MAX {
            return Effect::none();
        }
        let id = self.store.add_task(self.form.description.clone());
        let ghost added = self.store@;
        if self.form.steps.len() > 0 {
            let steps = copy_strings(&self.form.steps);
            proof {
                lemma_index_of(added, id as nat, added.len() - 1);
            }
            self.store.set_steps(id, steps);
            assert(self.store@ =~= old(self).store@.push(
                TaskView { steps: old(self).form@.steps, ..new_task_view(id as nat, old(self).form@.description, added.last().created_at) },
            ));
        } else {
            assert(old(self).form@.steps =~= Seq::<Seq<char>>::empty());
            assert(added =~= old(self).store@.push(
                TaskView { steps: old(self).form@.steps, ..new_task_view(id as nat, old(self).form@.description, added.last().created_at) },
            ));
        }
        self.mode = AppMode::Navigate;
        self.form = TaskForm::new();
        assert(self@.store.last().created_at == added.last().created_at);
        assert(self@ == submitted(old(self)@, added.last().created_at));
        Effect { save: true, chime: false }
    }

    /// Keys in the add-task form.
    pub fn handle_form_keys(&mut self, key: Key) -> (r: Effect)
        requires
            old(self).wf(),
        ensures
            final(self).wf(),
            (final(self)@, r) == form_key(old(self)@, key, final(self)@.store.last().created_at),
    {
        match key {
            Key::Esc => {
                self.mode = AppMode::Navigate;
                self.form = TaskForm::new();
                Effect::none()
            },
            Key::Tab => {
                self.form.active_field = (self.form.active_field + 1) % 3;
                Effect::none()
            },
            Key::Enter => {
                if self.form.active_field == DESCRIPTION_FIELD {
                    self.form.active_field = STEP_FIELD;
                    Effect::none()
                } else if self.form.active_field == STEP_FIELD {
                    if !self.form.current_step_input.as_str().is_empty() {
                        let step = self.form.current_step_input.clone();
                        self.form.steps.push(step);
                        self.form.current_step_input = String::new();
                        assert(self.form@.steps =~= old(self).form@.steps.push(old(self).form@.input));
                    }
                    Effect::none()
                } else {
                    self.submit_task()
                }
            },
            Key::Char(c) => {
                if self.form.active_field == DESCRIPTION_FIELD {
                    push_char(&mut self.form.description, c);
                } else if self.form.active_field == STEP_FIELD {
                    push_char(&mut self.form.current_step_input, c);
                }
                Effect::none()
            },
            Key::Backspace => {
                if self.form.active_field == DESCRIPTION_FIELD {
                    let _ = pop_char(&mut self.form.description);
                } else if self.form.active_field == STEP_FIELD {
                    let _ = pop_char(&mut self.form.current_step_input);
                }
                Effect::none()
            },
            _ => Effect::none(),
        }
    }

    fn close_edit(&mut self)
        requires
            old(self).wf(),
        ensures
            final(self).wf(),
            final(self)@ == edit_closed(old(self)@),
    {
        self.mode = AppMode::Navigate;
        self.edit_buffer = String::new();
        self.editing_task_id = None;
    }

    fn save_edited_step(&mut self) -> (r: Effect)
        requires
            old(self).wf(),
        ensures
            final(self).wf(),
            (final(self)@, r) == step_saved(old(self)@),
    {
        let mut saved = false;
        if let Some(id) = self.editing_task_id {
            if !self.edit_buffer.as_str().is_empty() {
                saved = self.store.set_step_text(id, self.edit_buffer.clone());
            }
        }
        self.close_edit();
        Effect { save: saved, chime: false }
    }

    fn save_edited_task_name(&mut self) -> (r: Effect)
        requires
            old(self).wf(),
        ensures
            final(self).wf(),
            (final(self)@, r) == name_saved(old(self)@),
    {
        let mut saved = false;
        if let Some(id) = self.editing_task_id {
            if !self.edit_buffer.as_str().is_empty() {
                saved = self.store.set_description(id, self.edit_buffer.clone());
            }
        }
        self.close_edit();
        Effect { save: saved, chime: false }
    }

    fn edit_buffer_key(&mut self, key: Key)
        requires
            old(self).wf(),
            key != Key::Esc,
            key != Key::Enter,
        ensures
            final(self).wf(),
            final(self)@ == edit_key(old(self)@, key, (old(self)@, effect(false, false))).0,
    {
        match key {
            Key::Char(c) => push_char(&mut self.edit_buffer, c),
            Key::Backspace => {
                let _ = pop_char(&mut self.edit_buffer);
            },
            _ => {},
        }
    }

    /// Keys while editing the current step.
    pub fn handle_edit_keys(&mut self, key: Key) -> (r: Effect)
        requires
            old(self).wf(),
        ensures
            final(self).wf(),
            (final(self)@, r) == edit_key(old(self)@, key, step_saved(old(self)@)),
    {
        match key {
            Key::Esc => {
                self.close_edit();
                Effect::none()
            },
            Key::Enter => self.save_edited_step(),
            _ => {
                self.edit_buffer_key(key);
                Effect::none()
            },
        }
    }

    /// Keys while editing the task's description.
    pub fn handle_edit_task_name_keys(&mut self, key: Key) -> (r: Effect)
        requires
            old(self).wf(),
        ensures
            final(self).wf(),
            (final(self)@, r) == edit_key(old(self)@, key, name_saved(old(self)@)),
    {
        match key {
            Key::Esc => {
                self.close_edit();
                Effect::none()
            },
            Key::Enter => self.save_edited_task_name(),
            _ => {
                self.edit_buffer_key(key);
                Effect::none()
            },
        }
    }

    /// Keys while a deletion waits: yes deletes and clears the selection, no
    /// or escape cancel; both go back to navigation.
    pub fn handle_confirm_keys(&mut self, key: Key) -> (r: Effect)
        requires
            old(self).wf(),
        ensures
            final(self).wf(),
            (final(self)@, r) == confirm_key(old(self)@, key),
    {
        match key {
            Key::Char('y') | Key::Char('Y') => {
                let mut eff = Effect::none();
                if let Some(id) = self.deleting_task_id {
                    self.store.remove_task(id);
                    self.selected_task = None;
                    eff = Effect { save: true, chime: false };
                }
                self.mode = AppMode::Navigate;
                self.deleting_task_id = None;
                eff
            },
            Key::Char('n') | Key::Char('N') | Key::Esc => {
                self.mode = AppMode::Navigate;
                self.deleting_task_id = None;
                Effect::none()
            },
            _ => Effect::none(),
        }
    }

    /// A key press, handled by the current mode.
    pub fn handle_key(&mut self, key: Key) -> (r: Effect)
        requires
            old(self).wf(),
        ensures
            final(self).wf(),
            (final(self)@, r) == key_step(old(self)@, key, final(self)@.store.last().created_at),
    {
        match self.mode {
            AppMode::Navigate => self.handle_navigate_keys(key),
            AppMode::AddTask => self.handle_form_keys(key),
            AppMode::EditStep => self.handle_edit_keys(key),
            AppMode::EditTaskName => self.handle_edit_task_name_keys(key),
            AppMode::ConfirmDelete => self.handle_confirm_keys(key),
        }
    }

    fn pointer_pressed(&mut self, x: u16, y: u16)
        requires
            old(self).wf(),
        ensures
            final(self).wf(),
            final(self)@ == pointer_down(old(self)@, x as int, y as int),
    {
        if let Some(c) = column_at(&self.column_areas, x, y) {
            self.selected_column = c;
            let area = self.column_areas[c];
            if let Some(offset) = offset_below_border(area, y) {
                let tasks = self.store.column(column_status(c));
                let heights = card_heights(&tasks);
                if let Some(k) = card_at_offset(&heights, offset) {
                    assert(tasks@.map_values(|t: &Task| t@)[k as int] == tasks@[k as int]@);
                    let id = tasks[k].id;
                    self.selected_task = Some(k);
                    self.dragging_task = Some((id, c));
                    self.drag_target_column = Some(c);
                }
            }
        }
    }

    fn pointer_moved(&mut self, x: u16)
        requires
            old(self).wf(),
        ensures
            final(self).wf(),
            final(self)@ == pointer_drag(old(self)@, x as int),
    {
        if self.dragging_task.is_some() {
            if let Some(c) = column_at_x(&self.column_areas, x) {
                self.drag_target_column = Some(c);
            }
        }
    }

    fn pointer_released(&mut self) -> (r: Effect)
        requires
            old(self).wf(),
        ensures
            final(self).wf(),
            (final(self)@, r) == pointer_up(old(self)@),
    {
        let mut eff = Effect::none();
        if let Some((task_id, origin)) = self.dragging_task {
            if let Some(target) = self.drag_target_column {
                if target != origin {
                    let status = column_status(target);
                    let is_complete = status == TaskStatus::Complete;
                    if self.store.set_status(task_id, status) {
                        eff = Effect { save: true, chime: is_complete };
                    }
                    self.selected_column = target;
                    self.selected_task = None;
                }
            }
        }
        self.dragging_task = None;
        self.drag_target_column = None;
        eff
    }

    /// A pointer event of the primary button. Outside navigation mode only a
    /// release counts, and it only ends the drag session.
    pub fn handle_mouse(&mut self, ev: PointerEvent) -> (r: Effect)
        requires
            old(self).wf(),
        ensures
            final(self).wf(),
            old(self)@.mode == AppMode::Navigate ==> (final(self)@, r) == pointer_step(old(self)@, ev),
            old(self)@.mode != AppMode::Navigate ==> r == effect(false, false) && final(self)@ == (if ev.kind
                == PointerKind::Up {
                AppView { dragging_task: None, drag_target_column: None, ..old(self)@ }
            } else {
                old(self)@
            }),
            ev.kind == PointerKind::Up ==> final(self)@.dragging_task is None && final(self)@.drag_target_column is None,
    {
        if self.mode != AppMode::Navigate {
            if ev.kind == PointerKind::Up {
                self.dragging_task = None;
                self.drag_target_column = None;
            }
            return Effect::none();
        }
        match ev.kind {
            PointerKind::Down => {
                self.pointer_pressed(ev.x, ev.y);
                Effect::none()
            },
            PointerKind::Drag => {
                self.pointer_moved(ev.x);
                Effect::none()
            },
            PointerKind::Up => self.pointer_released(),
            PointerKind::Other => Effect::none(),
        }
    }
}

/// Dropping a dragged task on the column it came from leaves the store as it
/// was; dropping it on another column sets its status to that column's,
/// whatever it was before, and changes nothing else of it.
pub proof fn lemma_drop(v: AppView, id: usize, origin: usize, target: usize)
    requires
        store_inv(v.store, v.next_id),
        v.dragging_task == Some((id, origin)),
        v.drag_target_column == Some(target),
        has_id(v.store, id as nat),
    ensures
        pointer_up(v).0.dragging_task is None,
        pointer_up(v).0.drag_target_column is None,
        target == origin ==> pointer_up(v).0.store == v.store,
        target != origin ==> has_id(pointer_up(v).0.store, id as nat) && task_of(pointer_up(v).0.store, id as nat)
            == with_status(task_of(v.store, id as nat), status_of_column(target as int)),
{
    if target != origin {
        let s = v.store;
        let i = index_of(s, id as nat);
        let k = choose|k: int| 0 <= k < s.len() && #[trigger] s[k].id == id as nat;
        lemma_index_of(s, id as nat, k);
        let t = with_status(s[i], status_of_column(target as int));
        lemma_update_keeps_inv(s, v.next_id, i, t);
        lemma_index_of(s.update(i, t), id as nat, i);
    }
}

} // verus!
