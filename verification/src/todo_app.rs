//! The todo list: tasks keyed by identifier, with statistics, filtered
//! and sorted listings, and a text form for persistence.
//!
//! Storage is an insertion-ordered vector with unique identifiers below
//! `next_id` as its invariant. Reading and writing the backing file is the
//! host program's business: the core turns the whole list into its text
//! form (`to_file_contents`) and absorbs such text back
//! (`load_from_lines`), and the host moves the text to and from disk.

use crate::todo::{
    is_task_line, lemma_task_line_newline_free, lemma_task_line_round_trip, priority_rank,
    storable, task_line, task_of_line, Priority, Task, TaskView,
};
use crate::text::free_of;
use crate::text::lemma_split_joined;
use crate::text::lemma_split_no_sep;
use crate::text::split_on;
use crate::text::split_text;
use crate::text::str_eq;
use crate::clock::fixed_timestamp;
use vstd::prelude::*;
use vstd::pervasive::VecAdditionalExecFns;
use vstd::string::StringExecFns;

verus! {

/// The first position holding identifier `id`, or the length when none.
pub open spec fn index_of_id(entries: Seq<TaskView>, id: u32) -> int
    decreases entries.len(),
{
    if entries.len() == 0 {
        0
    } else if entries[0].id == id {
        0
    } else {
        1 + index_of_id(entries.drop_first(), id)
    }
}

/// How many of the entries are completed.
pub open spec fn count_completed(entries: Seq<TaskView>) -> nat
    decreases entries.len(),
{
    if entries.len() == 0 {
        0
    } else {
        count_completed(entries.drop_last()) + (if entries.last().completed {
            1nat
        } else {
            0nat
        })
    }
}

/// The listing order: most urgent priority first, then by identifier.
pub open spec fn listed_before(a: TaskView, b: TaskView) -> bool {
    priority_rank(a.priority) < priority_rank(b.priority) || (priority_rank(a.priority)
        == priority_rank(b.priority) && a.id <= b.id)
}

/// Which tasks a listing keyword keeps: `completed`, `pending` and the
/// three priority names select; any other keyword, or none, keeps all.
pub open spec fn filter_keeps(filter: Option<Seq<char>>, t: TaskView) -> bool {
    match filter {
        Some(k) => {
            if k == "completed"@ {
                t.completed
            } else if k == "pending"@ {
                !t.completed
            } else if k == "high"@ {
                t.priority is High
            } else if k == "medium"@ {
                t.priority is Medium
            } else if k == "low"@ {
                t.priority is Low
            } else {
                true
            }
        },
        None => true,
    }
}

/// The entries a filter keeps, in their stored order.
pub open spec fn filtered(entries: Seq<TaskView>, filter: Option<Seq<char>>) -> Seq<TaskView> {
    entries.filter(|t: TaskView| filter_keeps(filter, t))
}

/// A todo list. Identifiers are unique and below `next_id`.
pub struct TodoApp {
    tasks: Vec<Task>,
    next_id: u32,
    file_path: String,
}

impl TodoApp {
    /// The stored tasks, in insertion order, as the specifications see
    /// them.
    pub closed spec fn entries(self) -> Seq<TaskView> {
        self.tasks@.map_values(|t: Task| t@)
    }

    /// The identifier the next added task will get.
    pub closed spec fn spec_next_id(self) -> u32 {
        self.next_id
    }

    /// The path the host persists this list under.
    pub closed spec fn spec_file_path(self) -> Seq<char> {
        self.file_path@
    }

    /// The invariant: every identifier is unique and below `next_id`.
    pub open spec fn wf(self) -> bool {
        &&& forall|i: int, j: int|
            0 <= i < j < self.entries().len() ==> #[trigger] self.entries()[i].id
                != #[trigger] self.entries()[j].id
        &&& forall|i: int|
            0 <= i < self.entries().len() ==> (#[trigger] self.entries()[i].id)
                < self.spec_next_id()
    }

    /// An empty list that will persist under `file_path`. The host reads
    /// the file, if one exists, and hands its lines to `load_from_lines`.
    pub fn new(file_path: String) -> (app: TodoApp)
        ensures
            app.wf(),
            app.entries() == Seq::<TaskView>::empty(),
            app.spec_next_id() == 1,
            app.spec_file_path() == file_path@,
    {
        let app = TodoApp { tasks: Vec::new(), next_id: 1, file_path };
        proof {
            assert(app.entries() =~= Seq::<TaskView>::empty());
        }
        app
    }

    /// The path the host persists this list under.
    pub fn file_path(&self) -> (p: &String)
        ensures
            p@ == self.spec_file_path(),
    {
        &self.file_path
    }

    /// The identifier the next added task will get.
    pub fn next_id(&self) -> (id: u32)
        ensures
            id == self.spec_next_id(),
    {
        self.next_id
    }

    /// How many tasks are stored.
    pub fn len(&self) -> (n: usize)
        ensures
            n == self.entries().len(),
    {
        self.tasks.len()
    }

    /// Adds a fresh task under the next identifier and returns that
    /// identifier. The identifier space must not be exhausted.
    pub fn add_task(&mut self, title: String, priority: Priority) -> (id: u32)
        requires
            old(self).wf(),
            old(self).spec_next_id() < u32::MAX,
        ensures
            final(self).wf(),
            id == old(self).spec_next_id(),
            final(self).spec_next_id() == id + 1,
            final(self).spec_file_path() == old(self).spec_file_path(),
            final(self).entries() == old(self).entries().push(
                TaskView {
                    id,
                    title: title@,
                    description: None,
                    completed: false,
                    priority,
                    created_at: fixed_timestamp(),
                },
            ),
    {
        let id = self.next_id;
        let task = Task::new(id, title, priority);
        proof {
            assert(self.tasks@.push(task).map_values(|t: Task| t@) =~= self.tasks@.map_values(
                |t: Task| t@,
            ).push(task@));
        }
        self.tasks.push(task);
        self.next_id = self.next_id + 1;
        id
    }

    /// The position of the task with identifier `id`, if it is stored.
    fn position_of(&self, id: u32) -> (r: Option<usize>)
        ensures
            r matches Some(i) ==> i < self.entries().len() && self.entries()[i as int].id == id,
            r is None ==> forall|i: int|
                0 <= i < self.entries().len() ==> (#[trigger] self.entries()[i].id) != id,
    {
        let mut i: usize = 0;
        while i < self.tasks.len()
            invariant
                i <= self.entries().len(),
                self.entries().len() == self.tasks@.len(),
                forall|j: int| 0 <= j < i ==> (#[trigger] self.entries()[j].id) != id,
            decreases self.tasks@.len() - i,
        {
            if self.tasks[i].id == id {
                return Some(i);
            }
            i = i + 1;
        }
        None
    }

    /// Removes the task with identifier `id`; reports whether one was
    /// stored.
    pub fn remove_task(&mut self, id: u32) -> (removed: bool)
        requires
            old(self).wf(),
        ensures
            final(self).wf(),
            final(self).spec_next_id() == old(self).spec_next_id(),
            final(self).spec_file_path() == old(self).spec_file_path(),
            removed <==> exists|i: int|
                0 <= i < old(self).entries().len() && (#[trigger] old(self).entries()[i].id) == id,
            removed ==> final(self).entries() == old(self).entries().remove(
                index_of_id(old(self).entries(), id),
            ),
            !removed ==> final(self).entries() == old(self).entries(),
    {
        match self.position_of(id) {
            Some(i) => {
                proof {
                    lemma_index_of_first(self.entries(), id, i as int);
                    assert(self.tasks@.remove(i as int).map_values(|t: Task| t@)
                        =~= self.tasks@.map_values(|t: Task| t@).remove(i as int));
                }
                self.tasks.remove(i);
                true
            },
            None => false,
        }
    }

    /// Flips the completion flag of the task with identifier `id`;
    /// reports whether one was stored.
    pub fn toggle_task(&mut self, id: u32) -> (toggled: bool)
        requires
            old(self).wf(),
        ensures
            final(self).wf(),
            final(self).spec_next_id() == old(self).spec_next_id(),
            final(self).spec_file_path() == old(self).spec_file_path(),
            toggled <==> exists|i: int|
                0 <= i < old(self).entries().len() && (#[trigger] old(self).entries()[i].id) == id,
            toggled ==> {
                let at = index_of_id(old(self).entries(), id);
                let was = old(self).entries()[at];
                final(self).entries() == old(self).entries().update(
                    at,
                    TaskView { completed: !was.completed, ..was },
                )
            },
            !toggled ==> final(self).entries() == old(self).entries(),
    {
        match self.position_of(id) {
            Some(i) => {
                proof {
                    lemma_index_of_first(self.entries(), id, i as int);
                }
                let mut task = self.tasks[i].duplicate();
                task.toggle_completed();
                self.tasks.set(i, task);
                proof {
                    assert(self.tasks@.map_values(|t: Task| t@) =~= old(self).entries().update(
                        i as int,
                        TaskView { completed: !old(self).entries()[i as int].completed, ..old(
                            self,
                        ).entries()[i as int] },
                    ));
                }
                true
            },
            None => false,
        }
    }

    /// Replaces the description of the task with identifier `id`; reports
    /// whether one was stored.
    pub fn update_description(&mut self, id: u32, description: String) -> (updated: bool)
        requires
            old(self).wf(),
        ensures
            final(self).wf(),
            final(self).spec_next_id() == old(self).spec_next_id(),
            final(self).spec_file_path() == old(self).spec_file_path(),
            updated <==> exists|i: int|
                0 <= i < old(self).entries().len() && (#[trigger] old(self).entries()[i].id) == id,
            updated ==> {
                let at = index_of_id(old(self).entries(), id);
                let was = old(self).entries()[at];
                final(self).entries() == old(self).entries().update(
                    at,
                    TaskView { description: Some(description@), ..was },
                )
            },
            !updated ==> final(self).entries() == old(self).entries(),
    {
        match self.position_of(id) {
            Some(i) => {
                proof {
                    lemma_index_of_first(self.entries(), id, i as int);
                }
                let mut task = self.tasks[i].duplicate();
                task.set_description(description);
                self.tasks.set(i, task);
                proof {
                    assert(self.tasks@.map_values(|t: Task| t@) =~= old(self).entries().update(
                        i as int,
                        TaskView { description: Some(description@), ..old(self).entries()[
                            i as int] },
                    ));
                }
                true
            },
            None => false,
        }
    }

    /// The stored tasks that `filter` keeps, each an independent copy,
    /// ordered for listing: most urgent priority first, then by
    /// identifier.
    pub fn list_tasks(&self, filter: Option<&str>) -> (listing: Vec<Task>)
        ensures
            ({
                let shown = listing@.map_values(|t: Task| t@);
                &&& shown.to_multiset() == filtered(self.entries(), keyword_view(filter)).to_multiset()
                &&& sorted_for_listing(shown)
            }),
    {
        broadcast use vstd::seq_lib::group_to_multiset_ensures;

        let ghost kv = keyword_view(filter);
        let mut listing: Vec<Task> = Vec::new();
        let mut i: usize = 0;
        proof {
            assert(self.entries().take(0) =~= Seq::<TaskView>::empty());
            assert(filtered(self.entries().take(0), kv) =~= listing@.map_values(|t: Task| t@));
        }
        while i < self.tasks.len()
            invariant
                0 <= i <= self.entries().len(),
                self.entries().len() == self.tasks@.len(),
                kv == keyword_view(filter),
                listing@.map_values(|t: Task| t@).to_multiset() == filtered(
                    self.entries().take(i as int),
                    kv,
                ).to_multiset(),
                sorted_for_listing(listing@.map_values(|t: Task| t@)),
            decreases self.tasks@.len() - i,
        {
            broadcast use vstd::seq_lib::group_to_multiset_ensures;

            let ghost prefix = self.entries().take(i as int);
            let ghost longer = self.entries().take(i + 1);
            let ghost here = self.entries()[i as int];
            proof {
                assert(longer.drop_last() =~= prefix);
                assert(longer.last() == here);
                reveal_with_fuel(Seq::filter, 2);
            }
            let task = &self.tasks[i];
            proof {
                assert(task@ == here);
            }
            let kept = keeps(filter, task);
            proof {
                assert(kept == filter_keeps(kv, here));
            }
            if kept {
                let copy = task.duplicate();
                proof {
                    reveal_with_fuel(Seq::filter, 2);
                    assert(filter_keeps(kv, here));
                    assert(filtered(longer, kv) =~= filtered(prefix, kv).push(here));
                    assert(filtered(longer, kv).to_multiset() =~= filtered(
                        prefix,
                        kv,
                    ).to_multiset().insert(here));
                }
                insert_sorted(&mut listing, copy);
            } else {
                proof {
                    reveal_with_fuel(Seq::filter, 2);
                    assert(!filter_keeps(kv, here));
                    assert(filtered(longer, kv) =~= filtered(prefix, kv));
                }
            }
            i = i + 1;
        }
        proof {
            assert(self.entries().take(self.entries().len() as int) =~= self.entries());
        }
        listing
    }

    /// Adds a task, replacing the entry with the same identifier if one is
    /// stored, and keeps `next_id` past every stored identifier.
    fn upsert_task(&mut self, task: Task)
        requires
            old(self).wf(),
            task@.id < u32::MAX,
        ensures
            final(self).wf(),
            final(self).spec_file_path() == old(self).spec_file_path(),
            final(self).entries() == upsert_view(old(self).entries(), task@),
            final(self).spec_next_id() == if task@.id >= old(self).spec_next_id() {
                task@.id + 1
            } else {
                old(self).spec_next_id() as int
            },
    {
        let ghost before = self.entries();
        let ghost tv = task@;
        let task_id = task.id;
        match self.position_of(task_id) {
            Some(i) => {
                proof {
                    assert forall|j: int| 0 <= j < i implies (#[trigger] before[j].id)
                        != tv.id by {
                        assert(before[i as int].id == tv.id);
                    }
                    lemma_index_of_first(before, tv.id, i as int);
                    assert(has_id(before, tv.id));
                }
                self.tasks.set(i, task);
                proof {
                    assert(self.tasks@.map_values(|t: Task| t@) =~= before.update(i as int, tv));
                }
            },
            None => {
                proof {
                    assert(!has_id(before, tv.id));
                }
                proof {
                    assert(self.tasks@.push(task).map_values(|t: Task| t@) =~= before.push(tv));
                }
                self.tasks.push(task);
            },
        }
        if task_id >= self.next_id {
            self.next_id = task_id + 1;
        }
    }

    /// Absorbs stored text: each line that is a well-formed task line is
    /// added, lines with an already stored identifier replacing their
    /// namesake, and `next_id` ends past every absorbed identifier; other
    /// lines are ignored, as is a line whose identifier leaves no room for
    /// a successor.
    pub fn load_from_lines(&mut self, content: &str)
        requires
            old(self).wf(),
        ensures
            final(self).wf(),
            final(self).spec_file_path() == old(self).spec_file_path(),
            ({
                let after = absorb_lines(
                    old(self).entries(),
                    old(self).spec_next_id(),
                    split_on(content@, '\n'),
                );
                final(self).entries() == after.0 && final(self).spec_next_id() == after.1
            }),
    {
        let ghost lines = split_on(content@, '\n');
        let parts = split_text(content, '\n');
        let mut i: usize = 0;
        proof {
            assert(lines.take(0) =~= Seq::<Seq<char>>::empty());
        }
        while i < parts.len()
            invariant
                0 <= i <= parts@.len(),
                lines == split_on(content@, '\n'),
                parts@.len() == lines.len(),
                forall|k: int| 0 <= k < parts@.len() ==> parts@[k]@ == #[trigger] lines[k],
                self.wf(),
                self.spec_file_path() == old(self).spec_file_path(),
                ({
                    let st = absorb_lines(
                        old(self).entries(),
                        old(self).spec_next_id(),
                        lines.take(i as int),
                    );
                    self.entries() == st.0 && self.spec_next_id() == st.1
                }),
            decreases parts@.len() - i,
        {
            proof {
                assert(lines.take(i + 1).drop_last() =~= lines.take(i as int));
                assert(lines.take(i + 1).last() == lines[i as int]);
            }
            match Task::from_file_format(parts[i].as_str()) {
                Some(task) => {
                    if task.id < u32::MAX {
                        self.upsert_task(task);
                    }
                },
                None => {},
            }
            i = i + 1;
        }
        proof {
            assert(lines.take(lines.len() as int) =~= lines);
        }
    }

    /// The whole list as stored text: one line per task in storage order,
    /// joined by newlines.
    pub fn to_file_contents(&self) -> (content: String)
        ensures
            content@ == lines_text(self.entries()),
    {
        let mut content = String::new();
        let mut i: usize = 0;
        proof {
            assert(content@ =~= lines_text(self.entries().take(0)));
        }
        while i < self.tasks.len()
            invariant
                0 <= i <= self.entries().len(),
                self.entries().len() == self.tasks@.len(),
                content@ == lines_text(self.entries().take(i as int)),
            decreases self.tasks@.len() - i,
        {
            let ghost prefix = self.entries().take(i as int);
            let ghost longer = self.entries().take(i + 1);
            proof {
                assert(longer.drop_last() =~= prefix);
                assert(longer.last() == self.entries()[i as int]);
            }
            if i > 0 {
                content.append("\n");
            }
            let line = self.tasks[i].to_file_format();
            content.append(line.as_str());
            proof {
                if i == 0 {
                    assert(longer =~= seq![self.entries()[0]]);
                    assert(content@ =~= lines_text(longer));
                } else {
                    assert(content@ =~= lines_text(prefix) + "\n"@ + task_line(
                        self.entries()[i as int],
                    ));
                }
            }
            i = i + 1;
        }
        proof {
            assert(self.entries().take(self.entries().len() as int) =~= self.entries());
        }
        content
    }

    /// The totals: how many tasks are stored, how many of them are
    /// completed, and how many are still pending.
    pub fn get_stats(&self) -> (stats: (usize, usize, usize))
        ensures
            stats.0 == self.entries().len(),
            stats.1 == count_completed(self.entries()),
            stats.2 == stats.0 - stats.1,
    {
        let total = self.tasks.len();
        let mut completed: usize = 0;
        let mut i: usize = 0;
        while i < total
            invariant
                0 <= i <= total,
                total == self.entries().len(),
                completed == count_completed(self.entries().take(i as int)),
                completed <= i,
            decreases total - i,
        {
            proof {
                assert(self.entries().take(i + 1).drop_last() =~= self.entries().take(i as int));
                assert(self.entries().take(i + 1).last() == self.entries()[i as int]);
            }
            if self.tasks[i].completed {
                completed = completed + 1;
            }
            i = i + 1;
        }
        proof {
            assert(self.entries().take(total as int) =~= self.entries());
        }
        (total, completed, total - completed)
    }
}

/// Whether some entry carries identifier `id`.
pub open spec fn has_id(entries: Seq<TaskView>, id: u32) -> bool {
    exists|i: int| 0 <= i < entries.len() && (#[trigger] entries[i].id) == id
}

/// Adds a task, replacing the entry with the same identifier if one is
/// stored and appending otherwise.
pub open spec fn upsert_view(entries: Seq<TaskView>, t: TaskView) -> Seq<TaskView> {
    if has_id(entries, t.id) {
        entries.update(index_of_id(entries, t.id), t)
    } else {
        entries.push(t)
    }
}

/// One line of stored text absorbed into the list: a well-formed task line
/// (whose identifier leaves room for a successor) is added or replaces its
/// namesake, and pushes `next_id` past its identifier; any other line is
/// ignored.
pub open spec fn absorb_line(entries: Seq<TaskView>, next: u32, line: Seq<char>) -> (
    Seq<TaskView>,
    u32,
) {
    if is_task_line(line) && task_of_line(line).id < u32::MAX {
        let t = task_of_line(line);
        (
            upsert_view(entries, t),
            if t.id >= next {
                (t.id + 1) as u32
            } else {
                next
            },
        )
    } else {
        (entries, next)
    }
}

/// All lines absorbed in order.
pub open spec fn absorb_lines(entries: Seq<TaskView>, next: u32, lines: Seq<Seq<char>>) -> (
    Seq<TaskView>,
    u32,
)
    decreases lines.len(),
{
    if lines.len() == 0 {
        (entries, next)
    } else {
        let prev = absorb_lines(entries, next, lines.drop_last());
        absorb_line(prev.0, prev.1, lines.last())
    }
}

/// The whole list as stored text: one line per task, joined by newlines.
pub open spec fn lines_text(entries: Seq<TaskView>) -> Seq<char>
    decreases entries.len(),
{
    if entries.len() == 0 {
        Seq::empty()
    } else if entries.len() == 1 {
        task_line(entries[0])
    } else {
        lines_text(entries.drop_last()) + "\n"@ + task_line(entries.last())
    }
}

/// Where `index_of_id` points: at the first entry with the identifier when
/// one is stored, past the end otherwise.
pub proof fn lemma_index_of_id(entries: Seq<TaskView>, id: u32)
    ensures
        0 <= index_of_id(entries, id) <= entries.len(),
        has_id(entries, id) <==> index_of_id(entries, id) < entries.len(),
        index_of_id(entries, id) < entries.len() ==> entries[index_of_id(entries, id)].id == id,
        forall|j: int| 0 <= j < index_of_id(entries, id) ==> (#[trigger] entries[j].id) != id,
    decreases entries.len(),
{
    if entries.len() > 0 && entries[0].id != id {
        lemma_index_of_id(entries.drop_first(), id);
        assert(forall|j: int|
            0 <= j < entries.drop_first().len() ==> entries.drop_first()[j] == entries[j + 1]);
        assert forall|j: int| 0 <= j < index_of_id(entries, id) implies (#[trigger] entries[j].id)
            != id by {
            if j > 0 {
                assert(entries[j] == entries.drop_first()[j - 1]);
            }
        }
        assert(has_id(entries, id) ==> has_id(entries.drop_first(), id)) by {
            if has_id(entries, id) {
                let i = choose|i: int|
                    0 <= i < entries.len() && (#[trigger] entries[i].id) == id;
                assert(entries.drop_first()[i - 1].id == id);
            }
        }
    }
}

/// The keyword as the specifications see it.
pub open spec fn keyword_view(filter: Option<&str>) -> Option<Seq<char>> {
    match filter {
        Some(k) => Some(k@),
        None => None,
    }
}

/// Listing order as a predicate over whole sequences.
pub open spec fn sorted_for_listing(s: Seq<TaskView>) -> bool {
    forall|i: int, j: int| 0 <= i < j < s.len() ==> listed_before(#[trigger] s[i], #[trigger] s[j])
}

/// Whether the filter keeps the given task (the executable side of
/// `filter_keeps`).
fn keeps(filter: Option<&str>, task: &Task) -> (r: bool)
    ensures
        r == filter_keeps(keyword_view(filter), task@),
{
    match filter {
        Some(k) => {
            if str_eq(k, "completed") {
                task.completed
            } else if str_eq(k, "pending") {
                !task.completed
            } else if str_eq(k, "high") {
                matches!(task.priority, Priority::High)
            } else if str_eq(k, "medium") {
                matches!(task.priority, Priority::Medium)
            } else if str_eq(k, "low") {
                matches!(task.priority, Priority::Low)
            } else {
                true
            }
        },
        None => true,
    }
}

/// Inserting anywhere adds exactly that element to the sequence's
/// multiset.
proof fn lemma_insert_to_multiset(s: Seq<TaskView>, i: int, x: TaskView)
    requires
        0 <= i <= s.len(),
    ensures
        s.insert(i, x).to_multiset() == s.to_multiset().insert(x),
{
    broadcast use vstd::seq_lib::group_to_multiset_ensures;

    let t = s.insert(i, x);
    assert(t.remove(i) =~= s);
    assert(t[i] == x);
    assert(t.remove(i).to_multiset() =~= t.to_multiset().remove(x));
    assert(t.contains(x));
    assert(t.to_multiset().count(x) > 0);
    assert(t.to_multiset() =~= s.to_multiset().insert(x));
}

/// Whether `a` lists no later than `b` (the executable side of
/// `listed_before`).
fn precedes(a: &Task, b: &Task) -> (r: bool)
    ensures
        r == listed_before(a@, b@),
{
    a.priority.rank() < b.priority.rank() || (a.priority.rank() == b.priority.rank() && a.id
        <= b.id)
}

/// Places one task into an already ordered listing, keeping the order.
fn insert_sorted(listing: &mut Vec<Task>, task: Task)
    requires
        sorted_for_listing(old(listing)@.map_values(|t: Task| t@)),
    ensures
        sorted_for_listing(final(listing)@.map_values(|t: Task| t@)),
        final(listing)@.map_values(|t: Task| t@).to_multiset() == old(listing)@.map_values(
            |t: Task| t@,
        ).to_multiset().insert(task@),
{
    let ghost before = listing@.map_values(|t: Task| t@);
    let mut k: usize = 0;
    while k < listing.len() && precedes(&listing[k], &task)
        invariant
            0 <= k <= listing@.len(),
            before == listing@.map_values(|t: Task| t@),
            forall|j: int| 0 <= j < k ==> listed_before(#[trigger] before[j], task@),
        decreases listing@.len() - k,
    {
        k = k + 1;
    }
    proof {
        lemma_insert_to_multiset(before, k as int, task@);
        assert(listing@.insert(k as int, task).map_values(|t: Task| t@) =~= before.insert(
            k as int,
            task@,
        ));
    }
    listing.insert(k, task);
    proof {
        let shown = listing@.map_values(|t: Task| t@);
        assert forall|i: int, j: int| 0 <= i < j < shown.len() implies listed_before(
            #[trigger] shown[i],
            #[trigger] shown[j],
        ) by {
            if j < k {
                assert(shown[i] == before[i] && shown[j] == before[j]);
            } else if i < k && j == k {
                assert(shown[i] == before[i]);
            } else if i < k && j > k {
                assert(shown[i] == before[i] && shown[j] == before[j - 1]);
                assert(listed_before(before[i], before[j - 1]));
            } else if i == k && j > k {
                assert(shown[j] == before[j - 1]);
                assert(!listed_before(before[k as int], task@));
                assert(listed_before(task@, before[k as int]));
                if j - 1 > k {
                    assert(listed_before(before[k as int], before[j - 1]));
                }
            } else {
                assert(shown[i] == before[i - 1] && shown[j] == before[j - 1]);
                assert(listed_before(before[i - 1], before[j - 1]));
            }
        }
    }
}

/// `index_of_id` finds the position the search found.
proof fn lemma_index_of_first(entries: Seq<TaskView>, id: u32, i: int)
    requires
        0 <= i < entries.len(),
        entries[i].id == id,
        forall|j: int| 0 <= j < i ==> (#[trigger] entries[j].id) != id,
    ensures
        index_of_id(entries, id) == i,
    decreases entries.len(),
{
    if i > 0 {
        assert(forall|j: int|
            0 <= j < entries.drop_first().len() ==> entries.drop_first()[j] == entries[j + 1]);
        lemma_index_of_first(entries.drop_first(), id, i - 1);
    }
}

/// Each entry's stored line, in storage order.
pub open spec fn lines_of(entries: Seq<TaskView>) -> Seq<Seq<char>> {
    entries.map_values(|t: TaskView| task_line(t))
}

/// The stored text, unfolded from the front: the first entry's line, a
/// line break, then the rest.
proof fn lemma_lines_text_head(entries: Seq<TaskView>)
    requires
        entries.len() >= 2,
    ensures
        lines_text(entries) == task_line(entries[0]) + "\n"@ + lines_text(entries.drop_first()),
    decreases entries.len(),
{
    if entries.len() == 2 {
        assert(entries.drop_last() =~= seq![entries[0]]);
        assert(entries.drop_first() =~= seq![entries[1]]);
        assert(lines_text(seq![entries[0]]) == task_line(entries[0]));
        assert(lines_text(seq![entries[1]]) == task_line(entries[1]));
    } else {
        lemma_lines_text_head(entries.drop_last());
        assert(entries.drop_last()[0] == entries[0]);
        assert(entries.drop_last().drop_first() =~= entries.drop_first().drop_last());
        assert(entries.drop_first().len() >= 2);
        assert(lines_text(entries.drop_first()) == lines_text(entries.drop_first().drop_last())
            + "\n"@ + task_line(entries.drop_first().last()));
        assert(entries.drop_first().last() == entries.last());
        assert(lines_text(entries) == lines_text(entries.drop_last()) + "\n"@ + task_line(
            entries.last(),
        ));
        assert(lines_text(entries) =~= task_line(entries[0]) + "\n"@ + lines_text(
            entries.drop_first(),
        ));
    }
}

/// Splitting the stored text on line breaks recovers exactly the lines,
/// as long as every entry's line is free of line breaks.
proof fn lemma_split_lines(entries: Seq<TaskView>)
    requires
        entries.len() >= 1,
        forall|i: int| 0 <= i < entries.len() ==> free_of(task_line(#[trigger] entries[i]), '\n'),
    ensures
        split_on(lines_text(entries), '\n') == lines_of(entries),
    decreases entries.len(),
{
    let nl = '\n';
    assert("\n"@ =~= seq![nl]) by {
        reveal_strlit("\n");
    }
    if entries.len() == 1 {
        assert(lines_text(entries) == task_line(entries[0]));
        lemma_split_no_sep(task_line(entries[0]), nl);
        assert(split_on(lines_text(entries), nl) =~= lines_of(entries));
    } else {
        lemma_lines_text_head(entries);
        assert(forall|i: int|
            0 <= i < entries.drop_first().len() ==> entries.drop_first()[i] == entries[i + 1]);
        lemma_split_lines(entries.drop_first());
        lemma_split_joined(task_line(entries[0]), lines_text(entries.drop_first()), nl);
        assert(lines_text(entries) =~= task_line(entries[0]) + seq![nl] + lines_text(
            entries.drop_first(),
        ));
        assert(split_on(lines_text(entries), nl) =~= seq![task_line(entries[0])] + lines_of(
            entries.drop_first(),
        ));
        assert(seq![task_line(entries[0])] + lines_of(entries.drop_first()) =~= lines_of(entries));
    }
}

/// Absorbing the lines of storable tasks with fresh, distinct identifiers
/// appends them in order.
proof fn lemma_absorb_appends(base: Seq<TaskView>, next: u32, entries: Seq<TaskView>)
    requires
        forall|i: int| 0 <= i < entries.len() ==> storable(#[trigger] entries[i]),
        forall|i: int, j: int|
            0 <= i < j < entries.len() ==> (#[trigger] entries[i].id) != (#[trigger] entries[j].id),
        forall|i: int| 0 <= i < entries.len() ==> !has_id(base, (#[trigger] entries[i]).id),
    ensures
        absorb_lines(base, next, lines_of(entries)).0 == base + entries,
    decreases entries.len(),
{
    if entries.len() == 0 {
        assert(lines_of(entries) =~= Seq::<Seq<char>>::empty());
        assert(base + entries =~= base);
    } else {
        let front = entries.drop_last();
        let last = entries.last();
        assert(forall|i: int| 0 <= i < front.len() ==> front[i] == entries[i]);
        lemma_absorb_appends(base, next, front);
        assert(lines_of(front) =~= lines_of(entries).drop_last());
        assert(lines_of(entries).last() == task_line(last));
        lemma_task_line_round_trip(last);
        let grown = absorb_lines(base, next, lines_of(front)).0;
        assert(grown == base + front);
        assert(!has_id(grown, last.id)) by {
            if has_id(grown, last.id) {
                let k = choose|k: int| 0 <= k < grown.len() && (#[trigger] grown[k].id) == last.id;
                if k < base.len() {
                    assert(base[k].id == last.id);
                    assert(entries[entries.len() - 1].id == last.id);
                } else {
                    assert(entries[k - base.len()].id == last.id);
                    assert(entries[entries.len() - 1].id == last.id);
                }
            }
        }
        assert(absorb_lines(base, next, lines_of(entries)).0 =~= base + entries) by {
            assert(upsert_view(grown, last) =~= (base + front).push(last));
            assert((base + front).push(last) =~= base + entries);
        }
    }
}

/// Persistence round trip: the stored text of storable tasks with
/// distinct identifiers, absorbed into an empty list, yields exactly
/// those tasks, in order.
pub proof fn lemma_persistence_round_trip(entries: Seq<TaskView>)
    requires
        forall|i: int| 0 <= i < entries.len() ==> storable(#[trigger] entries[i]),
        forall|i: int, j: int|
            0 <= i < j < entries.len() ==> (#[trigger] entries[i].id) != (#[trigger] entries[j].id),
    ensures
        absorb_lines(Seq::empty(), 1, split_on(lines_text(entries), '\n')).0 == entries,
{
    let nl = '\n';
    if entries.len() == 0 {
        assert(lines_text(entries) == Seq::<char>::empty());
        lemma_split_no_sep(Seq::<char>::empty(), nl);
        let lines = split_on(lines_text(entries), nl);
        assert(lines =~= seq![Seq::<char>::empty()]);
        assert(lines.drop_last() =~= Seq::<Seq<char>>::empty());
        assert(!is_task_line(Seq::<char>::empty())) by {
            lemma_split_no_sep(Seq::<char>::empty(), '|');
        }
        assert(absorb_lines(Seq::<TaskView>::empty(), 1, lines.drop_last())
            == (Seq::<TaskView>::empty(), 1u32));
        assert(absorb_lines(Seq::<TaskView>::empty(), 1, lines) == absorb_line(
            Seq::<TaskView>::empty(),
            1,
            Seq::<char>::empty(),
        ));
        assert(absorb_lines(Seq::empty(), 1, lines).0 =~= entries);
    } else {
        assert(forall|i: int|
            0 <= i < entries.len() ==> free_of(task_line(#[trigger] entries[i]), nl)) by {
            assert forall|i: int|
                0 <= i < entries.len() implies free_of(task_line(#[trigger] entries[i]), nl) by {
                lemma_task_line_newline_free(entries[i]);
            }
        }
        lemma_split_lines(entries);
        assert(forall|i: int|
            0 <= i < entries.len() ==> !has_id(Seq::<TaskView>::empty(), (#[trigger] entries[i]).id));
        lemma_absorb_appends(Seq::empty(), 1, entries);
        assert(Seq::<TaskView>::empty() + entries =~= entries);
    }
}

} // verus!
