//! Tasks of the todo core: priorities, the task record, and the one-line
//! file format a task is stored in.
//!
//! A task's file form is six fields separated by `|`: identifier, title,
//! description (empty when absent), completion flag, priority label and
//! creation timestamp. `to_file_format` writes exactly that line and
//! `from_file_format` reads one back, refusing malformed lines.

use crate::clock::fixed_timestamp;
use crate::clock::Utc;
use crate::numtext::{dec_str, dec_val, is_dec_string, parse_u32, u32_to_dec};
use crate::text::{
    free_of, lemma_free_of_concat, seq_eq_ignore_ascii_case, split_on, split_text, str_eq,
    str_eq_ignore_ascii_case,
};
use vstd::prelude::*;
use vstd::string::StringExecFns;

verus! {

/// How urgent a task is.
#[derive(Clone, Copy, Debug, PartialEq, Eq, Structural)]
pub enum Priority {
    Low,
    Medium,
    High,
}

/// The priority a keyword names, compared ASCII-case-insensitively:
/// `low`/`l`, `medium`/`med`/`m`, `high`/`h`.
pub open spec fn spec_priority_from(s: Seq<char>) -> Option<Priority> {
    if seq_eq_ignore_ascii_case(s, "low"@) || seq_eq_ignore_ascii_case(s, "l"@) {
        Some(Priority::Low)
    } else if seq_eq_ignore_ascii_case(s, "medium"@) || seq_eq_ignore_ascii_case(s, "med"@)
        || seq_eq_ignore_ascii_case(s, "m"@) {
        Some(Priority::Medium)
    } else if seq_eq_ignore_ascii_case(s, "high"@) || seq_eq_ignore_ascii_case(s, "h"@) {
        Some(Priority::High)
    } else {
        None
    }
}

/// The priority's display label.
pub open spec fn priority_label(p: Priority) -> Seq<char> {
    match p {
        Priority::Low => "Low"@,
        Priority::Medium => "Medium"@,
        Priority::High => "High"@,
    }
}

/// The priority's marker glyph.
pub open spec fn priority_glyph(p: Priority) -> Seq<char> {
    match p {
        Priority::Low => "\u{1F7E2}"@,
        Priority::Medium => "\u{1F7E1}"@,
        Priority::High => "\u{1F534}"@,
    }
}

/// Where the priority sorts: the most urgent first.
pub open spec fn priority_rank(p: Priority) -> int {
    match p {
        Priority::High => 0,
        Priority::Medium => 1,
        Priority::Low => 2,
    }
}

impl Priority {
    /// Reads a priority keyword, ASCII-case-insensitively.
    pub fn from_str(s: &str) -> (r: Option<Priority>)
        ensures
            r == spec_priority_from(s@),
    {
        if str_eq_ignore_ascii_case(s, "low") || str_eq_ignore_ascii_case(s, "l") {
            Some(Priority::Low)
        } else if str_eq_ignore_ascii_case(s, "medium") || str_eq_ignore_ascii_case(s, "med")
            || str_eq_ignore_ascii_case(s, "m") {
            Some(Priority::Medium)
        } else if str_eq_ignore_ascii_case(s, "high") || str_eq_ignore_ascii_case(s, "h") {
            Some(Priority::High)
        } else {
            None
        }
    }

    /// The display label.
    pub fn to_string(&self) -> (r: &'static str)
        ensures
            r@ == priority_label(*self),
    {
        match self {
            Priority::Low => "Low",
            Priority::Medium => "Medium",
            Priority::High => "High",
        }
    }

    /// The marker glyph.
    pub fn emoji(&self) -> (r: &'static str)
        ensures
            r@ == priority_glyph(*self),
    {
        match self {
            Priority::Low => "\u{1F7E2}",
            Priority::Medium => "\u{1F7E1}",
            Priority::High => "\u{1F534}",
        }
    }

    /// How this priority compares for listing: smaller sorts first.
    pub fn rank(&self) -> (r: u8)
        ensures
            r == priority_rank(*self),
    {
        match self {
            Priority::High => 0,
            Priority::Medium => 1,
            Priority::Low => 2,
        }
    }
}

/// One todo entry.
#[derive(Debug)]
pub struct Task {
    pub id: u32,
    pub title: String,
    pub description: Option<String>,
    pub completed: bool,
    pub priority: Priority,
    pub created_at: String,
}

/// A task as the specifications see it: the same fields with text as
/// character sequences.
pub struct TaskView {
    pub id: u32,
    pub title: Seq<char>,
    pub description: Option<Seq<char>>,
    pub completed: bool,
    pub priority: Priority,
    pub created_at: Seq<char>,
}

impl View for Task {
    type V = TaskView;

    open spec fn view(&self) -> TaskView {
        TaskView {
            id: self.id,
            title: self.title@,
            description: match self.description {
                Some(d) => Some(d@),
                None => None,
            },
            completed: self.completed,
            priority: self.priority,
            created_at: self.created_at@,
        }
    }
}

/// The one-line file form of a task.
pub open spec fn task_line(t: TaskView) -> Seq<char> {
    dec_str(t.id as nat) + "|"@ + t.title + "|"@ + (match t.description {
        Some(d) => d,
        None => Seq::empty(),
    }) + "|"@ + (if t.completed {
        "true"@
    } else {
        "false"@
    }) + "|"@ + priority_label(t.priority) + "|"@ + t.created_at
}

/// The `|`-separated fields of a stored line.
pub open spec fn line_fields(s: Seq<char>) -> Seq<Seq<char>> {
    split_on(s, '|')
}

/// Whether a line parses as a task: exactly six fields, the identifier a
/// decimal number in range, the completion flag `true` or `false`, the
/// priority a known keyword. The description field may be empty, meaning
/// absent.
pub open spec fn is_task_line(s: Seq<char>) -> bool {
    let fields = line_fields(s);
    &&& fields.len() == 6
    &&& is_dec_string(fields[0])
    &&& dec_val(fields[0]) <= u32::MAX
    &&& (fields[3] == "true"@ || fields[3] == "false"@)
    &&& spec_priority_from(fields[4]) is Some
}

/// The task a well-formed line denotes.
pub open spec fn task_of_line(s: Seq<char>) -> TaskView {
    let fields = line_fields(s);
    TaskView {
        id: dec_val(fields[0]) as u32,
        title: fields[1],
        description: if fields[2].len() == 0 {
            None
        } else {
            Some(fields[2])
        },
        completed: fields[3] == "true"@,
        priority: spec_priority_from(fields[4]).unwrap(),
        created_at: fields[5],
    }
}

impl Task {
    /// A fresh task: not completed, no description, stamped with the
    /// stand-in clock's fixed timestamp.
    pub fn new(id: u32, title: String, priority: Priority) -> (t: Task)
        ensures
            t@ == (TaskView {
                id,
                title: title@,
                description: None,
                completed: false,
                priority,
                created_at: fixed_timestamp(),
            }),
    {
        Task {
            id,
            title,
            description: None,
            completed: false,
            priority,
            created_at: Utc::now().format("%Y-%m-%d %H:%M:%S").to_string(),
        }
    }

    /// Replaces the description.
    pub fn set_description(&mut self, description: String)
        ensures
            final(self)@ == (TaskView { description: Some(description@), ..old(self)@ }),
    {
        self.description = Some(description);
    }

    /// Flips the completion flag.
    pub fn toggle_completed(&mut self)
        ensures
            final(self)@ == (TaskView { completed: !old(self)@.completed, ..old(self)@ }),
    {
        self.completed = !self.completed;
    }

    /// An equal, independent copy of the task.
    pub fn duplicate(&self) -> (t: Task)
        ensures
            t@ == self@,
    {
        Task {
            id: self.id,
            title: self.title.clone(),
            description: match &self.description {
                Some(d) => Some(d.clone()),
                None => None,
            },
            completed: self.completed,
            priority: self.priority,
            created_at: self.created_at.clone(),
        }
    }

    /// The task's one-line file form.
    pub fn to_file_format(&self) -> (line: String)
        ensures
            line@ == task_line(self@),
    {
        let mut line = u32_to_dec(self.id);
        line.append("|");
        line.append(self.title.as_str());
        line.append("|");
        match &self.description {
            Some(d) => {
                line.append(d.as_str());
            },
            None => {},
        }
        line.append("|");
        if self.completed {
            line.append("true");
        } else {
            line.append("false");
        }
        line.append("|");
        line.append(self.priority.to_string());
        line.append("|");
        line.append(self.created_at.as_str());
        proof {
            assert(line@ =~= task_line(self@));
        }
        line
    }

    /// Reads a task back from its one-line file form: the six fields in
    /// order, refused unless the line is well formed.
    pub fn from_file_format(line: &str) -> (r: Option<Task>)
        ensures
            r is Some <==> is_task_line(line@),
            r matches Some(t) ==> t@ == task_of_line(line@),
    {
        let fields = split_text(line, '|');
        if fields.len() != 6 {
            return None;
        }
        let id = match parse_u32(fields[0].as_str()) {
            Some(id) => id,
            None => {
                return None;
            },
        };
        let completed = if str_eq(fields[3].as_str(), "true") {
            true
        } else if str_eq(fields[3].as_str(), "false") {
            false
        } else {
            return None;
        };
        let priority = match Priority::from_str(fields[4].as_str()) {
            Some(p) => p,
            None => {
                return None;
            },
        };
        let mut fields = fields;
        let created_at = fields.pop().unwrap();
        let _priority_text = fields.pop().unwrap();
        let _completed_text = fields.pop().unwrap();
        let description_text = fields.pop().unwrap();
        let title = fields.pop().unwrap();
        let description = if description_text.as_str().is_empty() {
            None
        } else {
            Some(description_text)
        };
        Some(Task { id, title, description, completed, priority, created_at })
    }
}

/// Whether a text field may enter the one-line format: it holds no field
/// separator.
pub open spec fn separator_free(s: Seq<char>) -> bool {
    forall|j: int| 0 <= j < s.len() ==> s[j] != '|'
}

/// The serialiser and the parser cohere: a task whose text fields hold no
/// field separator, and whose description is never the empty text, reads
/// back from its own line exactly as it was written.
#[verifier::rlimit(60)]
pub proof fn lemma_task_line_round_trip(t: TaskView)
    requires
        separator_free(t.title),
        t.description matches Some(d) ==> separator_free(d) && d.len() > 0,
        separator_free(t.created_at),
    ensures
        is_task_line(task_line(t)),
        task_of_line(task_line(t)) == t,
{
    let sep = '|';
    let id_text = dec_str(t.id as nat);
    let desc = match t.description {
        Some(d) => d,
        None => Seq::<char>::empty(),
    };
    let flag = if t.completed {
        "true"@
    } else {
        "false"@
    };
    let label = priority_label(t.priority);

    crate::numtext::lemma_dec_round_trip(t.id as nat);
    assert(separator_free(id_text)) by {
        assert(forall|j: int|
            0 <= j < id_text.len() ==> crate::numtext::is_dec_digit(#[trigger] id_text[j]));
    }
    proof_priority_label_facts(t.priority);
    assert(separator_free(flag) && flag.len() > 0) by {
        reveal_strlit("true");
        reveal_strlit("false");
    }
    assert(separator_free(desc));

    let tail5 = t.created_at;
    let tail4 = label + "|"@ + tail5;
    let tail3 = flag + "|"@ + tail4;
    let tail2 = desc + "|"@ + tail3;
    let tail1 = t.title + "|"@ + tail2;
    assert(task_line(t) =~= id_text + "|"@ + tail1);
    assert("|"@ =~= seq![sep]) by {
        reveal_strlit("|");
    }

    crate::text::lemma_split_joined(id_text, tail1, sep);
    assert(id_text + "|"@ + tail1 =~= id_text + seq![sep] + tail1);
    crate::text::lemma_split_joined(t.title, tail2, sep);
    assert(tail1 =~= t.title + seq![sep] + tail2);
    crate::text::lemma_split_joined(desc, tail3, sep);
    assert(tail2 =~= desc + seq![sep] + tail3);
    crate::text::lemma_split_joined(flag, tail4, sep);
    assert(tail3 =~= flag + seq![sep] + tail4);
    crate::text::lemma_split_joined(label, tail5, sep);
    assert(tail4 =~= label + seq![sep] + tail5);
    crate::text::lemma_split_no_sep(tail5, sep);

    let fields = line_fields(task_line(t));
    assert(fields =~= seq![id_text, t.title, desc, flag, label, tail5]);

    assert(flag == "true"@ <==> t.completed) by {
        reveal_strlit("true");
        reveal_strlit("false");
    }
    assert(desc.len() == 0 <==> t.description is None);
    assert(task_of_line(task_line(t)) == t);
}

/// The priority labels are separator-free and each reads back, under the
/// case fold, as its own priority.
proof fn proof_priority_label_facts(p: Priority)
    ensures
        separator_free(priority_label(p)),
        spec_priority_from(priority_label(p)) == Some(p),
{
    reveal_strlit("Low");
    reveal_strlit("Medium");
    reveal_strlit("High");
    reveal_strlit("low");
    reveal_strlit("l");
    reveal_strlit("medium");
    reveal_strlit("med");
    reveal_strlit("m");
    reveal_strlit("high");
    reveal_strlit("h");
    match p {
        Priority::Low => {
            assert(seq_eq_ignore_ascii_case("Low"@, "low"@));
        },
        Priority::Medium => {
            assert(!seq_eq_ignore_ascii_case("Medium"@, "low"@));
            assert(seq_eq_ignore_ascii_case("Medium"@, "medium"@));
        },
        Priority::High => {
            assert(!seq_eq_ignore_ascii_case("High"@, "low"@));
            assert(seq_eq_ignore_ascii_case("High"@, "high"@));
        },
    }
}

/// Whether a task may enter storage and come back intact: its text fields
/// hold neither the field separator nor a line break, its description is
/// never the empty text, and its identifier leaves room for a successor.
pub open spec fn storable(t: TaskView) -> bool {
    &&& separator_free(t.title) && free_of(t.title, '\n')
    &&& (t.description matches Some(d) ==> separator_free(d) && free_of(d, '\n') && d.len() > 0)
    &&& separator_free(t.created_at) && free_of(t.created_at, '\n')
    &&& t.id < u32::MAX
}

/// A storable task's line holds no line break, so lines never run into
/// each other in the stored text.
pub proof fn lemma_task_line_newline_free(t: TaskView)
    requires
        storable(t),
    ensures
        free_of(task_line(t), '\n'),
{
    let nl = '\n';
    let id_text = dec_str(t.id as nat);
    let desc = match t.description {
        Some(d) => d,
        None => Seq::<char>::empty(),
    };
    let flag = if t.completed {
        "true"@
    } else {
        "false"@
    };
    let label = priority_label(t.priority);
    crate::numtext::lemma_dec_round_trip(t.id as nat);
    assert(free_of(id_text, nl)) by {
        assert(forall|j: int|
            0 <= j < id_text.len() ==> crate::numtext::is_dec_digit(#[trigger] id_text[j]));
    }
    assert(free_of("|"@, nl) && free_of(flag, nl) && free_of(label, nl)) by {
        reveal_strlit("|");
        reveal_strlit("true");
        reveal_strlit("false");
        reveal_strlit("Low");
        reveal_strlit("Medium");
        reveal_strlit("High");
    }
    lemma_free_of_concat(id_text, "|"@, nl);
    lemma_free_of_concat(id_text + "|"@, t.title, nl);
    lemma_free_of_concat(id_text + "|"@ + t.title, "|"@, nl);
    lemma_free_of_concat(id_text + "|"@ + t.title + "|"@, desc, nl);
    lemma_free_of_concat(id_text + "|"@ + t.title + "|"@ + desc, "|"@, nl);
    lemma_free_of_concat(id_text + "|"@ + t.title + "|"@ + desc + "|"@, flag, nl);
    lemma_free_of_concat(id_text + "|"@ + t.title + "|"@ + desc + "|"@ + flag, "|"@, nl);
    lemma_free_of_concat(id_text + "|"@ + t.title + "|"@ + desc + "|"@ + flag + "|"@, label, nl);
    lemma_free_of_concat(
        id_text + "|"@ + t.title + "|"@ + desc + "|"@ + flag + "|"@ + label,
        "|"@,
        nl,
    );
    lemma_free_of_concat(
        id_text + "|"@ + t.title + "|"@ + desc + "|"@ + flag + "|"@ + label + "|"@,
        t.created_at,
        nl,
    );
}

} // verus!
