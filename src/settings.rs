//! Plain settings shared with the program around the library.

use vstd::prelude::*;
use crate::text::{chars_of, same, string_of};

verus! {

/// How notices are mailed.
#[derive(Debug, Clone, Default)]
pub struct Notification {
    pub sender: String,
    pub pswd: String,
    pub host: String,
    pub port: u16,
}

/// The kinds of scheduled check-in task.
#[derive(Debug, Clone, Copy, PartialEq, Eq, Structural, Hash)]
pub enum TaskType {
    Genshin,
    NexusPt,
    SsPanel,
    V2ex,
}

/// The snake_case name of a task kind.
pub open spec fn task_name(t: TaskType) -> Seq<char> {
    match t {
        TaskType::Genshin => seq!['g', 'e', 'n', 's', 'h', 'i', 'n'],
        TaskType::NexusPt => seq!['n', 'e', 'x', 'u', 's', '_', 'p', 't'],
        TaskType::SsPanel => seq!['s', 's', '_', 'p', 'a', 'n', 'e', 'l'],
        TaskType::V2ex => seq!['v', '2', 'e', 'x'],
    }
}

fn name_chars(t: TaskType) -> (r: Vec<char>)
    ensures
        r@ == task_name(t),
{
    let r = match t {
        TaskType::Genshin => vec!['g', 'e', 'n', 's', 'h', 'i', 'n'],
        TaskType::NexusPt => vec!['n', 'e', 'x', 'u', 's', '_', 'p', 't'],
        TaskType::SsPanel => vec!['s', 's', '_', 'p', 'a', 'n', 'e', 'l'],
        TaskType::V2ex => vec!['v', '2', 'e', 'x'],
    };
    assert(r@ =~= task_name(t));
    r
}

impl TaskType {
    /// Every kind, in declaration order.
    pub fn all() -> (r: Vec<TaskType>)
        ensures
            r@ == seq![TaskType::Genshin, TaskType::NexusPt, TaskType::SsPanel, TaskType::V2ex],
    {
        let r = vec![TaskType::Genshin, TaskType::NexusPt, TaskType::SsPanel, TaskType::V2ex];
        assert(r@ =~= seq![TaskType::Genshin, TaskType::NexusPt, TaskType::SsPanel, TaskType::V2ex]);
        r
    }

    /// The kind's snake_case name.
    pub fn name(&self) -> (r: String)
        ensures
            r@ == task_name(*self),
    {
        string_of(name_chars(*self).as_slice())
    }

    /// The kind whose snake_case name is `s`.
    pub fn from_name(s: &str) -> (r: Option<TaskType>)
        ensures
            r matches Some(t) ==> task_name(t) == s@,
            r is None ==> forall|t: TaskType| task_name(t) != s@,
    {
        let c = chars_of(s);
        let all = TaskType::all();
        let mut i: usize = 0;
        while i < all.len()
            invariant
                i <= all@.len() == 4,
                c@ == s@,
                all@ == seq![TaskType::Genshin, TaskType::NexusPt, TaskType::SsPanel, TaskType::V2ex],
                forall|j: int| 0 <= j < i ==> task_name(#[trigger] all@[j]) != c@,
            decreases all@.len() - i,
        {
            let t = all[i];
            let nc = name_chars(t);
            if same(nc.as_slice(), c.as_slice()) {
                assert(task_name(t) == s@);
                return Some(t);
            }
            i = i + 1;
        }
        assert forall|t: TaskType| task_name(t) != s@ by {
            match t {
                TaskType::Genshin => assert(all@[0] == t),
                TaskType::NexusPt => assert(all@[1] == t),
                TaskType::SsPanel => assert(all@[2] == t),
                TaskType::V2ex => assert(all@[3] == t),
            }
        }
        None
    }
}

} // verus!
