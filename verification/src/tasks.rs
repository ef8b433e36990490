//! The build tasks that the task runner offers, and the selection of the
//! executable to launch from an installation directory.

use crate::paths::DirEntry;
use crate::text::has_suffix;
use vstd::prelude::*;

verus! {

/// An entry that counts as a launchable executable: a regular file whose
/// name ends with the executable suffix.
pub open spec fn is_executable_entry(e: DirEntry) -> bool {
    e.is_file && ".exe"@.is_suffix_of(e.name@)
}

/// Picks the executable to launch from a listing of an installation
/// directory: the first regular file whose name ends with the executable
/// suffix, or `None` when the listing holds no such file.
pub fn find_executable(entries: &Vec<DirEntry>) -> (r: Option<String>)
    ensures
        match r {
            Some(name) => exists|i: int|
                {
                    &&& 0 <= i < entries@.len()
                    &&& is_executable_entry(entries@[i])
                    &&& entries@[i].name@ == name@
                    &&& forall|j: int| 0 <= j < i ==> !is_executable_entry(entries@[j])
                },
            None => forall|i: int| 0 <= i < entries@.len() ==> !is_executable_entry(entries@[i]),
        },
{
    let mut idx: usize = 0;
    while idx < entries.len()
        invariant
            idx <= entries@.len(),
            forall|j: int| 0 <= j < idx ==> !is_executable_entry(entries@[j]),
        decreases entries@.len() - idx,
    {
        let e = &entries[idx];
        if e.is_file && has_suffix(e.name.as_str(), ".exe") {
            return Some(e.name.clone());
        }
        idx = idx + 1;
    }
    None
}

/// A task of the build runner.
#[derive(Clone, Copy, Debug, PartialEq, Eq, Structural)]
pub enum Task {
    Build,
    Copy,
    Dev,
    Pack,
    Run,
}

/// The name of a task.
pub open spec fn task_name_spec(task: Task) -> Seq<char> {
    match task {
        Task::Build => "Build"@,
        Task::Copy => "Copy"@,
        Task::Dev => "Dev"@,
        Task::Pack => "Pack"@,
        Task::Run => "Run"@,
    }
}

/// Something that can be offered by name in a task menu.
pub trait TaskInfo {
    /// The name under which the implementor is offered.
    spec fn spec_name(&self) -> Seq<char>;

    /// Returns the name.
    fn name(&self) -> (r: String)
        ensures
            r@ == self.spec_name(),
    ;
}

impl TaskInfo for Task {
    open spec fn spec_name(&self) -> Seq<char> {
        task_name_spec(*self)
    }

    fn name(&self) -> (r: String)
        ensures
            r@ == self.spec_name(),
    {
        match self {
            Task::Build => String::from_str("Build"),
            Task::Copy => String::from_str("Copy"),
            Task::Dev => String::from_str("Dev"),
            Task::Pack => String::from_str("Pack"),
            Task::Run => String::from_str("Run"),
        }
    }
}

} // verus!
