use vstd::prelude::*;

verus! {

/// A named sequence of tasks.
pub struct Pipeline {
    pub id: String,
    pub description: String,
    pub tasks: Vec<Task>,
}

/// What a task does.
#[derive(Debug, Clone, Copy, PartialEq, Eq, Structural)]
pub enum TaskKind {
    Source,
    Op,
    Destination,
}

/// One step of a pipeline.
pub struct Task {
    pub id: String,
    pub description: String,
    pub kind: TaskKind,
}

} // verus!
