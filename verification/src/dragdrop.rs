//! Drag-and-drop state: which path is being dragged and what dropping
//! it should do.  The drop itself (copying or moving files) happens
//! outside the crate.

use vstd::prelude::*;

verus! {

/// Error raised by drag-and-drop handling.
#[derive(Debug, Clone)]
pub enum DragDropError {
    /// An input/output failure reported by the surrounding process.
    Io(String),
    /// A drop that the current state does not allow.
    InvalidOperation(String),
}

/// What dropping the dragged path should do.
#[derive(Debug, Clone, Copy, PartialEq, Eq, Structural)]
pub enum DragOp {
    /// Duplicate the source at the target.
    Copy,
    /// Move the source to the target.
    Move,
}

/// The drag state: the dragged path and the pending operation.
#[derive(Debug)]
pub struct DragDrop {
    /// The path being dragged, absent when no drag is in progress.
    pub source_path: Option<String>,
    /// The pending operation, absent when no drag is in progress.
    pub operation: Option<DragOp>,
}

impl DragDrop {
    /// No drag in progress.
    pub fn new() -> (r: DragDrop)
        ensures
            r.source_path is None,
            r.operation is None,
    {
        DragDrop { source_path: None, operation: None }
    }

    /// Begin dragging a path with the given operation.
    pub fn start_drag(&mut self, path: String, operation: DragOp)
        ensures
            final(self).source_path == Some(path),
            final(self).operation == Some(operation),
    {
        self.source_path = Some(path);
        self.operation = Some(operation);
    }

    /// End the drag, clearing the state.
    pub fn end_drag(&mut self)
        ensures
            final(self).source_path is None,
            final(self).operation is None,
    {
        self.source_path = None;
        self.operation = None;
    }

    /// Whether a drag is in progress.
    pub fn is_dragging(&self) -> (r: bool)
        ensures
            r == (self.source_path is Some),
    {
        self.source_path.is_some()
    }

    /// The pending operation, when a drag is in progress.
    pub fn current_operation(&self) -> (r: Option<DragOp>)
        ensures
            r == self.operation,
    {
        self.operation
    }
}

} // verus!
