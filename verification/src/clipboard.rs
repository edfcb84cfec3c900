//! Clipboard state for copy / cut operations on sets of paths.  The
//! pasting itself (copying and removing files) happens outside the
//! crate; this module holds and hands out the recorded selection.

use vstd::prelude::*;

verus! {

/// Error raised by clipboard operations.
#[derive(Debug, Clone)]
pub enum ClipboardError {
    /// An input/output failure reported by the surrounding process.
    Io(String),
    /// The clipboard was used in a state that does not allow it.
    InvalidOperation(String),
}

/// What a paste of the recorded selection should do.
#[derive(Debug, Clone, Copy, PartialEq, Eq, Structural)]
pub enum ClipboardOp {
    /// Duplicate the selection at the destination.
    Copy,
    /// Move the selection to the destination.
    Cut,
}

/// The recorded selection: a set of paths and the pending operation.
#[derive(Debug)]
pub struct Clipboard {
    /// The pending operation, absent when the clipboard is empty.
    pub operation: Option<ClipboardOp>,
    /// The selected paths.
    pub items: Vec<String>,
}

/// Copies of a list of strings.
fn clone_strings(v: &Vec<String>) -> (r: Vec<String>)
    ensures
        r@ == v@,
{
    let mut out: Vec<String> = Vec::new();
    let mut i: usize = 0;
    while i < v.len()
        invariant
            i <= v@.len(),
            out@ == v@.take(i as int),
        decreases v.len() - i,
    {
        out.push(v[i].clone());
        assert(out@ =~= v@.take(i + 1));
        i += 1;
    }
    assert(out@ =~= v@);
    out
}

impl Clipboard {
    /// An empty clipboard: no operation, no items.
    pub fn new() -> (r: Clipboard)
        ensures
            r.operation is None,
            r.items@ == Seq::<String>::empty(),
    {
        Clipboard { operation: None, items: Vec::new() }
    }

    /// Record a selection and the operation to perform on paste.
    pub fn set_items(&mut self, items: Vec<String>, operation: ClipboardOp)
        ensures
            final(self).operation == Some(operation),
            final(self).items@ == items@,
    {
        self.operation = Some(operation);
        self.items = items;
    }

    /// The recorded selection and operation, when one is pending.
    pub fn get_items(&self) -> (r: Option<(Vec<String>, ClipboardOp)>)
        ensures
            match r {
                Some(pair) => self.operation == Some(pair.1) && pair.0@ == self.items@,
                None => (self.operation is None),
            },
    {
        match &self.operation {
            Some(op) => Some((clone_strings(&self.items), *op)),
            None => None,
        }
    }

    /// Forget the recorded selection.
    pub fn clear(&mut self)
        ensures
            final(self).operation is None,
            final(self).items@ == Seq::<String>::empty(),
    {
        self.operation = None;
        self.items.clear();
    }
}

} // verus!
