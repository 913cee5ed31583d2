//! The editing tools offered in the viewport toolbar.

use vstd::prelude::*;

verus! {

/// Which tool the viewport is operated with.
#[derive(Debug, Clone, Copy, PartialEq, Eq, Structural)]
pub enum ToolKind {
    Select,
    Translate,
    Create,
}

/// Picks the brush under the pointer.
#[derive(Debug, Clone, Copy)]
pub struct SelectTool;

/// Moves the selection.
#[derive(Debug, Clone, Copy)]
pub struct TranslateTool;

/// Draws new brushes.
#[derive(Debug, Clone, Copy)]
pub struct CreateTool;

} // verus!
