//! The kinds of sources.

use vstd::prelude::*;

verus! {

#[derive(Debug, Clone, Copy, PartialEq, Eq, Structural, Hash)]
pub enum SourceKind {
    Audit,
    Events,
    AccessLogs,
    WebInventory,
}

}
