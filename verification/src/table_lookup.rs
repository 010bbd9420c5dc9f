use vstd::prelude::*;
use axplat::irq::HandlerTable;
use crate::irq::MAX_IRQ_COUNT;

verus! {

#[verifier::external_type_specification]
#[verifier::external_body]
pub struct ExHandlerTable<const N: usize>(HandlerTable<N>);

/// The record of one lookup in the device handler table. Its fields are
/// private to this module, so a value exists only where the table was
/// actually called.
pub struct TableLookup {
    index: usize,
    handled: bool,
}

impl TableLookup {
    /// The index handed to the table.
    pub closed spec fn index_spec(self) -> usize {
        self.index
    }

    /// Whether the table had a handler at that index (and ran it).
    pub closed spec fn handled_spec(self) -> bool {
        self.handled
    }

    /// The index handed to the table.
    pub fn index(&self) -> (r: usize)
        ensures
            r == self.index_spec(),
    {
        self.index
    }

    /// Whether the table had a handler at that index (and ran it).
    pub fn handled(&self) -> (r: bool)
        ensures
            r == self.handled_spec(),
    {
        self.handled
    }
}

/// Calls `HandlerTable::handle`, which runs the handler registered at `idx`
/// and returns whether there was one; the record keeps `idx` and that result.
/// Its source returns `false` for an index beyond the table; which handlers
/// are registered is not stated (the table is changed through shared
/// references by other code).
#[verifier::external_body]
pub(crate) fn handler_table_handle(table: &HandlerTable<MAX_IRQ_COUNT>, idx: usize) -> (r: TableLookup)
    ensures
        r.index_spec() == idx,
        idx >= MAX_IRQ_COUNT ==> !r.handled_spec(),
{
    TableLookup { index: idx, handled: table.handle(idx) }
}

} // verus!
