//! The cell that holds the RAPL power units once they have been read.

use vstd::prelude::*;
use once_cell::sync::OnceCell;

verus! {

#[verifier::external_type_specification]
#[verifier::external_body]
#[verifier::reject_recursive_types(T)]
pub struct ExOnceCell<T>(OnceCell<T>);

/// What a `once_cell::sync::OnceCell<u64>` holds: `None` while it is empty.
pub uninterp spec fn cell_contents(cell: OnceCell<u64>) -> Option<u64>;

/// `OnceCell::new`: the cell it returns is empty.
#[verifier::external_body]
pub(crate) fn cell_new() -> (res: OnceCell<u64>)
    ensures
        cell_contents(res) == None::<u64>,
{
    OnceCell::new()
}

/// `OnceCell::get`: the value the cell holds, if any (copied out of the returned reference).
#[verifier::external_body]
pub(crate) fn cell_get(cell: &OnceCell<u64>) -> (res: Option<u64>)
    ensures
        res == cell_contents(*cell),
{
    cell.get().copied()
}

/// `OnceCell::get_or_init` with an initializer that returns `value`: an empty cell
/// comes to hold `value`; a full cell keeps what it holds. The result is what the
/// cell holds afterwards. The cell is taken by `&mut` so that the change is visible.
#[verifier::external_body]
pub(crate) fn cell_get_or_init(cell: &mut OnceCell<u64>, value: u64) -> (res: u64)
    ensures
        cell_contents(*final(cell)) == (match cell_contents(*old(cell)) {
            Some(v) => Some(v),
            None => Some(value),
        }),
        cell_contents(*final(cell)) == Some(res),
{
    *cell.get_or_init(|| value)
}

} // verus!
