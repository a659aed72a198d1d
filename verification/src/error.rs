use vstd::prelude::*;

verus! {

/// Error taxonomy of the ingestion subsystem.
///
/// `UnalignedTimeframe` and `IncorrectArgumentOrder` are caller bugs in the
/// arguments of a range request; `ApiConnectorError` means a remote extent
/// could not be determined; the two transaction errors are storage-layer
/// failures during a batch; `UnspecifiedError` is the catch-all for an
/// unexpected planner failure.
#[derive(Clone, Copy, Debug, PartialEq, Eq, Structural)]
pub enum BusinessError {
    UnalignedTimeframe,
    IncorrectArgumentOrder,
    ApiConnectorError,
    CannotCreateTransaction,
    TransactionError,
    UnspecifiedError,
}

} // verus!
