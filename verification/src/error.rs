use vstd::prelude::*;

verus! {

/// Enumeration of possible device error types.
#[derive(Clone, Copy, Debug, PartialEq, Eq, Structural)]
pub enum DeviceErrorKind {
    /// A bounded wait ran out of its cycle budget before enough output
    /// arrived; recoverable, the caller decides whether to retry with a
    /// larger budget.
    Timeout,
    /// The provided buffer was too small to contain the result; the
    /// destination is left untouched.
    BufferTooSmall,
    /// The executable image was malformed or not of the expected kind; the
    /// bridge state is unaffected.
    LoadError,
}

/// A device error.
#[derive(Clone, Copy, Debug)]
pub struct DeviceError {
    kind: DeviceErrorKind,
}

impl DeviceError {
    /// The kind of failure this error reports.
    pub closed spec fn spec_kind(&self) -> DeviceErrorKind {
        self.kind
    }

    /// Wraps a failure kind as a device error.
    pub fn from(kind: DeviceErrorKind) -> (r: Self)
        ensures
            r.spec_kind() == kind,
    {
        DeviceError { kind }
    }

    /// The kind of failure this error reports.
    pub fn kind(&self) -> (r: DeviceErrorKind)
        ensures
            r == self.spec_kind(),
    {
        self.kind
    }
}

} // verus!
