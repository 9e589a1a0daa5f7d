//! Errors of layouts, plans, executions and collections, and the maps between them.

use vstd::prelude::*;

verus! {

/// Why a registered array refuses an access or a construction.
#[derive(Clone, Copy, Debug, PartialEq, Eq)]
pub enum ArrayError {
    /// An interrupted operation left the contents meaningless.
    Poisoned,
    /// The registered layouts do not fit one another, or not the requested layout.
    IncompatiblePencils,
    /// The storage does not hold exactly the elements of the largest registered layout.
    StorageLength {
        /// Elements that the registered layouts ask for.
        required: usize,
        /// Elements that were given.
        actual: usize,
    },
}

/// Why a pencil could not be made from a shape.
#[derive(Clone, Copy, Debug, PartialEq, Eq)]
pub enum PencilError {
    /// The shape or the decomposition does not fit the process grid.
    InvalidDecomposition,
    /// A local length does not fit the address space.
    LengthOverflow,
}

/// Why a local complex plan refused its arguments.
#[derive(Clone, Copy, Debug, PartialEq, Eq)]
pub enum LocalC2cError {
    /// The line length cannot be planned.
    InvalidLength,
    /// The data is not a whole number of lines.
    NonIntegralBatch,
    /// The scratch buffer is too short.
    ScratchTooSmall,
}

/// Why a local real-to-complex plan refused its arguments.
#[derive(Clone, Copy, Debug, PartialEq, Eq)]
pub enum LocalR2cError {
    /// The line length cannot be planned.
    InvalidLength,
    /// The data is not a whole number of lines.
    NonIntegralBatch,
    /// The scratch buffer is too short.
    ScratchTooSmall,
}

/// Why a local real-to-real plan refused its arguments.
#[derive(Clone, Copy, Debug, PartialEq, Eq)]
pub enum LocalR2rError {
    /// The line length cannot be planned.
    InvalidLength,
    /// The data is not a whole number of lines.
    NonIntegralBatch,
    /// The scratch buffer is too short.
    ScratchTooSmall,
}

/// Why a transpose between two layouts failed.
#[derive(Clone, Copy, Debug, PartialEq, Eq)]
pub enum TransposeError {
    /// The array does not hold the layout that the transpose starts from.
    IncompatiblePencils,
    /// A buffer is too short.
    BufferTooSmall,
    /// The transport reported a failure.
    Transport,
}

/// Errors that every distributed plan shares.
#[derive(Clone, Copy, Debug, PartialEq, Eq)]
pub enum FftError {
    /// The ranks called different operations, or with different descriptors.
    CollectiveDescriptorMismatch,
    /// Another rank rejected the call.
    CollectivePreconditionFailed,
    /// The plan could not be prepared, or a length does not fit the prepared plan.
    PreparationFailed,
    /// No axis is selected.
    InvalidDimensions,
    /// Memory for `required` elements could not be had.
    AllocationFailed {
        /// Elements asked for.
        required: usize,
    },
    /// A buffer of the workspace is too short.
    WorkspaceTooSmall {
        /// Which buffer.
        kind: &'static str,
        /// Elements that the plan needs.
        required: usize,
        /// Elements that the buffer has.
        actual: usize,
    },
    /// The workspace belongs to another plan, or its parts do not fit this one.
    WorkspaceMismatch,
    /// The source does not have the expected layout or state.
    InputLayoutMismatch,
    /// The destination does not have the expected layout or state.
    OutputLayoutMismatch,
    /// The extra dimensions differ from those of the plan.
    ExtraShapeMismatch,
    /// The shared allocation does not hold what its state promises.
    StorageLayoutMismatch,
    /// A registered array refused an access.
    Array(ArrayError),
    /// A pencil could not be made.
    Pencil(PencilError),
    /// A transpose failed.
    Transpose(TransposeError),
    /// A complex stage refused its arguments.
    LocalC2c(LocalC2cError),
}

/// Errors of real-to-real plans.
#[derive(Clone, Copy, Debug, PartialEq, Eq)]
pub enum R2rError {
    /// A shared check or a transition failed.
    Fft(FftError),
    /// A local real-to-real stage refused its arguments.
    LocalR2r(LocalR2rError),
}

/// Errors of real-to-complex plans.
#[derive(Clone, Copy, Debug, PartialEq, Eq)]
pub enum R2cError {
    /// A shared check or a transition failed.
    Fft(FftError),
    /// The real-to-complex boundary refused its arguments.
    LocalR2c(LocalR2cError),
    /// A constrained plane of the spectrum is not real enough.
    InvalidSpectrum,
}

/// Errors returned by heterogeneous distributed plans.
#[derive(Clone, Copy, Debug, PartialEq, Eq)]
pub enum MixedError {
    /// A shared distributed validation or transition failed.
    Fft(FftError),
    /// A complex FFT stage rejected checked input.
    LocalC2c(LocalC2cError),
    /// A DCT, DST, or Hartley stage rejected checked input.
    LocalR2r(LocalR2rError),
    /// The real-to-complex boundary rejected checked input.
    LocalR2c(LocalR2cError),
    /// The axis graph is not valid for the selected mixed plan family.
    InvalidGraph,
    /// The constrained Fourier boundary was not sufficiently real.
    InvalidSpectrum,
}

/// Why a writer that fills a registered array failed.
#[derive(Clone, Copy, Debug, PartialEq, Eq)]
pub enum OverwriteError<E> {
    /// The array refused the layout.
    Array(ArrayError),
    /// The writer itself failed.
    Writer(E),
}

/// Why a transpose that runs a kernel before its send waits failed.
#[derive(Clone, Copy, Debug, PartialEq, Eq)]
pub enum OverlapError<E> {
    /// The transpose failed.
    Transpose(TransposeError),
    /// The kernel failed on this rank.
    Callback(E),
    /// The kernel panicked on another rank.
    PeerPanicked,
    /// The kernel failed on another rank.
    PeerCallbackFailed,
    /// Another rank rejected the call.
    CollectivePreconditionFailed,
}

/// Errors of executions that overlap kernels with communication.
#[derive(Clone, Copy, Debug, PartialEq, Eq)]
pub enum FftOverlapError<E> {
    /// The operation failed as it would without overlap.
    Operation(E),
    /// An overlapped transpose failed.
    Overlap(OverlapError<E>),
    /// A transition of the plan does not go point to point.
    UnsupportedTransport,
}

/// What a native planner reported.
#[derive(Clone, Copy, Debug, PartialEq, Eq)]
pub enum NativeError {
    /// The library is not there.
    Unavailable,
    /// The library refused to plan.
    PlanningFailed,
}

/// Errors of a construction with a chosen backend.
#[derive(Clone, Copy, Debug, PartialEq, Eq)]
pub enum BackendInitError<E> {
    /// This rank's construction failed.
    Local(E),
    /// The native planner failed.
    Native(NativeError),
    /// Another rank's construction failed.
    PeerPreflight,
}

/// Errors of an operation over a collection of arrays.
#[allow(inconsistent_fields)]
#[derive(Clone, Copy, Debug, PartialEq, Eq)]
pub enum CollectionError<E> {
    /// The ranks called different collection operations.
    HeaderMismatch,
    /// The descriptor of the plan could not be agreed upon.
    Descriptor {
        /// What the agreement reported.
        error: FftError,
    },
    /// The collection has no member.
    Empty,
    /// There are not as many destinations as sources.
    CountMismatch {
        /// Number of sources.
        sources: usize,
        /// Number of destinations.
        destinations: usize,
    },
    /// A member failed on this rank.
    Member {
        /// Position of the member.
        index: usize,
        /// What the member reported.
        error: E,
    },
    /// A member was rejected on another rank before anything ran.
    PeerPreflight {
        /// Position of the member.
        index: usize,
    },
    /// A member failed on another rank while it ran.
    PeerExecution {
        /// Position of the member.
        index: usize,
    },
}

impl From<FftError> for R2rError {
    fn from(error: FftError) -> (result: R2rError) {
        R2rError::Fft(error)
    }
}

impl vstd::std_specs::convert::FromSpecImpl<FftError> for R2rError {
    open spec fn obeys_from_spec() -> bool {
        true
    }

    open spec fn from_spec(error: FftError) -> R2rError {
        R2rError::Fft(error)
    }
}

impl From<FftError> for R2cError {
    fn from(error: FftError) -> (result: R2cError) {
        R2cError::Fft(error)
    }
}

impl vstd::std_specs::convert::FromSpecImpl<FftError> for R2cError {
    open spec fn obeys_from_spec() -> bool {
        true
    }

    open spec fn from_spec(error: FftError) -> R2cError {
        R2cError::Fft(error)
    }
}

impl From<FftError> for MixedError {
    fn from(error: FftError) -> (result: MixedError) {
        MixedError::Fft(error)
    }
}

impl vstd::std_specs::convert::FromSpecImpl<FftError> for MixedError {
    open spec fn obeys_from_spec() -> bool {
        true
    }

    open spec fn from_spec(error: FftError) -> MixedError {
        MixedError::Fft(error)
    }
}

impl From<FftError> for FftOverlapError<R2cError> {
    fn from(error: FftError) -> (result: FftOverlapError<R2cError>) {
        FftOverlapError::Operation(R2cError::Fft(error))
    }
}

impl vstd::std_specs::convert::FromSpecImpl<FftError> for FftOverlapError<R2cError> {
    open spec fn obeys_from_spec() -> bool {
        true
    }

    open spec fn from_spec(error: FftError) -> FftOverlapError<R2cError> {
        FftOverlapError::Operation(R2cError::Fft(error))
    }
}

impl From<FftError> for FftOverlapError<MixedError> {
    fn from(error: FftError) -> (result: FftOverlapError<MixedError>) {
        FftOverlapError::Operation(MixedError::Fft(error))
    }
}

impl vstd::std_specs::convert::FromSpecImpl<FftError> for FftOverlapError<MixedError> {
    open spec fn obeys_from_spec() -> bool {
        true
    }

    open spec fn from_spec(error: FftError) -> FftOverlapError<MixedError> {
        FftOverlapError::Operation(MixedError::Fft(error))
    }
}

impl From<FftError> for BackendInitError<MixedError> {
    fn from(error: FftError) -> (result: BackendInitError<MixedError>) {
        BackendInitError::Local(MixedError::Fft(error))
    }
}

impl vstd::std_specs::convert::FromSpecImpl<FftError> for BackendInitError<MixedError> {
    open spec fn obeys_from_spec() -> bool {
        true
    }

    open spec fn from_spec(error: FftError) -> BackendInitError<MixedError> {
        BackendInitError::Local(MixedError::Fft(error))
    }
}

/// What a mixed plan reports when the writer of an overwrite failed.
pub fn map_overwrite(error: OverwriteError<MixedError>) -> (result: MixedError)
    ensures
        result == match error {
            OverwriteError::Array(array) => MixedError::Fft(FftError::Array(array)),
            OverwriteError::Writer(writer) => writer,
        },
{
    match error {
        OverwriteError::Array(array) => MixedError::Fft(FftError::Array(array)),
        OverwriteError::Writer(writer) => writer,
    }
}

/// What a real-to-real plan reports when the writer of an overwrite failed.
pub fn map_overwrite_error(error: OverwriteError<R2rError>) -> (result: R2rError)
    ensures
        result == match error {
            OverwriteError::Array(array) => R2rError::Fft(FftError::Array(array)),
            OverwriteError::Writer(writer) => writer,
        },
{
    match error {
        OverwriteError::Array(array) => R2rError::Fft(FftError::Array(array)),
        OverwriteError::Writer(writer) => writer,
    }
}

/// What a mixed plan reports when an overlapped transpose failed.
pub fn map_mixed_overlap(error: OverlapError<MixedError>) -> (result: FftOverlapError<MixedError>)
    ensures
        result == FftOverlapError::Overlap(error),
{
    FftOverlapError::Overlap(error)
}

/// What a real-to-complex plan reports when an overlapped transpose failed.
pub fn map_r2c_overlap(error: OverlapError<R2cError>) -> (result: FftOverlapError<R2cError>)
    ensures
        result == FftOverlapError::Overlap(error),
{
    FftOverlapError::Overlap(error)
}

/// What a mixed construction without a chosen backend reports.
pub fn without_backend(error: BackendInitError<MixedError>) -> (result: MixedError)
    ensures
        result == match error {
            BackendInitError::Local(local) => local,
            _ => MixedError::Fft(FftError::PreparationFailed),
        },
{
    match error {
        BackendInitError::Local(local) => local,
        _ => MixedError::Fft(FftError::PreparationFailed),
    }
}

/// An error type that holds the errors which all plans share.
pub trait Failure: Sized {
    /// The error as one of this type.
    spec fn spec_of_fft(error: FftError) -> Self;

    /// Turns the error into one of this type.
    fn of_fft(error: FftError) -> (failure: Self)
        ensures
            failure == Self::spec_of_fft(error),
    ;
}

impl Failure for R2rError {
    open spec fn spec_of_fft(error: FftError) -> Self {
        R2rError::Fft(error)
    }

    fn of_fft(error: FftError) -> (failure: Self) {
        R2rError::Fft(error)
    }
}

impl Failure for R2cError {
    open spec fn spec_of_fft(error: FftError) -> Self {
        R2cError::Fft(error)
    }

    fn of_fft(error: FftError) -> (failure: Self) {
        R2cError::Fft(error)
    }
}

impl Failure for MixedError {
    open spec fn spec_of_fft(error: FftError) -> Self {
        MixedError::Fft(error)
    }

    fn of_fft(error: FftError) -> (failure: Self) {
        MixedError::Fft(error)
    }
}

impl<E: Failure> Failure for FftOverlapError<E> {
    open spec fn spec_of_fft(error: FftError) -> Self {
        FftOverlapError::Operation(E::spec_of_fft(error))
    }

    fn of_fft(error: FftError) -> (failure: Self) {
        FftOverlapError::Operation(E::of_fft(error))
    }
}

impl<E: Failure> Failure for BackendInitError<E> {
    open spec fn spec_of_fft(error: FftError) -> Self {
        BackendInitError::Local(E::spec_of_fft(error))
    }

    fn of_fft(error: FftError) -> (failure: Self) {
        BackendInitError::Local(E::of_fft(error))
    }
}

} // verus!
