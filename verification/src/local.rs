//! What the kernels of one rank need: line lengths, buffers and the transform of each axis.

use vstd::prelude::*;

use crate::error::BackendInitError;
use crate::error::LocalC2cError;
use crate::error::LocalR2cError;
use crate::error::LocalR2rError;
use crate::error::MixedError;

verus! {

/// The cosine and sine transforms.
#[derive(Clone, Copy, Debug, PartialEq, Eq, Structural)]
pub enum R2rKind {
    /// Cosine, even around both ends.
    DctI,
    /// Cosine, the usual forward one.
    DctII,
    /// Cosine, the usual inverse one.
    DctIII,
    /// Cosine, its own inverse up to scale.
    DctIV,
    /// Sine, odd around both ends.
    DstI,
    /// Sine, the usual forward one.
    DstII,
    /// Sine, the usual inverse one.
    DstIII,
    /// Sine, its own inverse up to scale.
    DstIV,
}

/// A real-to-real transform of one axis.
#[derive(Clone, Copy, Debug, PartialEq, Eq, Structural)]
pub enum AxisR2rKind {
    /// A cosine or sine transform.
    Fftw(R2rKind),
    /// The discrete Hartley transform.
    Dht,
}

impl AxisR2rKind {
    /// The word that a descriptor holds for the kind; zero stands for no transform.
    pub open spec fn spec_descriptor_code(self) -> u64 {
        match self {
            AxisR2rKind::Fftw(R2rKind::DctI) => 1,
            AxisR2rKind::Fftw(R2rKind::DctII) => 2,
            AxisR2rKind::Fftw(R2rKind::DctIII) => 3,
            AxisR2rKind::Fftw(R2rKind::DctIV) => 4,
            AxisR2rKind::Fftw(R2rKind::DstI) => 5,
            AxisR2rKind::Fftw(R2rKind::DstII) => 6,
            AxisR2rKind::Fftw(R2rKind::DstIII) => 7,
            AxisR2rKind::Fftw(R2rKind::DstIV) => 8,
            AxisR2rKind::Dht => 9,
        }
    }

    /// Returns the word that a descriptor holds for the kind.
    pub fn descriptor_code(self) -> (code: u64)
        ensures
            code == self.spec_descriptor_code(),
    {
        match self {
            AxisR2rKind::Fftw(R2rKind::DctI) => 1,
            AxisR2rKind::Fftw(R2rKind::DctII) => 2,
            AxisR2rKind::Fftw(R2rKind::DctIII) => 3,
            AxisR2rKind::Fftw(R2rKind::DctIV) => 4,
            AxisR2rKind::Fftw(R2rKind::DstI) => 5,
            AxisR2rKind::Fftw(R2rKind::DstII) => 6,
            AxisR2rKind::Fftw(R2rKind::DstIII) => 7,
            AxisR2rKind::Fftw(R2rKind::DstIV) => 8,
            AxisR2rKind::Dht => 9,
        }
    }
}

/// Kinds that differ have words that differ, and none has the word of no transform.
pub proof fn lemma_descriptor_code_unique(left: AxisR2rKind, right: AxisR2rKind)
    ensures
        left.spec_descriptor_code() != 0,
        left.spec_descriptor_code() == right.spec_descriptor_code() ==> left == right,
{
}

/// A concrete transform assigned to one logical spatial axis of a mixed plan.
///
/// `Unchanged` is an identity stage. `Fft` is a complex-to-complex FFT. `Rfft` is the one
/// real-to-half-complex boundary that a mixed real-to-complex plan has; a mixed complex plan
/// rejects it. `R2r` selects one of the eight cosine and sine transforms or the discrete Hartley
/// transform.
#[derive(Clone, Copy, Debug, PartialEq, Eq, Structural)]
pub enum AxisTransform {
    /// Leave this axis unchanged.
    Unchanged,
    /// Apply a complex FFT on this axis.
    Fft,
    /// Apply the real-to-half-complex boundary on this axis.
    Rfft,
    /// Apply a DCT, DST, or Hartley transform on this axis.
    R2r(AxisR2rKind),
}

/// How hard a native planner may work.
#[derive(Clone, Copy, Debug, PartialEq, Eq, Structural)]
pub enum PlanningRigor {
    /// No measurement.
    Estimate,
    /// Some measurement.
    Measure,
    /// More measurement.
    Patient,
    /// Every algorithm.
    Exhaustive,
}

/// Options of a native planner.
#[derive(Clone, Copy, Debug, PartialEq, Eq, Structural)]
pub struct PlanOptions {
    /// How hard the planner may work.
    pub rigor: PlanningRigor,
    /// Whether the planner's time is limited.
    pub limited: bool,
    /// The limit in nanoseconds, if there is one.
    pub limit_nanos: u64,
}

/// Which implementation runs the local kernels.
#[derive(Clone, Copy, Debug, PartialEq, Eq, Structural)]
pub enum BackendChoice {
    /// The portable one.
    RustFft,
    /// The native one.
    Fftw(PlanOptions),
}

/// Which implementation runs the local kernels, without its options.
#[derive(Clone, Copy, Debug, PartialEq, Eq, Structural)]
pub enum BackendKind {
    /// The portable one.
    RustFft,
    /// The native one.
    Fftw,
}

impl BackendChoice {
    /// The implementation without its options.
    pub open spec fn spec_kind(self) -> BackendKind {
        match self {
            BackendChoice::RustFft => BackendKind::RustFft,
            BackendChoice::Fftw(_) => BackendKind::Fftw,
        }
    }

    /// Returns the implementation without its options.
    pub fn kind(self) -> (kind: BackendKind)
        ensures
            kind == self.spec_kind(),
    {
        match self {
            BackendChoice::RustFft => BackendKind::RustFft,
            BackendChoice::Fftw(_) => BackendKind::Fftw,
        }
    }

    /// Returns the native planning options, if the native implementation was chosen.
    pub fn options(self) -> (options: Option<PlanOptions>)
        ensures
            options == match self {
                BackendChoice::RustFft => None,
                BackendChoice::Fftw(chosen) => Some(chosen),
            },
    {
        match self {
            BackendChoice::RustFft => None,
            BackendChoice::Fftw(chosen) => Some(chosen),
        }
    }
}

/// Lengths of a local complex plan.
#[derive(Clone, Copy, Debug, PartialEq, Eq, Structural)]
pub struct LocalC2cPlan {
    /// Elements of a line.
    pub line_len: usize,
    /// Elements of its scratch buffer.
    pub scratch_len: usize,
}

/// Lengths of a local real-to-complex plan.
#[derive(Clone, Copy, Debug, PartialEq, Eq, Structural)]
pub struct LocalR2cPlan {
    /// Elements of a real line.
    pub real_len: usize,
    /// Elements of a half-complex line.
    pub complex_len: usize,
    /// Elements of its scratch buffer.
    pub scratch_len: usize,
}

impl LocalR2cPlan {
    /// The half-complex line is the one of the real line.
    pub open spec fn wf(&self) -> bool {
        &&& self.real_len > 0
        &&& self.complex_len == self.real_len / 2 + 1
    }
}

/// Lengths of a local real-to-real plan.
#[derive(Clone, Copy, Debug, PartialEq, Eq, Structural)]
pub struct LocalR2rPlan {
    /// Elements of a line.
    pub line_len: usize,
    /// Elements of the complex line that the transform is embedded in.
    pub embedding_len: usize,
    /// Elements of its scratch buffer.
    pub scratch_len: usize,
    /// Factor between a line and the raw way there and back.
    pub normalization_factor: usize,
}

/// Lengths of a local Hartley plan.
pub type LocalDhtPlan = LocalR2rPlan;

/// The kernel of a real-to-real stage.
#[derive(Clone, Copy, Debug, PartialEq, Eq, Structural)]
pub enum R2rLocal {
    /// No transform.
    Identity,
    /// A cosine or sine transform.
    Transform(LocalR2rPlan),
    /// The Hartley transform.
    Hartley(LocalDhtPlan),
}

impl R2rLocal {
    /// Lengths of the plan, if there is one.
    pub open spec fn plan(self) -> Option<LocalR2rPlan> {
        match self {
            R2rLocal::Identity => None,
            R2rLocal::Transform(plan) => Some(plan),
            R2rLocal::Hartley(plan) => Some(plan),
        }
    }

    /// Returns the elements of the embedding line.
    pub fn embedding_len(&self) -> (len: usize)
        ensures
            len == match self.plan() {
                Some(plan) => plan.embedding_len,
                None => 0,
            },
    {
        match self {
            R2rLocal::Identity => 0,
            R2rLocal::Transform(plan) => plan.embedding_len,
            R2rLocal::Hartley(plan) => plan.embedding_len,
        }
    }

    /// Returns the elements of the scratch buffer.
    pub fn scratch_len(&self) -> (len: usize)
        ensures
            len == match self.plan() {
                Some(plan) => plan.scratch_len,
                None => 0,
            },
    {
        match self {
            R2rLocal::Identity => 0,
            R2rLocal::Transform(plan) => plan.scratch_len,
            R2rLocal::Hartley(plan) => plan.scratch_len,
        }
    }
}

/// The real-to-real kernel of a mixed stage.
#[derive(Clone, Copy, Debug, PartialEq, Eq, Structural)]
pub enum MixedR2rLocal {
    /// A cosine or sine transform.
    Transform(LocalR2rPlan),
    /// The Hartley transform.
    Hartley(LocalDhtPlan),
}

impl MixedR2rLocal {
    /// Lengths of the plan.
    pub open spec fn plan(self) -> LocalR2rPlan {
        match self {
            MixedR2rLocal::Transform(plan) => plan,
            MixedR2rLocal::Hartley(plan) => plan,
        }
    }

    /// Returns the elements of the embedding line.
    pub fn embedding_len(&self) -> (len: usize)
        ensures
            len == self.plan().embedding_len,
    {
        match self {
            MixedR2rLocal::Transform(plan) => plan.embedding_len,
            MixedR2rLocal::Hartley(plan) => plan.embedding_len,
        }
    }

    /// Returns the elements of the scratch buffer.
    pub fn scratch_len(&self) -> (len: usize)
        ensures
            len == self.plan().scratch_len,
    {
        match self {
            MixedR2rLocal::Transform(plan) => plan.scratch_len,
            MixedR2rLocal::Hartley(plan) => plan.scratch_len,
        }
    }

    /// Returns the elements of a line.
    pub fn line_len(&self) -> (len: usize)
        ensures
            len == self.plan().line_len,
    {
        match self {
            MixedR2rLocal::Transform(plan) => plan.line_len,
            MixedR2rLocal::Hartley(plan) => plan.line_len,
        }
    }
}

/// The kernel of a complex mixed stage.
#[derive(Clone, Copy, Debug, PartialEq, Eq, Structural)]
pub enum MixedComplexLocal {
    /// No transform.
    Identity,
    /// A complex FFT.
    Fft(LocalC2cPlan),
    /// A real-to-real transform of complex values.
    R2r(MixedR2rLocal),
}

impl MixedComplexLocal {
    /// Elements of the embedding line.
    pub open spec fn spec_embedding_len(self) -> usize {
        match self {
            MixedComplexLocal::R2r(plan) => plan.plan().embedding_len,
            _ => 0,
        }
    }

    /// Elements of the scratch buffer.
    pub open spec fn spec_scratch_len(self) -> usize {
        match self {
            MixedComplexLocal::Identity => 0,
            MixedComplexLocal::Fft(plan) => plan.scratch_len,
            MixedComplexLocal::R2r(plan) => plan.plan().scratch_len,
        }
    }

    /// Elements of a line; none without a transform.
    pub open spec fn spec_line_len(self) -> usize {
        match self {
            MixedComplexLocal::Identity => 0,
            MixedComplexLocal::Fft(plan) => plan.line_len,
            MixedComplexLocal::R2r(plan) => plan.plan().line_len,
        }
    }

    /// Returns the elements of the embedding line.
    pub fn embedding_len(&self) -> (len: usize)
        ensures
            len == self.spec_embedding_len(),
    {
        match self {
            MixedComplexLocal::Identity | MixedComplexLocal::Fft(_) => 0,
            MixedComplexLocal::R2r(plan) => plan.embedding_len(),
        }
    }

    /// Returns the elements of the scratch buffer.
    pub fn scratch_len(&self) -> (len: usize)
        ensures
            len == self.spec_scratch_len(),
    {
        match self {
            MixedComplexLocal::Identity => 0,
            MixedComplexLocal::Fft(plan) => plan.scratch_len,
            MixedComplexLocal::R2r(plan) => plan.scratch_len(),
        }
    }

    /// Returns the elements of a line.
    pub fn line_len(&self) -> (len: usize)
        ensures
            len == self.spec_line_len(),
    {
        match self {
            MixedComplexLocal::Identity => 0,
            MixedComplexLocal::Fft(plan) => plan.line_len,
            MixedComplexLocal::R2r(plan) => plan.line_len(),
        }
    }
}

/// The kernel of a real mixed stage.
#[derive(Clone, Copy, Debug, PartialEq, Eq, Structural)]
pub enum MixedRealLocal {
    /// No transform.
    Identity,
    /// The real-to-complex boundary.
    Rfft(LocalR2cPlan),
    /// A real-to-real transform.
    R2r(MixedR2rLocal),
}

impl MixedRealLocal {
    /// Elements of the embedding line.
    pub open spec fn spec_embedding_len(self) -> usize {
        match self {
            MixedRealLocal::R2r(plan) => plan.plan().embedding_len,
            _ => 0,
        }
    }

    /// Elements of the scratch buffer.
    pub open spec fn spec_scratch_len(self) -> usize {
        match self {
            MixedRealLocal::Identity => 0,
            MixedRealLocal::Rfft(plan) => plan.scratch_len,
            MixedRealLocal::R2r(plan) => plan.plan().scratch_len,
        }
    }

    /// Elements of a real line; none without a transform.
    pub open spec fn spec_line_len(self) -> usize {
        match self {
            MixedRealLocal::Identity => 0,
            MixedRealLocal::Rfft(plan) => plan.real_len,
            MixedRealLocal::R2r(plan) => plan.plan().line_len,
        }
    }

    /// Returns the elements of the embedding line.
    pub fn embedding_len(&self) -> (len: usize)
        ensures
            len == self.spec_embedding_len(),
    {
        match self {
            MixedRealLocal::Identity | MixedRealLocal::Rfft(_) => 0,
            MixedRealLocal::R2r(plan) => plan.embedding_len(),
        }
    }

    /// Returns the elements of the scratch buffer.
    pub fn scratch_len(&self) -> (len: usize)
        ensures
            len == self.spec_scratch_len(),
    {
        match self {
            MixedRealLocal::Identity => 0,
            MixedRealLocal::Rfft(plan) => plan.scratch_len,
            MixedRealLocal::R2r(plan) => plan.scratch_len(),
        }
    }

    /// Returns the elements of a real line.
    pub fn line_len(&self) -> (len: usize)
        ensures
            len == self.spec_line_len(),
    {
        match self {
            MixedRealLocal::Identity => 0,
            MixedRealLocal::Rfft(plan) => plan.real_len,
            MixedRealLocal::R2r(plan) => plan.line_len(),
        }
    }
}

/// Returns the elements of a real line of a mixed stage.
pub fn local_line_len_real(local: &MixedRealLocal) -> (len: usize)
    ensures
        len == local.spec_line_len(),
{
    local.line_len()
}

/// Returns the elements of a complex line of a mixed stage.
pub fn local_line_len_complex(local: &MixedComplexLocal) -> (len: usize)
    ensures
        len == local.spec_line_len(),
{
    local.line_len()
}

/// The kernel of a stage of a mixed real-to-complex plan.
#[derive(Clone, Copy, Debug, PartialEq, Eq, Structural)]
pub enum MixedR2cStageLocal {
    /// The stage reads real values.
    Real(MixedRealLocal),
    /// The stage reads complex values.
    Complex(MixedComplexLocal),
}

/// The kernel of a stage of a real-to-complex plan.
#[derive(Clone, Copy, Debug, PartialEq, Eq, Structural)]
pub enum LocalTransform {
    /// No transform.
    Identity,
    /// A complex FFT.
    Complex(LocalC2cPlan),
    /// The real-to-complex boundary.
    RealComplex(LocalR2cPlan),
}

impl LocalTransform {
    /// Elements of the scratch buffer.
    pub open spec fn spec_scratch_len(self) -> usize {
        match self {
            LocalTransform::Identity => 0,
            LocalTransform::Complex(plan) => plan.scratch_len,
            LocalTransform::RealComplex(plan) => plan.scratch_len,
        }
    }

    /// Returns the elements of the scratch buffer.
    pub fn scratch_len(&self) -> (len: usize)
        ensures
            len == self.spec_scratch_len(),
    {
        match self {
            LocalTransform::Identity => 0,
            LocalTransform::Complex(plan) => plan.scratch_len,
            LocalTransform::RealComplex(plan) => plan.scratch_len,
        }
    }
}

/// What a planner reports for the real-to-real kernel of a mixed stage of kind `kind`.
pub open spec fn spec_mixed_r2r_local(
    kind: AxisR2rKind,
    planned: Result<LocalR2rPlan, BackendInitError<LocalR2rError>>,
) -> Result<MixedR2rLocal, BackendInitError<MixedError>> {
    match planned {
        Ok(plan) => match kind {
            AxisR2rKind::Fftw(_) => Ok(MixedR2rLocal::Transform(plan)),
            AxisR2rKind::Dht => Ok(MixedR2rLocal::Hartley(plan)),
        },
        Err(BackendInitError::Local(error)) => Err(
            BackendInitError::Local(MixedError::LocalR2r(error)),
        ),
        Err(BackendInitError::Native(error)) => Err(BackendInitError::Native(error)),
        Err(BackendInitError::PeerPreflight) => Err(BackendInitError::PeerPreflight),
    }
}

/// Turns what a planner reported into the real-to-real kernel of a mixed stage.
pub fn mixed_r2r_local(
    kind: AxisR2rKind,
    planned: Result<LocalR2rPlan, BackendInitError<LocalR2rError>>,
) -> (result: Result<MixedR2rLocal, BackendInitError<MixedError>>)
    ensures
        result == spec_mixed_r2r_local(kind, planned),
{
    match planned {
        Ok(plan) => match kind {
            AxisR2rKind::Fftw(_) => Ok(MixedR2rLocal::Transform(plan)),
            AxisR2rKind::Dht => Ok(MixedR2rLocal::Hartley(plan)),
        },
        Err(BackendInitError::Local(error)) => Err(
            BackendInitError::Local(MixedError::LocalR2r(error)),
        ),
        Err(BackendInitError::Native(error)) => Err(BackendInitError::Native(error)),
        Err(BackendInitError::PeerPreflight) => Err(BackendInitError::PeerPreflight),
    }
}

/// What a planner reports for a complex kernel of a mixed stage.
pub open spec fn spec_mixed_c2c_local(
    planned: Result<LocalC2cPlan, BackendInitError<LocalC2cError>>,
) -> Result<LocalC2cPlan, BackendInitError<MixedError>> {
    match planned {
        Ok(plan) => Ok(plan),
        Err(BackendInitError::Local(error)) => Err(
            BackendInitError::Local(MixedError::LocalC2c(error)),
        ),
        Err(BackendInitError::Native(error)) => Err(BackendInitError::Native(error)),
        Err(BackendInitError::PeerPreflight) => Err(BackendInitError::PeerPreflight),
    }
}

/// Turns what a planner reported into the complex kernel of a mixed stage.
pub fn mixed_c2c_local(planned: Result<LocalC2cPlan, BackendInitError<LocalC2cError>>) -> (result:
    Result<LocalC2cPlan, BackendInitError<MixedError>>)
    ensures
        result == spec_mixed_c2c_local(planned),
{
    match planned {
        Ok(plan) => Ok(plan),
        Err(BackendInitError::Local(error)) => Err(
            BackendInitError::Local(MixedError::LocalC2c(error)),
        ),
        Err(BackendInitError::Native(error)) => Err(BackendInitError::Native(error)),
        Err(BackendInitError::PeerPreflight) => Err(BackendInitError::PeerPreflight),
    }
}

/// What a planner reports for the real-to-complex boundary of a mixed plan.
pub open spec fn spec_mixed_r2c_local(
    planned: Result<LocalR2cPlan, BackendInitError<LocalR2cError>>,
) -> Result<LocalR2cPlan, BackendInitError<MixedError>> {
    match planned {
        Ok(plan) => Ok(plan),
        Err(BackendInitError::Local(error)) => Err(
            BackendInitError::Local(MixedError::LocalR2c(error)),
        ),
        Err(BackendInitError::Native(error)) => Err(BackendInitError::Native(error)),
        Err(BackendInitError::PeerPreflight) => Err(BackendInitError::PeerPreflight),
    }
}

/// Turns what a planner reported into the real-to-complex boundary of a mixed plan.
pub fn mixed_r2c_local(planned: Result<LocalR2cPlan, BackendInitError<LocalR2cError>>) -> (result:
    Result<LocalR2cPlan, BackendInitError<MixedError>>)
    ensures
        result == spec_mixed_r2c_local(planned),
{
    match planned {
        Ok(plan) => Ok(plan),
        Err(BackendInitError::Local(error)) => Err(
            BackendInitError::Local(MixedError::LocalR2c(error)),
        ),
        Err(BackendInitError::Native(error)) => Err(BackendInitError::Native(error)),
        Err(BackendInitError::PeerPreflight) => Err(BackendInitError::PeerPreflight),
    }
}

} // verus!
