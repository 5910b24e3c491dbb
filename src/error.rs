//! Why a target descriptor could not be built.
use vstd::prelude::*;
use crate::overrides::{Override, OverrideValue, field_of};

verus! {

/// A field of the option set that an override can set.
#[derive(Clone, Copy, Debug, PartialEq, Eq, Structural)]
pub enum OverrideField {
    PointerTypeWidth,
    LlvmAbiname,
    Features,
    Linker,
    LinkerFlavor,
}

/// A descriptor definition that cannot be built. Each variant names what was
/// wrong and, where there are some, the values involved.
#[derive(Clone, Debug, PartialEq, Eq)]
pub enum TargetError {
    /// No base option set is registered under the family's name.
    UnknownFamily,
    /// `second` sets `field`, which `first` had already set to another value.
    ConflictingOverride { field: OverrideField, first: Override, second: Override },
    /// The capability pointer width `given` is narrower than the address
    /// width, or is not the width `declared` by the data layout for the
    /// capability address space (`None` when the layout declares none).
    CapabilityWidthMismatch { given: u64, pointer_width: u32, declared: Option<u64> },
    /// The feature string both enables and disables one feature.
    ConflictingFeature,
    /// The backend target name is empty.
    EmptyLlvmTarget,
    /// The architecture name is empty.
    EmptyArch,
}

/// Mathematical model of [`TargetError`].
pub enum ErrorModel {
    UnknownFamily,
    ConflictingOverride { field: OverrideField, first: OverrideValue, second: OverrideValue },
    CapabilityWidthMismatch { given: u64, pointer_width: u32, declared: Option<u64> },
    ConflictingFeature,
    EmptyLlvmTarget,
    EmptyArch,
}

impl View for TargetError {
    type V = ErrorModel;

    open spec fn view(&self) -> ErrorModel {
        match self {
            TargetError::UnknownFamily => ErrorModel::UnknownFamily,
            TargetError::ConflictingOverride { field, first, second } => ErrorModel::ConflictingOverride {
                field: *field,
                first: first@,
                second: second@,
            },
            TargetError::CapabilityWidthMismatch { given, pointer_width, declared } =>
                ErrorModel::CapabilityWidthMismatch {
                given: *given,
                pointer_width: *pointer_width,
                declared: *declared,
            },
            TargetError::ConflictingFeature => ErrorModel::ConflictingFeature,
            TargetError::EmptyLlvmTarget => ErrorModel::EmptyLlvmTarget,
            TargetError::EmptyArch => ErrorModel::EmptyArch,
        }
    }
}

/// The error for `second` overriding the value `first` of the same field.
pub open spec fn conflict_error(c: (OverrideValue, OverrideValue)) -> ErrorModel {
    ErrorModel::ConflictingOverride { field: field_of(c.1), first: c.0, second: c.1 }
}

} // verus!
