//! Target descriptors: how one is assembled from a platform family's base
//! options and a list of corrections, and the checks it must pass.
use vstd::prelude::*;
use vstd::utf8::encode_utf8;
use crate::error::{ErrorModel, TargetError, conflict_error};
use crate::features::{conflicting_features, has_feature_conflict};
use crate::layout::{capability_pointer_width, capability_width};
use crate::options::{
    ArgsModel, Cc, LinkerFlavor, Lld, OptionsModel, PanicStrategy, RelocModel, TargetOptions,
    appended, strs_view,
};
use crate::overrides::{
    Override, OverrideValue, OverridesModel, applied, apply_overrides, collected, first_conflict,
    overrides_view, TargetOverrides,
};

verus! {

/// A platform family with a registered set of base options.
#[derive(Clone, Copy, Debug, PartialEq, Eq, Structural)]
pub enum PlatformFamily {
    FreeBsd,
    GenericBsd,
}

/// The name under which a family's base options are registered.
pub open spec fn family_name(family: PlatformFamily) -> Seq<char> {
    match family {
        PlatformFamily::FreeBsd => "freebsd"@,
        PlatformFamily::GenericBsd => "generic-bsd"@,
    }
}

impl PlatformFamily {
    /// The family registered under `name`.
    pub fn from_name(name: &str) -> (r: Result<PlatformFamily, TargetError>)
        ensures
            r matches Ok(f) ==> family_name(f) == name@,
            r is Err <==> (forall|f: PlatformFamily| family_name(f) != name@),
            r is Err ==> r == Err::<PlatformFamily, TargetError>(TargetError::UnknownFamily),
    {
        let n: String = name.to_owned();
        if n == "freebsd".to_owned() {
            Ok(PlatformFamily::FreeBsd)
        } else if n == "generic-bsd".to_owned() {
            Ok(PlatformFamily::GenericBsd)
        } else {
            assert forall|f: PlatformFamily| family_name(f) != name@ by {
                match f {
                    PlatformFamily::FreeBsd => {},
                    PlatformFamily::GenericBsd => {},
                }
            }
            Err(TargetError::UnknownFamily)
        }
    }
}

/// The complete, sealed description of one compilation target.
pub struct Target {
    pub data_layout: String,
    pub llvm_target: String,
    pub pointer_width: u32,
    pub arch: String,
    pub options: TargetOptions,
}

/// Mathematical model of [`Target`].
pub struct TargetModel {
    pub data_layout: Seq<char>,
    pub llvm_target: Seq<char>,
    pub pointer_width: u32,
    pub arch: Seq<char>,
    pub options: OptionsModel,
}

impl View for Target {
    type V = TargetModel;

    open spec fn view(&self) -> TargetModel {
        TargetModel {
            data_layout: self.data_layout@,
            llvm_target: self.llvm_target@,
            pointer_width: self.pointer_width,
            arch: self.arch@,
            options: self.options@,
        }
    }
}

/// The base options of a BSD-style platform family.
pub open spec fn family_defaults(family: PlatformFamily) -> OptionsModel {
    OptionsModel {
        linker_flavor: LinkerFlavor::Gnu(Cc::Yes, Lld::No),
        pre_link_args: Seq::empty(),
        pointer_type_width: None,
        llvm_abiname: Seq::empty(),
        features: Seq::empty(),
        linker: None,
        relocation_model: RelocModel::Pic,
        panic_strategy: PanicStrategy::Unwind,
        function_sections: true,
        dynamic_linking: true,
        executables: true,
    }
}

/// Builds the base options of `family`; every family has them.
pub fn base_options(family: PlatformFamily) -> (r: TargetOptions)
    ensures
        r@ == family_defaults(family),
        r.wf(),
{
    let r = TargetOptions {
        linker_flavor: LinkerFlavor::Gnu(Cc::Yes, Lld::No),
        pre_link_args: Vec::new(),
        pointer_type_width: None,
        llvm_abiname: String::new(),
        features: String::new(),
        linker: None,
        relocation_model: RelocModel::Pic,
        panic_strategy: PanicStrategy::Unwind,
        function_sections: true,
        dynamic_linking: true,
        executables: true,
    };
    assert(r@.pre_link_args =~= Seq::empty());
    r
}

/// The width that `layout` declares for its capability address space.
pub open spec fn declared_width(layout: Seq<char>) -> Option<u64> {
    match capability_width(encode_utf8(layout)) {
        Some(n) => Some(n as u64),
        None => None,
    }
}

/// The capability pointer width, when there is one, is no narrower than an
/// address and is the width that the layout gives the capability space.
pub open spec fn width_consistent(ptw: Option<u64>, pointer_width: u32, layout: Seq<char>) -> bool {
    match ptw {
        None => true,
        Some(w) => w >= pointer_width && declared_width(layout) == Some(w),
    }
}

/// What checking a descriptor finds, in the order the checks run.
pub open spec fn check_result(t: TargetModel) -> Result<(), ErrorModel> {
    if t.llvm_target.len() == 0 {
        Err(ErrorModel::EmptyLlvmTarget)
    } else if t.arch.len() == 0 {
        Err(ErrorModel::EmptyArch)
    } else if !width_consistent(t.options.pointer_type_width, t.pointer_width, t.data_layout) {
        Err(
            ErrorModel::CapabilityWidthMismatch {
                given: t.options.pointer_type_width->Some_0,
                pointer_width: t.pointer_width,
                declared: declared_width(t.data_layout),
            },
        )
    } else if has_feature_conflict(encode_utf8(t.options.features)) {
        Err(ErrorModel::ConflictingFeature)
    } else {
        Ok(())
    }
}

/// The model of a check's result.
pub open spec fn check_outcome(r: Result<(), TargetError>) -> Result<(), ErrorModel> {
    match r {
        Ok(_) => Ok(()),
        Err(e) => Err(e@),
    }
}

/// The descriptor that a definition describes, before it is checked.
pub open spec fn assembled(
    family: PlatformFamily,
    data_layout: Seq<char>,
    llvm_target: Seq<char>,
    pointer_width: u32,
    arch: Seq<char>,
    flavor: LinkerFlavor,
    args: ArgsModel,
    ov: OverridesModel,
) -> TargetModel {
    let base = family_defaults(family);
    TargetModel {
        data_layout,
        llvm_target,
        pointer_width,
        arch,
        options: applied(
            OptionsModel { pre_link_args: appended(base.pre_link_args, flavor, args), ..base },
            ov,
        ),
    }
}

/// A descriptor whose capability pointer width is not the one its layout
/// declares for the capability address space is rejected.
pub proof fn lemma_width_mismatch_rejected(t: TargetModel, w: u64)
    requires
        t.options.pointer_type_width == Some(w),
        declared_width(t.data_layout) != Some(w),
    ensures
        check_result(t) is Err,
        t.llvm_target.len() > 0 && t.arch.len() > 0 ==> check_result(t) == Err::<(), ErrorModel>(
            ErrorModel::CapabilityWidthMismatch {
                given: w,
                pointer_width: t.pointer_width,
                declared: declared_width(t.data_layout),
            },
        ),
{
}

/// A descriptor whose features both enable and disable one feature is rejected.
pub proof fn lemma_feature_conflict_rejected(t: TargetModel)
    requires
        has_feature_conflict(encode_utf8(t.options.features)),
    ensures
        check_result(t) is Err,
{
}

/// What building from a definition gives: the first conflicting override,
/// else the assembled descriptor or the first check that it fails.
pub open spec fn built(
    family: PlatformFamily,
    data_layout: Seq<char>,
    llvm_target: Seq<char>,
    pointer_width: u32,
    arch: Seq<char>,
    flavor: LinkerFlavor,
    args: ArgsModel,
    overrides: Seq<OverrideValue>,
) -> Result<TargetModel, ErrorModel> {
    match first_conflict(overrides) {
        Some(c) => Err(conflict_error(c)),
        None => {
            let t = assembled(
                family,
                data_layout,
                llvm_target,
                pointer_width,
                arch,
                flavor,
                args,
                collected(overrides),
            );
            match check_result(t) {
                Ok(_) => Ok(t),
                Err(e) => Err(e),
            }
        },
    }
}

/// The model of a build's result.
pub open spec fn outcome(r: Result<Target, TargetError>) -> Result<TargetModel, ErrorModel> {
    match r {
        Ok(d) => Ok(d@),
        Err(e) => Err(e@),
    }
}

/// Building twice from the same definition gives field-by-field equal
/// descriptors, or the same error.
pub proof fn lemma_build_deterministic(
    family: PlatformFamily,
    data_layout: Seq<char>,
    llvm_target: Seq<char>,
    pointer_width: u32,
    arch: Seq<char>,
    flavor: LinkerFlavor,
    args: ArgsModel,
    overrides: Seq<OverrideValue>,
    first: Result<Target, TargetError>,
    second: Result<Target, TargetError>,
)
    requires
        outcome(first) == built(
            family,
            data_layout,
            llvm_target,
            pointer_width,
            arch,
            flavor,
            args,
            overrides,
        ),
        outcome(second) == built(
            family,
            data_layout,
            llvm_target,
            pointer_width,
            arch,
            flavor,
            args,
            overrides,
        ),
    ensures
        outcome(first) == outcome(second),
        first is Ok <==> second is Ok,
{
}

impl Target {
    /// Checks the descriptor: both names are set, the capability width agrees
    /// with the layout, and no feature is both enabled and disabled.
    pub fn validate(&self) -> (r: Result<(), TargetError>)
        ensures
            check_outcome(r) == check_result(self@),
    {
        if self.llvm_target.as_str().is_empty() {
            return Err(TargetError::EmptyLlvmTarget);
        }
        if self.arch.as_str().is_empty() {
            return Err(TargetError::EmptyArch);
        }
        if let Some(w) = self.options.pointer_type_width {
            let declared = capability_pointer_width(self.data_layout.as_str());
            let consistent = w >= self.pointer_width as u64 && match declared {
                Some(v) => v == w,
                None => false,
            };
            if !consistent {
                return Err(
                    TargetError::CapabilityWidthMismatch {
                        given: w,
                        pointer_width: self.pointer_width,
                        declared,
                    },
                );
            }
        }
        if conflicting_features(self.options.features.as_str()) {
            return Err(TargetError::ConflictingFeature);
        }
        Ok(())
    }
}

/// Builds a descriptor from a family's base options, pre-link arguments for
/// one flavor and a list of overrides, then checks it. Conflicting overrides
/// are reported before any other check runs.
pub fn build_target(
    family: PlatformFamily,
    data_layout: &str,
    llvm_target: &str,
    pointer_width: u32,
    arch: &str,
    flavor: LinkerFlavor,
    pre_link_args: &[&str],
    overrides: &Vec<Override>,
) -> (r: Result<Target, TargetError>)
    ensures
        outcome(r) == built(
            family,
            data_layout@,
            llvm_target@,
            pointer_width,
            arch@,
            flavor,
            strs_view(pre_link_args@),
            overrides_view(overrides@),
        ),
        r matches Ok(d) ==> d.options.wf(),
{
    let ov = match TargetOverrides::from_list(overrides) {
        Ok(o) => o,
        Err(e) => {
            return Err(e);
        },
    };
    let mut base = base_options(family);
    base.add_pre_link_args(flavor, pre_link_args);
    let options = apply_overrides(base, &ov);
    let t = Target {
        data_layout: data_layout.to_owned(),
        llvm_target: llvm_target.to_owned(),
        pointer_width,
        arch: arch.to_owned(),
        options,
    };
    match t.validate() {
        Ok(()) => Ok(t),
        Err(e) => Err(e),
    }
}

/// The corrections that the riscv64 CHERI FreeBSD target makes to the
/// FreeBSD base options.
pub open spec fn cheri_overrides() -> Seq<OverrideValue> {
    seq![
        OverrideValue::PointerTypeWidth(128),
        OverrideValue::Linker("lld"@),
        OverrideValue::LlvmAbiname("l64pc128d"@),
        OverrideValue::Features("+m,+a,+f,+d,+c,+xcheri,-relax"@),
    ]
}

/// The riscv64 FreeBSD target whose pointers to address space 200 are
/// 128-bit capabilities, built and checked like any other definition.
pub fn target() -> (r: Result<Target, TargetError>)
    ensures
        outcome(r) == built(
            PlatformFamily::FreeBsd,
            "e-m:e-pf200:128:128:128:64-i64:64-i128:128-n64-S128-A200-P200-G200"@,
            "riscv64-unknown-freebsd15"@,
            64,
            "riscv64"@,
            LinkerFlavor::Gnu(Cc::Yes, Lld::No),
            seq!["-march=rv64imafdcxcheri"@, "-mabi=l64pc128d"@, "-mno-relax"@],
            cheri_overrides(),
        ),
        r matches Ok(d) ==> d.options.wf(),
{
    let args: [&str; 3] = ["-march=rv64imafdcxcheri", "-mabi=l64pc128d", "-mno-relax"];
    assert(strs_view(args@) =~= seq![
        "-march=rv64imafdcxcheri"@,
        "-mabi=l64pc128d"@,
        "-mno-relax"@,
    ]);
    let overrides: Vec<Override> = vec![
        Override::PointerTypeWidth(128),
        Override::Linker("lld".to_owned()),
        Override::LlvmAbiname("l64pc128d".to_owned()),
        Override::Features("+m,+a,+f,+d,+c,+xcheri,-relax".to_owned()),
    ];
    assert(overrides_view(overrides@) =~= cheri_overrides());
    build_target(
        PlatformFamily::FreeBsd,
        "e-m:e-pf200:128:128:128:64-i64:64-i128:128-n64-S128-A200-P200-G200",
        "riscv64-unknown-freebsd15",
        64,
        "riscv64",
        LinkerFlavor::Gnu(Cc::Yes, Lld::No),
        &args,
        &overrides,
    )
}

} // verus!
