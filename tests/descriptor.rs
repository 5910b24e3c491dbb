use target_spec::error::{OverrideField, TargetError};
use target_spec::options::{Cc, LinkerFlavor, Lld, RelocModel, TargetOptions};
use target_spec::overrides::{Override, TargetOverrides};
use target_spec::target::{base_options, build_target, target, PlatformFamily, Target};

const CHERI_LAYOUT: &str = "e-m:e-pf200:128:128:128:64-i64:64-i128:128-n64-S128-A200-P200-G200";
const GNU_CC: LinkerFlavor = LinkerFlavor::Gnu(Cc::Yes, Lld::No);

fn args_of(o: &TargetOptions, f: LinkerFlavor) -> Vec<String> {
    for (flavor, args) in &o.pre_link_args {
        if *flavor == f {
            return args.clone();
        }
    }
    Vec::new()
}

fn same_options(a: &TargetOptions, b: &TargetOptions) -> bool {
    a.linker_flavor == b.linker_flavor
        && a.pre_link_args == b.pre_link_args
        && a.pointer_type_width == b.pointer_type_width
        && a.llvm_abiname == b.llvm_abiname
        && a.features == b.features
        && a.linker == b.linker
        && a.relocation_model == b.relocation_model
        && a.panic_strategy == b.panic_strategy
        && a.function_sections == b.function_sections
        && a.dynamic_linking == b.dynamic_linking
        && a.executables == b.executables
}

fn same_target(a: &Target, b: &Target) -> bool {
    a.data_layout == b.data_layout
        && a.llvm_target == b.llvm_target
        && a.pointer_width == b.pointer_width
        && a.arch == b.arch
        && same_options(&a.options, &b.options)
}

fn scenario_overrides() -> Vec<Override> {
    vec![
        Override::PointerTypeWidth(128),
        Override::Features("+m,+a,-relax".to_string()),
        Override::LlvmAbiname("l64pc128d".to_string()),
    ]
}

#[test]
fn riscv_cheri_freebsd_target() {
    let t = target().unwrap();
    assert_eq!(t.data_layout, CHERI_LAYOUT);
    assert_eq!(t.llvm_target, "riscv64-unknown-freebsd15");
    assert_eq!(t.pointer_width, 64);
    assert_eq!(t.arch, "riscv64");
    assert_eq!(t.options.pointer_type_width, Some(128));
    assert_eq!(t.options.linker, Some("lld".to_string()));
    assert_eq!(t.options.llvm_abiname, "l64pc128d");
    assert_eq!(t.options.features, "+m,+a,+f,+d,+c,+xcheri,-relax");
    assert_eq!(
        args_of(&t.options, GNU_CC),
        vec!["-march=rv64imafdcxcheri", "-mabi=l64pc128d", "-mno-relax"]
    );
    assert_eq!(t.options.linker_flavor, GNU_CC);
    assert_eq!(t.options.relocation_model, RelocModel::Pic);
    assert_eq!(t.validate(), Ok(()));
}

#[test]
fn riscv_cheri_target_matches_a_checked_build() {
    let overrides = vec![
        Override::PointerTypeWidth(128),
        Override::Linker("lld".to_string()),
        Override::LlvmAbiname("l64pc128d".to_string()),
        Override::Features("+m,+a,+f,+d,+c,+xcheri,-relax".to_string()),
    ];
    let built = build_target(
        PlatformFamily::FreeBsd,
        CHERI_LAYOUT,
        "riscv64-unknown-freebsd15",
        64,
        "riscv64",
        GNU_CC,
        &["-march=rv64imafdcxcheri", "-mabi=l64pc128d", "-mno-relax"],
        &overrides,
    )
    .unwrap();
    assert!(same_target(&built, &target().unwrap()));
}

#[test]
fn generic_bsd_scenario() {
    let t = build_target(
        PlatformFamily::GenericBsd,
        CHERI_LAYOUT,
        "riscv64-unknown-freebsd15",
        64,
        "riscv64",
        GNU_CC,
        &["-march=foo", "-mabi=bar"],
        &scenario_overrides(),
    )
    .unwrap();
    let base = base_options(PlatformFamily::GenericBsd);
    assert_eq!(t.options.pointer_type_width, Some(128));
    assert_eq!(t.options.features, "+m,+a,-relax");
    assert_eq!(t.options.llvm_abiname, "l64pc128d");
    assert_eq!(args_of(&t.options, GNU_CC), vec!["-march=foo", "-mabi=bar"]);
    assert_eq!(t.options.pre_link_args.len(), 1);
    assert_eq!(t.options.linker_flavor, base.linker_flavor);
    assert_eq!(t.options.linker, base.linker);
    assert_eq!(t.options.relocation_model, base.relocation_model);
    assert_eq!(t.options.panic_strategy, base.panic_strategy);
    assert_eq!(t.options.function_sections, base.function_sections);
    assert_eq!(t.options.dynamic_linking, base.dynamic_linking);
    assert_eq!(t.options.executables, base.executables);
}

#[test]
fn capability_width_mismatch_is_rejected() {
    let r = build_target(
        PlatformFamily::GenericBsd,
        CHERI_LAYOUT,
        "riscv64-unknown-freebsd15",
        64,
        "riscv64",
        GNU_CC,
        &[],
        &vec![Override::PointerTypeWidth(64)],
    );
    assert_eq!(
        r.err(),
        Some(TargetError::CapabilityWidthMismatch { given: 64, pointer_width: 64, declared: Some(128) })
    );
}

#[test]
fn capability_width_narrower_than_address_is_rejected() {
    let r = build_target(
        PlatformFamily::GenericBsd,
        "e-pf200:32:32-A200",
        "riscv64-unknown-freebsd15",
        64,
        "riscv64",
        GNU_CC,
        &[],
        &vec![Override::PointerTypeWidth(32)],
    );
    assert_eq!(
        r.err(),
        Some(TargetError::CapabilityWidthMismatch { given: 32, pointer_width: 64, declared: Some(32) })
    );
}

#[test]
fn capability_width_without_layout_clause_is_rejected() {
    let r = build_target(
        PlatformFamily::FreeBsd,
        "e-m:e-i64:64-A200",
        "riscv64-unknown-freebsd15",
        64,
        "riscv64",
        GNU_CC,
        &[],
        &vec![Override::PointerTypeWidth(128)],
    );
    assert_eq!(
        r.err(),
        Some(TargetError::CapabilityWidthMismatch { given: 128, pointer_width: 64, declared: None })
    );
}

#[test]
fn conflicting_linker_overrides_are_rejected_first() {
    let overrides = vec![
        Override::Linker("lld".to_string()),
        Override::PointerTypeWidth(64),
        Override::Linker("ld.bfd".to_string()),
    ];
    let r = build_target(
        PlatformFamily::GenericBsd,
        CHERI_LAYOUT,
        "",
        64,
        "",
        GNU_CC,
        &[],
        &overrides,
    );
    assert_eq!(
        r.err(),
        Some(TargetError::ConflictingOverride {
            field: OverrideField::Linker,
            first: Override::Linker("lld".to_string()),
            second: Override::Linker("ld.bfd".to_string()),
        })
    );
}

#[test]
fn repeated_equal_override_is_accepted() {
    let list = vec![
        Override::Linker("lld".to_string()),
        Override::Linker("lld".to_string()),
    ];
    let ov = TargetOverrides::from_list(&list).unwrap();
    assert_eq!(ov.linker, Some("lld".to_string()));
    assert_eq!(ov.features, None);
}

#[test]
fn first_conflicting_field_is_reported() {
    let list = vec![
        Override::Features("+a".to_string()),
        Override::LinkerFlavor(GNU_CC),
        Override::LinkerFlavor(LinkerFlavor::Msvc(Lld::Yes)),
        Override::Features("+b".to_string()),
    ];
    assert_eq!(
        TargetOverrides::from_list(&list).err(),
        Some(TargetError::ConflictingOverride {
            field: OverrideField::LinkerFlavor,
            first: Override::LinkerFlavor(GNU_CC),
            second: Override::LinkerFlavor(LinkerFlavor::Msvc(Lld::Yes)),
        })
    );
}

#[test]
fn enabled_and_disabled_feature_is_rejected() {
    let r = build_target(
        PlatformFamily::FreeBsd,
        CHERI_LAYOUT,
        "riscv64-unknown-freebsd15",
        64,
        "riscv64",
        GNU_CC,
        &[],
        &vec![Override::Features("+m,+relax,+a,-relax".to_string())],
    );
    assert_eq!(r.err(), Some(TargetError::ConflictingFeature));
}

#[test]
fn empty_names_are_rejected() {
    let none: Vec<Override> = Vec::new();
    let r = build_target(PlatformFamily::FreeBsd, CHERI_LAYOUT, "", 64, "riscv64", GNU_CC, &[], &none);
    assert_eq!(r.err(), Some(TargetError::EmptyLlvmTarget));
    let r = build_target(PlatformFamily::FreeBsd, CHERI_LAYOUT, "riscv64", 64, "", GNU_CC, &[], &none);
    assert_eq!(r.err(), Some(TargetError::EmptyArch));
}

#[test]
fn rebuild_is_identical() {
    let build = || {
        build_target(
            PlatformFamily::GenericBsd,
            CHERI_LAYOUT,
            "riscv64-unknown-freebsd15",
            64,
            "riscv64",
            GNU_CC,
            &["-march=foo", "-mabi=bar"],
            &scenario_overrides(),
        )
        .unwrap()
    };
    assert!(same_target(&build(), &build()));
}

#[test]
fn family_names() {
    assert_eq!(PlatformFamily::from_name("freebsd"), Ok(PlatformFamily::FreeBsd));
    assert_eq!(PlatformFamily::from_name("generic-bsd"), Ok(PlatformFamily::GenericBsd));
    assert_eq!(PlatformFamily::from_name("plan9"), Err(TargetError::UnknownFamily));
    assert_eq!(PlatformFamily::from_name(""), Err(TargetError::UnknownFamily));
}
