use target_spec::features::conflicting_features;
use target_spec::layout::capability_pointer_width;
use target_spec::options::{Cc, LinkerFlavor, Lld};
use target_spec::overrides::{apply_overrides, TargetOverrides};
use target_spec::target::{base_options, PlatformFamily};

const GNU_CC: LinkerFlavor = LinkerFlavor::Gnu(Cc::Yes, Lld::No);

fn sparse() -> TargetOverrides {
    TargetOverrides {
        pointer_type_width: None,
        llvm_abiname: None,
        features: None,
        linker: None,
        linker_flavor: None,
    }
}

#[test]
fn append_in_two_calls_equals_one_call() {
    let mut a = base_options(PlatformFamily::FreeBsd);
    a.add_pre_link_args(GNU_CC, &["x", "y"]);
    a.add_pre_link_args(GNU_CC, &["z"]);
    let mut b = base_options(PlatformFamily::FreeBsd);
    b.add_pre_link_args(GNU_CC, &["x", "y", "z"]);
    assert_eq!(a.pre_link_args, b.pre_link_args);
    assert_eq!(a.pre_link_args, vec![(GNU_CC, vec!["x".to_string(), "y".to_string(), "z".to_string()])]);
}

#[test]
fn append_keeps_flavors_apart_and_duplicates() {
    let msvc = LinkerFlavor::Msvc(Lld::Yes);
    let mut o = base_options(PlatformFamily::GenericBsd);
    o.add_pre_link_args(GNU_CC, &["-a"]);
    o.add_pre_link_args(msvc, &["/b"]);
    o.add_pre_link_args(GNU_CC, &["-a", "-c"]);
    o.add_pre_link_args(msvc, &[]);
    assert_eq!(
        o.pre_link_args,
        vec![
            (GNU_CC, vec!["-a".to_string(), "-a".to_string(), "-c".to_string()]),
            (msvc, vec!["/b".to_string()]),
        ]
    );
}

#[test]
fn disjoint_overrides_commute() {
    let mut a = sparse();
    a.linker = Some("lld".to_string());
    a.pointer_type_width = Some(128);
    let mut b = sparse();
    b.features = Some("+m".to_string());
    b.llvm_abiname = Some("lp64d".to_string());
    let ab = apply_overrides(apply_overrides(base_options(PlatformFamily::FreeBsd), &a), &b);
    let ba = apply_overrides(apply_overrides(base_options(PlatformFamily::FreeBsd), &b), &a);
    assert_eq!(ab.linker, ba.linker);
    assert_eq!(ab.pointer_type_width, ba.pointer_type_width);
    assert_eq!(ab.features, ba.features);
    assert_eq!(ab.llvm_abiname, ba.llvm_abiname);
    assert_eq!(ab.linker_flavor, ba.linker_flavor);
    assert_eq!(ab.features, "+m");
    assert_eq!(ab.linker, Some("lld".to_string()));
}

#[test]
fn unset_fields_keep_base_values() {
    let base = base_options(PlatformFamily::FreeBsd);
    let mut ov = sparse();
    ov.linker_flavor = Some(LinkerFlavor::Unix(Cc::No));
    let r = apply_overrides(base_options(PlatformFamily::FreeBsd), &ov);
    assert_eq!(r.linker_flavor, LinkerFlavor::Unix(Cc::No));
    assert_eq!(r.features, base.features);
    assert_eq!(r.llvm_abiname, base.llvm_abiname);
    assert_eq!(r.pointer_type_width, None);
}

#[test]
fn layout_capability_widths() {
    assert_eq!(
        capability_pointer_width("e-m:e-pf200:128:128:128:64-i64:64-i128:128-n64-S128-A200-P200-G200"),
        Some(128)
    );
    assert_eq!(capability_pointer_width("e-m:e-p:64:64-i64:64-i128:128-n64-S128"), Some(64));
    assert_eq!(capability_pointer_width("e-p270:32:32-p:64:64"), Some(64));
    assert_eq!(capability_pointer_width("e-p270:32:32-A270"), Some(32));
    assert_eq!(capability_pointer_width("e-i64:64-A200"), None);
    assert_eq!(capability_pointer_width(""), None);
    assert_eq!(capability_pointer_width("p:99999999999999999999999:64"), None);
    assert_eq!(capability_pointer_width("p:64:64-p:32:32"), Some(64));
}

#[test]
fn feature_conflicts() {
    assert!(conflicting_features("+a,-a"));
    assert!(conflicting_features("-relax,+m,+relax"));
    assert!(!conflicting_features("+ab,-a"));
    assert!(!conflicting_features("+m,+a,+f,+d,+c,+xcheri,-relax"));
    assert!(!conflicting_features(""));
    assert!(!conflicting_features("+a,+a"));
}
