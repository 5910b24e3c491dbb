//! Sparse, field-level overrides of an option set.
use vstd::prelude::*;
use crate::error::{OverrideField, TargetError, conflict_error};
use crate::options::{LinkerFlavor, OptionsModel, TargetOptions, opt_string_view};

verus! {

/// One explicitly supplied value for one field.
#[derive(Clone, Debug, PartialEq, Eq)]
pub enum Override {
    PointerTypeWidth(u64),
    LlvmAbiname(String),
    Features(String),
    Linker(String),
    LinkerFlavor(LinkerFlavor),
}

/// Mathematical model of [`Override`].
pub enum OverrideValue {
    PointerTypeWidth(u64),
    LlvmAbiname(Seq<char>),
    Features(Seq<char>),
    Linker(Seq<char>),
    LinkerFlavor(LinkerFlavor),
}

impl View for Override {
    type V = OverrideValue;

    open spec fn view(&self) -> OverrideValue {
        match self {
            Override::PointerTypeWidth(w) => OverrideValue::PointerTypeWidth(*w),
            Override::LlvmAbiname(s) => OverrideValue::LlvmAbiname(s@),
            Override::Features(s) => OverrideValue::Features(s@),
            Override::Linker(s) => OverrideValue::Linker(s@),
            Override::LinkerFlavor(f) => OverrideValue::LinkerFlavor(*f),
        }
    }
}

pub open spec fn overrides_view(s: Seq<Override>) -> Seq<OverrideValue> {
    s.map_values(|o: Override| o@)
}

/// The fields to replace; `None` keeps the base value.
pub struct TargetOverrides {
    pub pointer_type_width: Option<u64>,
    pub llvm_abiname: Option<String>,
    pub features: Option<String>,
    pub linker: Option<String>,
    pub linker_flavor: Option<LinkerFlavor>,
}

/// Mathematical model of [`TargetOverrides`].
pub struct OverridesModel {
    pub pointer_type_width: Option<u64>,
    pub llvm_abiname: Option<Seq<char>>,
    pub features: Option<Seq<char>>,
    pub linker: Option<Seq<char>>,
    pub linker_flavor: Option<LinkerFlavor>,
}

impl View for TargetOverrides {
    type V = OverridesModel;

    open spec fn view(&self) -> OverridesModel {
        OverridesModel {
            pointer_type_width: self.pointer_type_width,
            llvm_abiname: opt_string_view(self.llvm_abiname),
            features: opt_string_view(self.features),
            linker: opt_string_view(self.linker),
            linker_flavor: self.linker_flavor,
        }
    }
}

pub open spec fn field_of(o: OverrideValue) -> OverrideField {
    match o {
        OverrideValue::PointerTypeWidth(_) => OverrideField::PointerTypeWidth,
        OverrideValue::LlvmAbiname(_) => OverrideField::LlvmAbiname,
        OverrideValue::Features(_) => OverrideField::Features,
        OverrideValue::Linker(_) => OverrideField::Linker,
        OverrideValue::LinkerFlavor(_) => OverrideField::LinkerFlavor,
    }
}

/// Two overrides of the list set one field to different values.
pub open spec fn has_conflict(s: Seq<OverrideValue>) -> bool {
    exists|i: int, j: int|
        0 <= i < j < s.len() && field_of(#[trigger] s[i]) == field_of(#[trigger] s[j]) && s[i]
            != s[j]
}

/// The value that `m` holds for field `f`.
pub open spec fn value_in(m: OverridesModel, f: OverrideField) -> Option<OverrideValue> {
    match f {
        OverrideField::PointerTypeWidth => match m.pointer_type_width {
            Some(w) => Some(OverrideValue::PointerTypeWidth(w)),
            None => None,
        },
        OverrideField::LlvmAbiname => match m.llvm_abiname {
            Some(s) => Some(OverrideValue::LlvmAbiname(s)),
            None => None,
        },
        OverrideField::Features => match m.features {
            Some(s) => Some(OverrideValue::Features(s)),
            None => None,
        },
        OverrideField::Linker => match m.linker {
            Some(s) => Some(OverrideValue::Linker(s)),
            None => None,
        },
        OverrideField::LinkerFlavor => match m.linker_flavor {
            Some(l) => Some(OverrideValue::LinkerFlavor(l)),
            None => None,
        },
    }
}

/// The field `f` of `m` is not set.
pub open spec fn field_unset(m: OverridesModel, f: OverrideField) -> bool {
    value_in(m, f) is None
}

/// The field of `o` holds the value of `o` in `m`.
pub open spec fn holds(m: OverridesModel, o: OverrideValue) -> bool {
    value_in(m, field_of(o)) == Some(o)
}

/// The first override that sets an already set field to another value,
/// after the value that field held until then.
pub open spec fn first_conflict(s: Seq<OverrideValue>) -> Option<(OverrideValue, OverrideValue)>
    decreases s.len(),
{
    if s.len() == 0 {
        None
    } else if first_conflict(s.drop_last()) is Some {
        first_conflict(s.drop_last())
    } else if has_conflict(s) {
        Some((value_in(collected(s.drop_last()), field_of(s.last()))->Some_0, s.last()))
    } else {
        None
    }
}

/// A conflict is reported exactly where there is one.
pub proof fn lemma_first_conflict(s: Seq<OverrideValue>)
    ensures
        first_conflict(s) is Some <==> has_conflict(s),
    decreases s.len(),
{
    if s.len() > 0 {
        let p = s.drop_last();
        lemma_first_conflict(p);
        if has_conflict(p) {
            let (i, j) = choose|i: int, j: int|
                0 <= i < j < p.len() && field_of(#[trigger] p[i]) == field_of(#[trigger] p[j])
                    && p[i] != p[j];
            assert(s[i] == p[i] && s[j] == p[j]);
        }
    }
}

/// The record with no field set.
pub open spec fn no_overrides() -> OverridesModel {
    OverridesModel {
        pointer_type_width: None,
        llvm_abiname: None,
        features: None,
        linker: None,
        linker_flavor: None,
    }
}

/// `m` with the field of `o` set to its value.
pub open spec fn set_field(m: OverridesModel, o: OverrideValue) -> OverridesModel {
    match o {
        OverrideValue::PointerTypeWidth(w) => OverridesModel { pointer_type_width: Some(w), ..m },
        OverrideValue::LlvmAbiname(s) => OverridesModel { llvm_abiname: Some(s), ..m },
        OverrideValue::Features(s) => OverridesModel { features: Some(s), ..m },
        OverrideValue::Linker(s) => OverridesModel { linker: Some(s), ..m },
        OverrideValue::LinkerFlavor(f) => OverridesModel { linker_flavor: Some(f), ..m },
    }
}

/// The record that a list of overrides describes, later entries last.
pub open spec fn collected(s: Seq<OverrideValue>) -> OverridesModel
    decreases s.len(),
{
    if s.len() == 0 {
        no_overrides()
    } else {
        set_field(collected(s.drop_last()), s.last())
    }
}

/// The option set `base` with every field that `ov` sets replaced.
pub open spec fn applied(base: OptionsModel, ov: OverridesModel) -> OptionsModel {
    OptionsModel {
        pointer_type_width: match ov.pointer_type_width {
            Some(w) => Some(w),
            None => base.pointer_type_width,
        },
        llvm_abiname: match ov.llvm_abiname {
            Some(s) => s,
            None => base.llvm_abiname,
        },
        features: match ov.features {
            Some(s) => s,
            None => base.features,
        },
        linker: match ov.linker {
            Some(s) => Some(s),
            None => base.linker,
        },
        linker_flavor: match ov.linker_flavor {
            Some(f) => f,
            None => base.linker_flavor,
        },
        ..base
    }
}

/// No field is set in both records.
pub open spec fn disjoint(a: OverridesModel, b: OverridesModel) -> bool {
    &&& (a.pointer_type_width is None || b.pointer_type_width is None)
    &&& (a.llvm_abiname is None || b.llvm_abiname is None)
    &&& (a.features is None || b.features is None)
    &&& (a.linker is None || b.linker is None)
    &&& (a.linker_flavor is None || b.linker_flavor is None)
}

/// Overrides that touch disjoint fields can be applied in either order.
pub proof fn lemma_apply_commutes(base: OptionsModel, a: OverridesModel, b: OverridesModel)
    requires
        disjoint(a, b),
    ensures
        applied(applied(base, a), b) == applied(applied(base, b), a),
{
}

proof fn lemma_collected(s: Seq<OverrideValue>)
    ensures
        forall|j: int| 0 <= j < s.len() ==> !field_unset(collected(s), field_of(#[trigger] s[j])),
        forall|f: OverrideField|
            !field_unset(collected(s), f) ==> exists|j: int|
                0 <= j < s.len() && field_of(#[trigger] s[j]) == f && holds(collected(s), s[j]),
        !has_conflict(s) ==> forall|j: int| 0 <= j < s.len() ==> holds(collected(s), #[trigger] s[j]),
    decreases s.len(),
{
    if s.len() > 0 {
        let p = s.drop_last();
        lemma_collected(p);
        assert forall|j: int| 0 <= j < p.len() implies #[trigger] s[j] == p[j] by {}
        if !has_conflict(s) {
            assert(!has_conflict(p)) by {
                if has_conflict(p) {
                    let (i, j) = choose|i: int, j: int|
                        0 <= i < j < p.len() && field_of(#[trigger] p[i]) == field_of(
                            #[trigger] p[j],
                        ) && p[i] != p[j];
                    assert(s[i] == p[i] && s[j] == p[j]);
                }
            }
            assert forall|j: int| 0 <= j < s.len() implies holds(collected(s), #[trigger] s[j]) by {
                if j < p.len() && field_of(s[j]) == field_of(s.last()) {
                    assert(s[j] == s[s.len() - 1]);
                }
            }
        }
        assert forall|f: OverrideField| !field_unset(collected(s), f) implies exists|j: int|
            0 <= j < s.len() && field_of(#[trigger] s[j]) == f && holds(collected(s), s[j]) by {
            if f == field_of(s.last()) {
                assert(holds(collected(s), s[s.len() - 1]));
            } else {
                assert(!field_unset(collected(p), f));
                let j = choose|j: int|
                    0 <= j < p.len() && field_of(#[trigger] p[j]) == f && holds(collected(p), p[j]);
                assert(s[j] == p[j]);
            }
        }
    }
}

/// Once a prefix has a conflict, every longer list reports the same one.
proof fn lemma_first_conflict_prefix(s: Seq<OverrideValue>, n: int)
    requires
        0 < n <= s.len(),
        first_conflict(s.subrange(0, n)) is Some,
    ensures
        first_conflict(s) == first_conflict(s.subrange(0, n)),
    decreases s.len() - n,
{
    if n < s.len() {
        assert(s.subrange(0, n + 1).drop_last() =~= s.subrange(0, n));
        lemma_first_conflict_prefix(s, n + 1);
    } else {
        assert(s.subrange(0, n) =~= s);
    }
}

impl TargetOverrides {
    /// `o` sets a field that this record already holds with another value.
    pub fn conflicts_with(&self, o: &Override) -> (r: bool)
        ensures
            r == (!field_unset(self@, field_of(o@)) && !holds(self@, o@)),
    {
        match o {
            Override::PointerTypeWidth(w) => match self.pointer_type_width {
                Some(v) => v != *w,
                None => false,
            },
            Override::LlvmAbiname(s) => match &self.llvm_abiname {
                Some(v) => !(*v == *s),
                None => false,
            },
            Override::Features(s) => match &self.features {
                Some(v) => !(*v == *s),
                None => false,
            },
            Override::Linker(s) => match &self.linker {
                Some(v) => !(*v == *s),
                None => false,
            },
            Override::LinkerFlavor(f) => match self.linker_flavor {
                Some(v) => v != *f,
                None => false,
            },
        }
    }

    /// The override that this record holds for field `f`.
    pub fn held(&self, f: OverrideField) -> (r: Option<Override>)
        ensures
            r matches Some(o) ==> value_in(self@, f) == Some(o@),
            r is None ==> value_in(self@, f) is None,
    {
        match f {
            OverrideField::PointerTypeWidth => match self.pointer_type_width {
                Some(w) => Some(Override::PointerTypeWidth(w)),
                None => None,
            },
            OverrideField::LlvmAbiname => match &self.llvm_abiname {
                Some(s) => Some(Override::LlvmAbiname(s.clone())),
                None => None,
            },
            OverrideField::Features => match &self.features {
                Some(s) => Some(Override::Features(s.clone())),
                None => None,
            },
            OverrideField::Linker => match &self.linker {
                Some(s) => Some(Override::Linker(s.clone())),
                None => None,
            },
            OverrideField::LinkerFlavor => match self.linker_flavor {
                Some(l) => Some(Override::LinkerFlavor(l)),
                None => None,
            },
        }
    }

    /// Gathers a list of overrides into one record. Two overrides of the same
    /// field with different values are an error that names the field and both
    /// values; a repeated equal value is not an error.
    pub fn from_list(list: &Vec<Override>) -> (r: Result<TargetOverrides, TargetError>)
        ensures
            r is Err <==> has_conflict(overrides_view(list@)),
            r matches Ok(o) ==> o@ == collected(overrides_view(list@)) && first_conflict(
                overrides_view(list@),
            ) is None,
            r matches Err(e) ==> e@ == conflict_error(first_conflict(overrides_view(list@))->Some_0),
    {
        let ghost vs = overrides_view(list@);
        let mut acc = TargetOverrides {
            pointer_type_width: None,
            llvm_abiname: None,
            features: None,
            linker: None,
            linker_flavor: None,
        };
        let mut i: usize = 0;
        while i < list.len()
            invariant
                i <= list@.len(),
                vs == overrides_view(list@),
                acc@ == collected(vs.subrange(0, i as int)),
                !has_conflict(vs.subrange(0, i as int)),
                first_conflict(vs.subrange(0, i as int)) is None,
            decreases list@.len() - i,
        {
            let ghost p = vs.subrange(0, i as int);
            let ghost q = vs.subrange(0, i + 1);
            let ghost o = vs[i as int];
            proof {
                lemma_collected(p);
                assert(q.drop_last() =~= p);
                assert(o == list@[i as int]@);
            }
            if acc.conflicts_with(&list[i]) {
                let field = field_of_override(&list[i]);
                let first = acc.held(field).unwrap();
                proof {
                    let j = choose|j: int|
                        0 <= j < p.len() && field_of(#[trigger] p[j]) == field_of(o) && holds(
                            collected(p),
                            p[j],
                        );
                    assert(q[j] == p[j] && q[i as int] == o);
                    assert(has_conflict(q));
                    lemma_first_conflict_prefix(vs, i + 1);
                }
                return Err(
                    TargetError::ConflictingOverride { field, first, second: list[i].clone_value() },
                );
            }
            match &list[i] {
                Override::PointerTypeWidth(w) => acc.pointer_type_width = Some(*w),
                Override::LlvmAbiname(s) => acc.llvm_abiname = Some(s.clone()),
                Override::Features(s) => acc.features = Some(s.clone()),
                Override::Linker(s) => acc.linker = Some(s.clone()),
                Override::LinkerFlavor(f) => acc.linker_flavor = Some(*f),
            }
            proof {
                assert forall|a: int, b: int|
                    0 <= a < b < q.len() && field_of(#[trigger] q[a]) == field_of(
                        #[trigger] q[b],
                    ) implies q[a] == q[b] by {
                    if b < i {
                        assert(q[a] == p[a] && q[b] == p[b]);
                    } else {
                        assert(p[a] == q[a]);
                        assert(holds(collected(p), p[a]));
                    }
                }
                lemma_first_conflict(q);
            }
            i = i + 1;
        }
        assert(vs.subrange(0, i as int) =~= vs);
        Ok(acc)
    }
}

impl Override {
    /// A copy of this override.
    pub fn clone_value(&self) -> (r: Override)
        ensures
            r@ == self@,
    {
        match self {
            Override::PointerTypeWidth(w) => Override::PointerTypeWidth(*w),
            Override::LlvmAbiname(s) => Override::LlvmAbiname(s.clone()),
            Override::Features(s) => Override::Features(s.clone()),
            Override::Linker(s) => Override::Linker(s.clone()),
            Override::LinkerFlavor(f) => Override::LinkerFlavor(*f),
        }
    }
}

/// The field that an override sets.
pub fn field_of_override(o: &Override) -> (r: OverrideField)
    ensures
        r == field_of(o@),
{
    match o {
        Override::PointerTypeWidth(_) => OverrideField::PointerTypeWidth,
        Override::LlvmAbiname(_) => OverrideField::LlvmAbiname,
        Override::Features(_) => OverrideField::Features,
        Override::Linker(_) => OverrideField::Linker,
        Override::LinkerFlavor(_) => OverrideField::LinkerFlavor,
    }
}

fn clone_opt_string(o: &Option<String>) -> (r: Option<String>)
    ensures
        opt_string_view(r) == opt_string_view(*o),
{
    match o {
        Some(s) => Some(s.clone()),
        None => None,
    }
}

/// Replaces in `base` every field that `ov` sets; the others keep their value.
pub fn apply_overrides(base: TargetOptions, ov: &TargetOverrides) -> (r: TargetOptions)
    ensures
        r@ == applied(base@, ov@),
{
    let mut r = base;
    if let Some(w) = ov.pointer_type_width {
        r.pointer_type_width = Some(w);
    }
    if let Some(s) = &ov.llvm_abiname {
        r.llvm_abiname = s.clone();
    }
    if let Some(s) = &ov.features {
        r.features = s.clone();
    }
    if ov.linker.is_some() {
        r.linker = clone_opt_string(&ov.linker);
    }
    if let Some(f) = ov.linker_flavor {
        r.linker_flavor = f;
    }
    r
}

} // verus!
