//! The option set embedded in a target descriptor, and the append-only
//! accumulation of pre-link arguments per linker flavor.
use vstd::prelude::*;

verus! {

/// Whether a GNU-style linker is driven through a C compiler.
#[derive(Clone, Copy, Debug, PartialEq, Eq, Structural)]
pub enum Cc {
    Yes,
    No,
}

/// Whether the linker is LLD.
#[derive(Clone, Copy, Debug, PartialEq, Eq, Structural)]
pub enum Lld {
    Yes,
    No,
}

/// The linker front-ends known to the backend, with their invocation dialect.
#[derive(Clone, Copy, Debug, PartialEq, Eq, Structural)]
pub enum LinkerFlavor {
    Gnu(Cc, Lld),
    Darwin(Cc, Lld),
    WasmLld(Cc),
    Unix(Cc),
    Msvc(Lld),
    EmCc,
    Bpf,
    Ptx,
}

/// How generated code may be relocated.
#[derive(Clone, Copy, Debug, PartialEq, Eq, Structural)]
pub enum RelocModel {
    Static,
    Pic,
    Pie,
    DynamicNoPic,
}

/// What a panic does at run time.
#[derive(Clone, Copy, Debug, PartialEq, Eq, Structural)]
pub enum PanicStrategy {
    Unwind,
    Abort,
}

/// One flavor's pre-link arguments, in the order they are passed.
pub type LinkArgsEntry = (LinkerFlavor, Vec<String>);

/// The secondary, overridable properties of a target.
pub struct TargetOptions {
    pub linker_flavor: LinkerFlavor,
    pub pre_link_args: Vec<LinkArgsEntry>,
    pub pointer_type_width: Option<u64>,
    pub llvm_abiname: String,
    pub features: String,
    pub linker: Option<String>,
    pub relocation_model: RelocModel,
    pub panic_strategy: PanicStrategy,
    pub function_sections: bool,
    pub dynamic_linking: bool,
    pub executables: bool,
}

/// Mathematical model of a list of arguments.
pub type ArgsModel = Seq<Seq<char>>;

/// Mathematical model of the pre-link arguments: flavors in insertion order.
pub type LinkArgsModel = Seq<(LinkerFlavor, ArgsModel)>;

/// Mathematical model of [`TargetOptions`].
pub struct OptionsModel {
    pub linker_flavor: LinkerFlavor,
    pub pre_link_args: LinkArgsModel,
    pub pointer_type_width: Option<u64>,
    pub llvm_abiname: Seq<char>,
    pub features: Seq<char>,
    pub linker: Option<Seq<char>>,
    pub relocation_model: RelocModel,
    pub panic_strategy: PanicStrategy,
    pub function_sections: bool,
    pub dynamic_linking: bool,
    pub executables: bool,
}

pub open spec fn args_view(v: Seq<String>) -> ArgsModel {
    v.map_values(|s: String| s@)
}

pub open spec fn strs_view(v: Seq<&str>) -> ArgsModel {
    v.map_values(|s: &str| s@)
}

pub open spec fn entries_view(v: Seq<LinkArgsEntry>) -> LinkArgsModel {
    v.map_values(|e: LinkArgsEntry| (e.0, args_view(e.1@)))
}

pub open spec fn opt_string_view(o: Option<String>) -> Option<Seq<char>> {
    match o {
        Some(s) => Some(s@),
        None => None,
    }
}

impl View for TargetOptions {
    type V = OptionsModel;

    open spec fn view(&self) -> OptionsModel {
        OptionsModel {
            linker_flavor: self.linker_flavor,
            pre_link_args: entries_view(self.pre_link_args@),
            pointer_type_width: self.pointer_type_width,
            llvm_abiname: self.llvm_abiname@,
            features: self.features@,
            linker: opt_string_view(self.linker),
            relocation_model: self.relocation_model,
            panic_strategy: self.panic_strategy,
            function_sections: self.function_sections,
            dynamic_linking: self.dynamic_linking,
            executables: self.executables,
        }
    }
}

/// Position of the first entry for `f` at or after `i`, or -1 when there is none.
pub open spec fn flavor_index_from(m: LinkArgsModel, f: LinkerFlavor, i: int) -> int
    decreases m.len() - i,
{
    if i < 0 || i >= m.len() {
        -1
    } else if m[i].0 == f {
        i
    } else {
        flavor_index_from(m, f, i + 1)
    }
}

/// Position of the entry for `f`, or -1 when `f` has none.
pub open spec fn flavor_index(m: LinkArgsModel, f: LinkerFlavor) -> int {
    flavor_index_from(m, f, 0)
}

/// The arguments recorded for `f` (empty when there are none).
pub open spec fn args_for(m: LinkArgsModel, f: LinkerFlavor) -> ArgsModel {
    let i = flavor_index(m, f);
    if i == -1 {
        Seq::empty()
    } else {
        m[i].1
    }
}

/// Each flavor has at most one entry.
pub open spec fn unique_flavors(m: LinkArgsModel) -> bool {
    forall|i: int, j: int| 0 <= i < j < m.len() ==> m[i].0 != m[j].0
}

/// `args` appended after those already recorded for `f`; a new entry at the
/// end when `f` has none.
pub open spec fn appended(m: LinkArgsModel, f: LinkerFlavor, args: ArgsModel) -> LinkArgsModel {
    let i = flavor_index(m, f);
    if i == -1 {
        m.push((f, args))
    } else {
        m.update(i, (f, m[i].1 + args))
    }
}

proof fn lemma_index_from_bounds(m: LinkArgsModel, f: LinkerFlavor, i: int)
    ensures
        flavor_index_from(m, f, i) == -1 || (i <= flavor_index_from(m, f, i) < m.len()
            && m[flavor_index_from(m, f, i)].0 == f
            && forall|k: int| i <= k < flavor_index_from(m, f, i) ==> m[k].0 != f),
        flavor_index_from(m, f, i) == -1 && 0 <= i ==> forall|k: int| i <= k < m.len() ==> m[k].0 != f,
    decreases m.len() - i,
{
    if 0 <= i < m.len() && m[i].0 != f {
        lemma_index_from_bounds(m, f, i + 1);
    }
}

/// The index of `f` depends on the keys alone.
proof fn lemma_index_same_keys(m1: LinkArgsModel, m2: LinkArgsModel, f: LinkerFlavor, i: int)
    requires
        m1.len() == m2.len(),
        forall|k: int| 0 <= k < m1.len() ==> m1[k].0 == m2[k].0,
    ensures
        flavor_index_from(m1, f, i) == flavor_index_from(m2, f, i),
    decreases m1.len() - i,
{
    if 0 <= i < m1.len() && m1[i].0 != f {
        lemma_index_same_keys(m1, m2, f, i + 1);
    }
}

/// A new entry for an absent flavor is found at the end.
proof fn lemma_index_push(m: LinkArgsModel, f: LinkerFlavor, e: (LinkerFlavor, ArgsModel), i: int)
    requires
        flavor_index_from(m, f, i) == -1,
        0 <= i <= m.len(),
        e.0 == f,
    ensures
        flavor_index_from(m.push(e), f, i) == m.len(),
    decreases m.len() - i,
{
    if i < m.len() {
        lemma_index_push(m, f, e, i + 1);
    }
}

/// Appending in two calls gives what one call with both lists gives.
pub proof fn lemma_append_twice(m: LinkArgsModel, f: LinkerFlavor, xs: ArgsModel, ys: ArgsModel)
    ensures
        appended(appended(m, f, xs), f, ys) == appended(m, f, xs + ys),
{
    let m1 = appended(m, f, xs);
    let i = flavor_index(m, f);
    lemma_index_from_bounds(m, f, 0);
    if i == -1 {
        lemma_index_push(m, f, (f, xs), 0);
        assert(m1.update(m.len() as int, (f, m1[m.len() as int].1 + ys)) =~= m.push((f, xs + ys)));
    } else {
        lemma_index_same_keys(m1, m, f, 0);
        assert(m1[i].1 + ys =~= m[i].1 + (xs + ys));
        assert(m1.update(i, (f, m1[i].1 + ys)) =~= m.update(i, (f, m[i].1 + (xs + ys))));
    }
}

/// Appending keeps each flavor to at most one entry.
pub proof fn lemma_append_keeps_unique(m: LinkArgsModel, f: LinkerFlavor, args: ArgsModel)
    requires
        unique_flavors(m),
    ensures
        unique_flavors(appended(m, f, args)),
{
    lemma_index_from_bounds(m, f, 0);
}

/// After an append, the flavor's arguments are the old ones followed by the new.
pub proof fn lemma_args_for_appended(m: LinkArgsModel, f: LinkerFlavor, args: ArgsModel)
    ensures
        args_for(appended(m, f, args), f) == args_for(m, f) + args,
{
    lemma_index_from_bounds(m, f, 0);
    if flavor_index(m, f) == -1 {
        lemma_index_push(m, f, (f, args), 0);
        assert(Seq::<Seq<char>>::empty() + args =~= args);
    } else {
        lemma_index_same_keys(appended(m, f, args), m, f, 0);
    }
}

/// Appends copies of `more` to `list`, keeping their order.
fn extend_args(list: &mut Vec<String>, more: &Vec<String>)
    ensures
        args_view(final(list)@) == args_view(old(list)@) + args_view(more@),
{
    let ghost before = list@;
    let mut k: usize = 0;
    while k < more.len()
        invariant
            k <= more@.len(),
            list@ =~= before + more@.subrange(0, k as int),
        decreases more@.len() - k,
    {
        let a = more[k].clone();
        list.push(a);
        k = k + 1;
        assert(list@ =~= before + more@.subrange(0, k as int));
    }
    assert(more@.subrange(0, k as int) =~= more@);
    assert(args_view(list@) =~= args_view(before) + args_view(more@));
}

impl TargetOptions {
    pub open spec fn wf(&self) -> bool {
        unique_flavors(self@.pre_link_args)
    }

    /// Appends `args`, in order, to the pre-link arguments of `flavor`.
    pub fn add_pre_link_args(&mut self, flavor: LinkerFlavor, args: &[&str])
        requires
            old(self).wf(),
        ensures
            final(self).wf(),
            final(self)@ == (OptionsModel {
                pre_link_args: appended(old(self)@.pre_link_args, flavor, strs_view(args@)),
                ..old(self)@
            }),
    {
        let mut new_args: Vec<String> = Vec::new();
        let mut k: usize = 0;
        while k < args.len()
            invariant
                k <= args@.len(),
                new_args@.len() == k,
                args_view(new_args@) =~= strs_view(args@.subrange(0, k as int)),
            decreases args@.len() - k,
        {
            let a: String = args[k].to_owned();
            assert(a@ == args@[k as int]@);
            let ghost prev = new_args@;
            new_args.push(a);
            k = k + 1;
            assert forall|j: int| 0 <= j < k implies #[trigger] args_view(new_args@)[j] == strs_view(
                args@.subrange(0, k as int),
            )[j] by {
                if j < k - 1 {
                    assert(new_args@[j] == prev[j]);
                    assert(args_view(prev)[j] == strs_view(args@.subrange(0, k - 1))[j]);
                }
            }
            assert(args_view(new_args@) =~= strs_view(args@.subrange(0, k as int)));
        }
        assert(args@.subrange(0, k as int) =~= args@);
        let ghost m = old(self)@.pre_link_args;
        proof {
            lemma_index_from_bounds(m, flavor, 0);
            lemma_append_keeps_unique(m, flavor, strs_view(args@));
        }
        let mut i: usize = 0;
        while i < self.pre_link_args.len()
            invariant
                i <= self.pre_link_args@.len(),
                *self == *old(self),
                flavor_index_from(m, flavor, i as int) == flavor_index(m, flavor),
                m == entries_view(self.pre_link_args@),
                args_view(new_args@) == strs_view(args@),
                unique_flavors(appended(m, flavor, strs_view(args@))),
            decreases self.pre_link_args@.len() - i,
        {
            if self.pre_link_args[i].0 == flavor {
                let (f, mut list) = self.pre_link_args.remove(i);
                let ghost before = list@;
                assert(before == old(self).pre_link_args@[i as int].1@);
                assert(m[i as int].1 == args_view(before));
                extend_args(&mut list, &new_args);
                self.pre_link_args.insert(i, (f, list));
                assert(self.pre_link_args@ =~= old(self).pre_link_args@.update(i as int, (f, list)));
                assert(m[i as int].0 == flavor);
                assert(flavor_index(m, flavor) == i);
                assert(args_view(list@) =~= m[i as int].1 + strs_view(args@));
                assert(entries_view(self.pre_link_args@) =~= appended(m, flavor, strs_view(args@)));
                return;
            }
            i = i + 1;
        }
        self.pre_link_args.push((flavor, new_args));
        assert(entries_view(self.pre_link_args@) =~= appended(m, flavor, strs_view(args@)));
    }
}

} // verus!
