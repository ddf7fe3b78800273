//! Application modules: the name under which a module's register function is
//! exported, how the loader reads such names back, and the order in which
//! the loader loads modules or skips them.

use vstd::prelude::*;
use convert_case::{Case, Casing};
use crate::attributes::{StrMap, sorted_keys};
use crate::strings::{
    lowercase, to_lower, subst, replace_chars, has_prefix, starts_with, occurs_at, contains_seq,
    find_seq, find_str, remove_all, remove_str, substring, str_seqs, list_contains,
    lemma_find_seq_at, lemma_replace_all_absent, seq_lt, lemma_seq_lt_irreflexive,
};

verus! {

/// What `convert_case` makes of a CamelCase name in snake_case.
pub uninterp spec fn snake_case(s: Seq<char>) -> Seq<char>;

/// Turns a CamelCase struct name into snake_case
/// (`convert_case`: `from_case(Case::Camel).to_case(Case::Snake)`).
#[verifier::external_body]
fn to_snake_case(s: &str) -> (res: String)
    ensures
        res@ == snake_case(s@),
{
    s.from_case(Case::Camel).to_case(Case::Snake)
}

/// The prefix of every exported register function.
pub open spec fn register_prefix() -> Seq<char> {
    "module_register_"@
}

/// What separates a module's name from the module it requires.
pub open spec fn wasm_marker() -> Seq<char> {
    "_wasm"@
}

/// The suffix naming a required module: `_` and the module's name in lower
/// case, with its quotes taken out; nothing when no module is required.
pub open spec fn required_suffix(required: Option<Seq<char>>) -> Seq<char> {
    match required {
        Some(r) => "_"@ + lowercase(subst(r, '"', '"', ""@)),
        None => seq![],
    }
}

/// An optional string taken by its characters.
pub open spec fn opt_chars(o: Option<&str>) -> Option<Seq<char>> {
    match o {
        Some(r) => Some(r@),
        None => None,
    }
}

/// The name a module is registered under: its struct's name in snake_case.
pub fn module_name(struct_name: &str) -> (res: String)
    ensures
        res@ == snake_case(struct_name@),
{
    to_snake_case(struct_name)
}

/// The suffix naming the module a module requires, as written in its
/// `required_module = "..."` attribute.
pub fn required_module_suffix(required: Option<&str>) -> (res: String)
    ensures
        res@ == required_suffix(opt_chars(required)),
{
    match required {
        Some(r) => {
            let unquoted = replace_chars(r, '"', '"', "");
            let lower = to_lower(unquoted.as_str());
            let mut res = "_".to_owned();
            res.append(lower.as_str());
            res
        },
        None => String::new(),
    }
}

/// The name of the function a module exports to register itself:
/// `module_register_`, the module's name, `_wasm`, and the required suffix.
pub open spec fn register_name(module: Seq<char>, suffix: Seq<char>) -> Seq<char> {
    register_prefix() + module + wasm_marker() + suffix
}

/// The name of the register function of the module with struct
/// `struct_name`, requiring the module named in `required`, if any.
pub fn register_fn_name(struct_name: &str, required: Option<&str>) -> (res: String)
    ensures
        res@ == register_name(
            snake_case(struct_name@),
            required_suffix(opt_chars(required)),
        ),
{
    let name = module_name(struct_name);
    let suffix = required_module_suffix(required);
    let mut res = "module_register_".to_owned();
    res.append(name.as_str());
    res.append("_wasm");
    res.append(suffix.as_str());
    res
}

/// An exported name read as a register function: the module's name and the
/// module it depends on, if any. The prefix is taken out wherever it occurs;
/// the name ends at the first `_wasm`; the dependency is what lies between
/// that and the next `_wasm`, without underscores, when anything is left.
pub open spec fn parsed_register_name(s: Seq<char>) -> Option<(Seq<char>, Option<Seq<char>>)> {
    if has_prefix(s, register_prefix()) {
        let clean = remove_all(s, register_prefix());
        let i = find_seq(clean, wasm_marker());
        let name = clean.take(i);
        if i >= clean.len() {
            Some((name, None))
        } else {
            let rest = clean.skip(i + wasm_marker().len());
            let d = subst(rest.take(find_seq(rest, wasm_marker())), '_', '_', ""@);
            Some((
                name,
                if d.len() == 0 {
                    None
                } else {
                    Some(d)
                },
            ))
        }
    } else {
        None
    }
}

/// Reads an exported name as a register function: the module's name and the
/// module it depends on; nothing for a name that is not one.
pub fn parse_register_name(s: &str) -> (res: Option<(String, Option<String>)>)
    ensures
        match res {
            None => parsed_register_name(s@) is None,
            Some((n, d)) => parsed_register_name(s@) == Some((
                n@,
                match d {
                    Some(x) => Some(x@),
                    None => None,
                },
            )),
        },
{
    proof {
        reveal_strlit("_wasm");
        reveal_strlit("module_register_");
    }
    if !starts_with(s, "module_register_") {
        return None;
    }
    let clean = remove_str(s, "module_register_");
    let c = clean.as_str();
    let n = c.unicode_len();
    let i = find_str(c, "_wasm");
    proof {
        crate::strings::lemma_find_seq(clean@, "_wasm"@);
    }
    let name = substring(c, 0, i);
    if i >= n {
        return Some((name, None));
    }
    let rest = substring(c, i + 5, n);
    let j = find_str(rest.as_str(), "_wasm");
    proof {
        crate::strings::lemma_find_seq(rest@, "_wasm"@);
    }
    let seg = substring(rest.as_str(), 0, j);
    let d = replace_chars(seg.as_str(), '_', '_', "");
    if d.as_str().unicode_len() == 0 {
        Some((name, None))
    } else {
        Some((name, Some(d)))
    }
}

/// The dependency a register function's suffix names: the suffix without
/// underscores, when anything is left.
pub open spec fn dependency_of(suffix: Seq<char>) -> Option<Seq<char>> {
    let d = subst(suffix, '_', '_', ""@);
    if d.len() == 0 {
        None
    } else {
        Some(d)
    }
}

/// The name a module's register function is exported under reads back as
/// that module, with the dependency its suffix names: the loader finds the
/// modules that registration declares. This holds when `_wasm` occurs in
/// neither the module's name nor the suffix, and the register prefix does
/// not occur after the one the name begins with.
pub proof fn lemma_register_name_parses_back(module: Seq<char>, suffix: Seq<char>)
    requires
        !contains_seq(module, wasm_marker()),
        !contains_seq(suffix, wasm_marker()),
        !contains_seq(module + wasm_marker() + suffix, register_prefix()),
    ensures
        parsed_register_name(register_name(module, suffix)) == Some((module, dependency_of(suffix))),
{
    reveal_strlit("_wasm");
    reveal_strlit("module_register_");
    let p = register_prefix();
    let w = wasm_marker();
    let t = module + w + suffix;
    let s = register_name(module, suffix);
    assert(s =~= p + t);
    assert(has_prefix(s, p)) by {
        assert(s.subrange(0, p.len() as int) =~= p);
    }
    assert(s.skip(p.len() as int) =~= t);
    lemma_replace_all_absent(t, p, seq![]);
    assert(remove_all(s, p) == t);
    let n = module.len() as int;
    assert(occurs_at(t, w, n)) by {
        assert(t.subrange(n, n + w.len()) =~= w);
    }
    assert forall|j: int| 0 <= j < n implies !#[trigger] occurs_at(t, w, j) by {
        if occurs_at(t, w, j) {
            if j + w.len() <= n {
                assert(module.subrange(j, j + w.len()) =~= t.subrange(j, j + w.len()));
                assert(occurs_at(module, w, j));
            } else {
                assert(t[n] == '_');
                assert(t.subrange(j, j + w.len())[n - j] == t[n]);
                assert(w[n - j] == '_');
            }
        }
    }
    lemma_find_seq_at(t, w, n);
    assert(t.take(n) =~= module);
    let rest = t.skip(n + w.len());
    assert(rest =~= suffix);
    assert forall|j: int| 0 <= j < suffix.len() implies !#[trigger] occurs_at(suffix, w, j) by {}
    lemma_find_seq_at(suffix, w, suffix.len() as int);
    assert(suffix.take(suffix.len() as int) =~= suffix);
}

/// A register function found among a package's exports: the position of
/// its name among them, and the module its module depends on, if any.
pub struct ModuleFn {
    pub export: usize,
    pub depends_on: Option<String>,
}

/// A register function with its strings taken by their characters.
pub struct ModuleFnView {
    pub export: nat,
    pub depends_on: Option<Seq<char>>,
}

impl View for ModuleFn {
    type V = ModuleFnView;

    open spec fn view(&self) -> ModuleFnView {
        ModuleFnView {
            export: self.export as nat,
            depends_on: match self.depends_on {
                Some(d) => Some(d@),
                None => None,
            },
        }
    }
}

/// The register functions of a module map, taken by their views.
pub open spec fn fn_views(m: Map<Seq<char>, ModuleFn>) -> Map<Seq<char>, ModuleFnView> {
    m.map_values(|f: ModuleFn| f@)
}

/// The modules found among a package's exports, by module name; of two
/// functions for one module, the later one counts.
pub open spec fn collected(exports: Seq<Seq<char>>) -> Map<Seq<char>, ModuleFnView>
    decreases exports.len(),
{
    if exports.len() == 0 {
        Map::empty()
    } else {
        let m = collected(exports.drop_last());
        match parsed_register_name(exports.last()) {
            Some((n, d)) => m.insert(n, ModuleFnView { export: (exports.len() - 1) as nat, depends_on: d }),
            None => m,
        }
    }
}

/// Collects the register functions among a package's exports, by module
/// name.
pub fn collect_modules(exports: &Vec<String>) -> (res: StrMap<ModuleFn>)
    ensures
        res.wf(),
        fn_views(res@) == collected(str_seqs(exports@)),
{
    let mut res: StrMap<ModuleFn> = StrMap::new();
    let mut i: usize = 0;
    proof {
        assert(str_seqs(exports@).take(0) =~= Seq::<Seq<char>>::empty());
        assert(fn_views(res@) =~= collected(str_seqs(exports@).take(0)));
    }
    while i < exports.len()
        invariant
            i <= exports@.len(),
            res.wf(),
            fn_views(res@) == collected(str_seqs(exports@).take(i as int)),
        decreases exports@.len() - i,
    {
        let ghost before = fn_views(res@);
        proof {
            assert(str_seqs(exports@).take(i + 1).drop_last() =~= str_seqs(exports@).take(i as int));
            assert(str_seqs(exports@).take(i + 1).last() == exports@[i as int]@);
        }
        match parse_register_name(exports[i].as_str()) {
            Some((name, depends_on)) => {
                let ghost key = name@;
                let f = ModuleFn { export: i, depends_on };
                let ghost fv = f@;
                let _ = res.insert(name, f);
                proof {
                    assert(fn_views(res@) =~= before.insert(key, fv));
                }
            },
            None => {},
        }
        i = i + 1;
    }
    proof {
        assert(str_seqs(exports@).take(exports@.len() as int) =~= str_seqs(exports@));
    }
    res
}

/// What the loader does with one module.
#[derive(Debug, PartialEq, Eq)]
pub enum LoadStep {
    /// Calls the register function at this position among the exports.
    Load { name: String, export: usize },
    /// Skips a module that is disabled.
    SkipDisabled { name: String },
    /// Skips a module whose dependency is disabled.
    SkipDependent { name: String, dependency: String },
    /// Reports a module of the load order that has no register function.
    Missing { name: String },
}

/// A load step with its strings taken by their characters.
pub enum LoadStepView {
    Load(Seq<char>, nat),
    SkipDisabled(Seq<char>),
    SkipDependent(Seq<char>, Seq<char>),
    Missing(Seq<char>),
}

impl View for LoadStep {
    type V = LoadStepView;

    open spec fn view(&self) -> LoadStepView {
        match self {
            LoadStep::Load { name, export } => LoadStepView::Load(name@, *export as nat),
            LoadStep::SkipDisabled { name } => LoadStepView::SkipDisabled(name@),
            LoadStep::SkipDependent { name, dependency } => LoadStepView::SkipDependent(
                name@,
                dependency@,
            ),
            LoadStep::Missing { name } => LoadStepView::Missing(name@),
        }
    }
}

/// The load steps taken by their views.
pub open spec fn steps_view(v: Seq<LoadStep>) -> Seq<LoadStepView> {
    v.map_values(|s: LoadStep| s@)
}

/// What becomes of a found module: skipped when it is disabled, or when the
/// module it depends on is; loaded otherwise.
pub open spec fn decide(name: Seq<char>, f: ModuleFnView, disabled: Seq<Seq<char>>) -> LoadStepView {
    if disabled.contains(name) {
        LoadStepView::SkipDisabled(name)
    } else {
        match f.depends_on {
            Some(d) => if disabled.contains(d) {
                LoadStepView::SkipDependent(name, d)
            } else {
                LoadStepView::Load(name, f.export)
            },
            None => LoadStepView::Load(name, f.export),
        }
    }
}

/// The steps for the modules of the load order, in that order, and the
/// modules left over: each named module is taken out when found, and
/// reported missing otherwise.
pub open spec fn ordered_steps(
    m: Map<Seq<char>, ModuleFnView>,
    order: Seq<Seq<char>>,
    disabled: Seq<Seq<char>>,
) -> (Seq<LoadStepView>, Map<Seq<char>, ModuleFnView>)
    decreases order.len(),
{
    if order.len() == 0 {
        (seq![], m)
    } else {
        let (steps, rem) = ordered_steps(m, order.drop_last(), disabled);
        let name = order.last();
        if rem.contains_key(name) {
            (steps.push(decide(name, rem[name], disabled)), rem.remove(name))
        } else {
            (steps.push(LoadStepView::Missing(name)), rem)
        }
    }
}

/// The module a load step is about.
pub open spec fn step_name(s: LoadStepView) -> Seq<char> {
    match s {
        LoadStepView::Load(n, _) => n,
        LoadStepView::SkipDisabled(n) => n,
        LoadStepView::SkipDependent(n, _) => n,
        LoadStepView::Missing(n) => n,
    }
}

/// Each module is dealt with once: the load order gives one step per name,
/// in its order; a name the order repeats is reported missing the second
/// time, since the module was taken out the first time; and the modules
/// left for afterwards are exactly the found ones that the order does not
/// name, with their register functions unchanged.
pub proof fn lemma_load_order_takes_modules_out(
    m: Map<Seq<char>, ModuleFnView>,
    order: Seq<Seq<char>>,
    disabled: Seq<Seq<char>>,
)
    ensures
        ({
            let (steps, rem) = ordered_steps(m, order, disabled);
            &&& steps.len() == order.len()
            &&& forall|i: int| 0 <= i < order.len() ==> step_name(#[trigger] steps[i]) == order[i]
            &&& forall|i: int, j: int|
                #![trigger order[i], steps[j]]
                0 <= i < j < order.len() && order[i] == order[j] ==> steps[j] is Missing
            &&& forall|k: Seq<char>| #[trigger] rem.contains_key(k) <==> m.contains_key(k) && !order.contains(k)
            &&& forall|k: Seq<char>| #[trigger] rem.contains_key(k) ==> rem[k] == m[k]
        }),
    decreases order.len(),
{
    if order.len() > 0 {
        let prefix = order.drop_last();
        lemma_load_order_takes_modules_out(m, prefix, disabled);
        let (steps0, rem0) = ordered_steps(m, prefix, disabled);
        let (steps, rem) = ordered_steps(m, order, disabled);
        let name = order.last();
        assert(steps.len() == steps0.len() + 1);
        assert forall|i: int| 0 <= i < order.len() implies step_name(#[trigger] steps[i]) == order[i] by {
            if i < prefix.len() {
                assert(steps[i] == steps0[i]);
                assert(prefix[i] == order[i]);
            } else {
                assert(i == order.len() - 1);
            }
        }
        assert forall|i: int, j: int|
            #![trigger order[i], steps[j]]
            0 <= i < j < order.len() && order[i] == order[j] implies steps[j] is Missing by {
            if j < prefix.len() {
                assert(steps[j] == steps0[j]);
                assert(prefix[i] == order[i] && prefix[j] == order[j]);
            } else {
                assert(prefix[i] == order[i]);
                assert(prefix.contains(name));
                assert(!rem0.contains_key(name));
            }
        }
        assert forall|k: Seq<char>| #[trigger] rem.contains_key(k) <==> m.contains_key(k) && !order.contains(k) by {
            if order.contains(k) && k != name {
                let i = choose|i: int| 0 <= i < order.len() && order[i] == k;
                assert(i < prefix.len());
                assert(prefix[i] == k);
            }
            if prefix.contains(k) {
                let i = choose|i: int| 0 <= i < prefix.len() && prefix[i] == k;
                assert(order[i] == k);
            }
            assert(order.contains(name)) by {
                assert(order[order.len() - 1] == name);
            }
        }
    }
}

fn decide_step(name: &str, f: &ModuleFn, disabled: &Vec<String>) -> (res: LoadStep)
    ensures
        res@ == decide(name@, f@, str_seqs(disabled@)),
{
    if list_contains(disabled, name) {
        return LoadStep::SkipDisabled { name: name.to_owned() };
    }
    match &f.depends_on {
        Some(d) => if list_contains(disabled, d.as_str()) {
            LoadStep::SkipDependent { name: name.to_owned(), dependency: d.clone() }
        } else {
            LoadStep::Load { name: name.to_owned(), export: f.export }
        },
        None => LoadStep::Load { name: name.to_owned(), export: f.export },
    }
}

/// What a loading plan is: first the steps of the load order, in that
/// order; then, for the modules left over, in name order, each loaded or
/// skipped.
pub open spec fn loading_plan(
    m: Map<Seq<char>, ModuleFnView>,
    order: Seq<Seq<char>>,
    disabled: Seq<Seq<char>>,
    plan: Seq<LoadStepView>,
) -> bool {
    let (first, rem) = ordered_steps(m, order, disabled);
    &&& plan.len() >= first.len()
    &&& plan.take(first.len() as int) == first
    &&& exists|ks: Seq<Seq<char>>|
        {
            &&& sorted_keys(ks)
            &&& forall|k: Seq<char>| ks.contains(k) <==> #[trigger] rem.contains_key(k)
            &&& plan.skip(first.len() as int) == ks.map_values(|k: Seq<char>| decide(k, rem[k], disabled))
        }
}

/// No module is loaded twice: the load steps of a plan name different
/// modules.
pub proof fn lemma_plan_loads_each_module_once(
    m: Map<Seq<char>, ModuleFnView>,
    order: Seq<Seq<char>>,
    disabled: Seq<Seq<char>>,
    plan: Seq<LoadStepView>,
)
    requires
        loading_plan(m, order, disabled, plan),
    ensures
        forall|i: int, j: int|
            0 <= i < j < plan.len() && plan[i] is Load && plan[j] is Load ==> step_name(#[trigger] plan[i])
                != step_name(#[trigger] plan[j]),
{
    let (first, rem) = ordered_steps(m, order, disabled);
    lemma_load_order_takes_modules_out(m, order, disabled);
    let n = first.len() as int;
    let ks = choose|ks: Seq<Seq<char>>|
        {
            &&& sorted_keys(ks)
            &&& forall|k: Seq<char>| ks.contains(k) <==> #[trigger] rem.contains_key(k)
            &&& plan.skip(n) == ks.map_values(|k: Seq<char>| decide(k, rem[k], disabled))
        };
    assert(plan.skip(n).len() == plan.len() - n);
    assert(ks.len() == plan.len() - n);
    assert forall|k: Seq<char>, f: ModuleFnView| step_name(#[trigger] decide(k, f, disabled)) == k by {}
    assert forall|i: int, j: int|
        0 <= i < j < plan.len() && plan[i] is Load && plan[j] is Load implies step_name(#[trigger] plan[i])
            != step_name(#[trigger] plan[j]) by {
        if j < n {
            assert(plan[i] == plan.take(n)[i]);
            assert(plan[j] == plan.take(n)[j]);
            if order[i] == order[j] {
                assert(first[j] is Missing);
            }
        } else if i < n {
            assert(plan[i] == plan.take(n)[i]);
            let k = ks[j - n];
            assert(plan[j] == plan.skip(n)[j - n]);
            assert(plan.skip(n)[j - n] == decide(k, rem[k], disabled));
            assert(step_name(plan[j]) == k);
            assert(ks.contains(k));
            assert(rem.contains_key(k));
            assert(order.contains(order[i]));
        } else {
            assert(plan[i] == plan.skip(n)[i - n]);
            assert(plan[j] == plan.skip(n)[j - n]);
            assert(plan.skip(n)[i - n] == decide(ks[i - n], rem[ks[i - n]], disabled));
            assert(plan.skip(n)[j - n] == decide(ks[j - n], rem[ks[j - n]], disabled));
            assert(step_name(plan[i]) == ks[i - n]);
            assert(step_name(plan[j]) == ks[j - n]);
            assert(seq_lt(ks[i - n], ks[j - n]));
            lemma_seq_lt_irreflexive(ks[i - n]);
        }
    }
}

/// The loader's plan: first the modules of the load order, in that order
/// (each loaded or skipped, or reported missing), then every module left
/// over, in name order, each loaded or skipped.
pub fn plan_loading(modules: StrMap<ModuleFn>, order: &Vec<String>, disabled: &Vec<String>) -> (res: Vec<
    LoadStep,
>)
    requires
        modules.wf(),
    ensures
        loading_plan(fn_views(modules@), str_seqs(order@), str_seqs(disabled@), steps_view(res@)),
{
    let ghost start = fn_views(modules@);
    let ghost dis = str_seqs(disabled@);
    let mut m = modules;
    let mut res: Vec<LoadStep> = Vec::new();
    let mut i: usize = 0;
    proof {
        assert(str_seqs(order@).take(0) =~= Seq::<Seq<char>>::empty());
        assert(steps_view(res@) =~= Seq::<LoadStepView>::empty());
    }
    while i < order.len()
        invariant
            i <= order@.len(),
            m.wf(),
            dis == str_seqs(disabled@),
            ordered_steps(start, str_seqs(order@).take(i as int), dis) == (
                steps_view(res@),
                fn_views(m@),
            ),
        decreases order@.len() - i,
    {
        let ghost before = fn_views(m@);
        let ghost steps_before = steps_view(res@);
        let name = order[i].as_str();
        proof {
            assert(str_seqs(order@).take(i + 1).drop_last() =~= str_seqs(order@).take(i as int));
            assert(str_seqs(order@).take(i + 1).last() == name@);
        }
        match m.remove(name) {
            Some(f) => {
                let step = decide_step(name, &f, disabled);
                res.push(step);
                proof {
                    assert(fn_views(m@) =~= before.remove(name@));
                    assert(steps_view(res@) =~= steps_before.push(step@));
                }
            },
            None => {
                let step = LoadStep::Missing { name: name.to_owned() };
                res.push(step);
                proof {
                    assert(fn_views(m@) =~= before);
                    assert(steps_view(res@) =~= steps_before.push(step@));
                }
            },
        }
        i = i + 1;
    }
    proof {
        assert(str_seqs(order@).take(order@.len() as int) =~= str_seqs(order@));
        m.lemma_entries();
    }
    let ghost first = steps_view(res@);
    let ghost rem = fn_views(m@);
    let n = m.len();
    let mut j: usize = 0;
    while j < n
        invariant
            j <= n,
            n == m.key_seq().len(),
            m.wf(),
            rem == fn_views(m@),
            dis == str_seqs(disabled@),
            steps_view(res@).len() == first.len() + j,
            steps_view(res@).take(first.len() as int) == first,
            forall|jj: int|
                0 <= jj < j ==> #[trigger] steps_view(res@)[first.len() + jj] == decide(
                    m.key_seq()[jj],
                    rem[m.key_seq()[jj]],
                    dis,
                ),
        decreases n - j,
    {
        proof {
            m.lemma_entries();
        }
        let ghost before = steps_view(res@);
        let step = decide_step(m.key_at(j).as_str(), m.value_at(j), disabled);
        res.push(step);
        proof {
            let k = m.key_seq()[j as int];
            assert(m@.contains_key(k));
            assert(rem[k] == m.value_seq()[j as int]@);
            assert(steps_view(res@) =~= before.push(step@));
            assert(steps_view(res@)[first.len() + j] == step@);
            assert(steps_view(res@).take(first.len() as int) =~= before.take(first.len() as int));
        }
        j = j + 1;
    }
    proof {
        m.lemma_entries();
        let ks = m.key_seq();
        assert forall|jj: int| 0 <= jj < ks.len() implies steps_view(res@).skip(first.len() as int)[jj]
            == decide(ks[jj], rem[ks[jj]], dis) by {
            assert(steps_view(res@)[first.len() + jj] == decide(ks[jj], rem[ks[jj]], dis));
        }
        assert(steps_view(res@).skip(first.len() as int) =~= ks.map_values(
            |k: Seq<char>| decide(k, rem[k], dis),
        ));
        assert forall|k: Seq<char>| ks.contains(k) <==> #[trigger] rem.contains_key(k) by {}
    }
    res
}

/// No step of the load order loads a module that is disabled, or whose
/// dependency is disabled.
pub proof fn lemma_ordered_steps_respect_disabled(
    m: Map<Seq<char>, ModuleFnView>,
    order: Seq<Seq<char>>,
    disabled: Seq<Seq<char>>,
)
    ensures
        forall|k: int|
            0 <= k < ordered_steps(m, order, disabled).0.len() ==> match #[trigger] ordered_steps(
                m,
                order,
                disabled,
            ).0[k] {
                LoadStepView::Load(n, e) => !disabled.contains(n),
                _ => true,
            },
        ordered_steps(m, order, disabled).0.len() == order.len(),
    decreases order.len(),
{
    if order.len() > 0 {
        lemma_ordered_steps_respect_disabled(m, order.drop_last(), disabled);
        let steps = ordered_steps(m, order, disabled).0;
        let prev = ordered_steps(m, order.drop_last(), disabled).0;
        assert forall|k: int| 0 <= k < steps.len() implies match #[trigger] steps[k] {
            LoadStepView::Load(n, e) => !disabled.contains(n),
            _ => true,
        } by {
            if k < prev.len() {
                assert(steps[k] == prev[k]);
            }
        }
    }
}

/// A module is loaded only when neither it nor the module it depends on is
/// disabled.
pub proof fn lemma_decide_loads_enabled(name: Seq<char>, f: ModuleFnView, disabled: Seq<Seq<char>>)
    ensures
        decide(name, f, disabled) is Load <==> !disabled.contains(name) && !(f.depends_on matches Some(
            d,
        ) && disabled.contains(d)),
{
}

} // verus!
