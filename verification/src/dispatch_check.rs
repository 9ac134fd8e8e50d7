//! Reading an item's dispatch groups: the checks made on the parameters of
//! each group and on its concrete targets.
use vstd::prelude::*;
use crate::signature::GenericParam;
use crate::tokens::{Attr, AttrMeta};
use crate::mineral::{find_single_attr_opt, lemma_named_attr_indices_in_range, spec_named_attr_indices};
use crate::types::{GenericArg, SpecArg, strings_view};
use crate::groups::{
    DispatchGroup, DispatchGroups, DispatchTarget, SpecGroup, SpecTarget, clone_targets, contains_str, groups_map,
    groups_view, targets_view,
};
use crate::text::{chars_of, decimal, push_chars, push_str, spec_decimal, str_eq, string_of};

verus! {

/// One parameter written in a group's `use<...>`: a name, a lifetime, or
/// anything else (kept as its text).
#[derive(Debug, PartialEq, Eq)]
pub enum CapturedParam {
    Ident(String),
    Lifetime(String),
    Other(String),
}

/// A group as written: its parameters and its targets.
#[derive(Debug, PartialEq, Eq)]
pub struct RawGroup {
    pub params: Vec<CapturedParam>,
    pub targets: Vec<DispatchTarget>,
}

/// Why an item's dispatch was refused, and where: groups and their
/// parameters by their position as written, targets and their arguments by
/// the position of their group among the groups in order.
#[derive(Debug, Clone, Copy, PartialEq, Eq, Structural)]
pub enum DispatchError {
    DuplicateAttribute { attr: usize },
    NotAList { attr: usize },
    EmptyGroup { group: usize },
    LifetimeParam { group: usize, param: usize },
    NotTypeOrConst { group: usize, param: usize },
    Undeclared { group: usize, param: usize },
    InTwoGroups { group: usize, param: usize },
    NoTargets { group: usize },
    WrongArity { group: usize, target: usize, expected: usize },
    KindMismatch { group: usize, target: usize, arg: usize },
    CyclicSelection,
}

/// The message of an error.
pub open spec fn spec_dispatch_message(e: DispatchError) -> Seq<char> {
    match e {
        DispatchError::DuplicateAttribute { .. } => "duplicate tagged-dispatch predicate"@,
        DispatchError::NotAList { .. } => "tagged dispatch must provide concrete generic arguments"@,
        DispatchError::EmptyGroup { .. } => "dispatch groups must contain at least one parameter"@,
        DispatchError::LifetimeParam { .. } => "dispatch parameters cannot be lifetimes"@,
        DispatchError::NotTypeOrConst { .. } => "dispatch parameters must be type or const parameters"@,
        DispatchError::Undeclared { .. } => "dispatch parameter is not declared on this item"@,
        DispatchError::InTwoGroups { .. } => "dispatch parameter cannot appear in more than one group"@,
        DispatchError::NoTargets { .. } => "dispatch groups must contain at least one concrete target"@,
        DispatchError::WrongArity { expected, .. } => "expected "@ + spec_decimal(expected as nat)
            + " concrete generic argument(s)"@,
        DispatchError::KindMismatch { .. } => "argument kind must match declared parameter kind"@,
        DispatchError::CyclicSelection => "cyclic tagged-dispatch selection"@,
    }
}

impl DispatchError {
    /// The message of the error.
    pub fn message(&self) -> (s: String)
        ensures
            s@ == spec_dispatch_message(*self),
    {
        match self {
            DispatchError::DuplicateAttribute { .. } => String::from_str("duplicate tagged-dispatch predicate"),
            DispatchError::NotAList { .. } => String::from_str(
                "tagged dispatch must provide concrete generic arguments",
            ),
            DispatchError::EmptyGroup { .. } => String::from_str(
                "dispatch groups must contain at least one parameter",
            ),
            DispatchError::LifetimeParam { .. } => String::from_str("dispatch parameters cannot be lifetimes"),
            DispatchError::NotTypeOrConst { .. } => String::from_str(
                "dispatch parameters must be type or const parameters",
            ),
            DispatchError::Undeclared { .. } => String::from_str("dispatch parameter is not declared on this item"),
            DispatchError::InTwoGroups { .. } => String::from_str(
                "dispatch parameter cannot appear in more than one group",
            ),
            DispatchError::NoTargets { .. } => String::from_str(
                "dispatch groups must contain at least one concrete target",
            ),
            DispatchError::WrongArity { expected, .. } => {
                let mut v = chars_of("expected ");
                let d = decimal(*expected);
                push_chars(&mut v, &d);
                push_str(&mut v, " concrete generic argument(s)");
                string_of(&v)
            },
            DispatchError::KindMismatch { .. } => String::from_str(
                "argument kind must match declared parameter kind",
            ),
            DispatchError::CyclicSelection => String::from_str("cyclic tagged-dispatch selection"),
        }
    }
}

// ---------------------------------------------------------------------------
// The parameters of a group.

/// Whether `x` names a type or const parameter of the item.
pub open spec fn declared(generics: Seq<GenericParam>, x: Seq<char>) -> bool {
    exists|i: int| 0 <= i < generics.len() && #[trigger] declares(generics[i], x)
}

/// Whether the generic parameter is the type or const parameter `x`.
pub open spec fn declares(p: GenericParam, x: Seq<char>) -> bool {
    match p {
        GenericParam::Type { name, .. } => name@ == x,
        GenericParam::Const { name, .. } => name@ == x,
        GenericParam::Lifetime { .. } => false,
    }
}

/// What is wrong with the `i`-th parameter of the `group`-th group, where the
/// parameters in `before` already belong to a group.
pub open spec fn param_error(
    generics: Seq<GenericParam>,
    before: Set<Seq<char>>,
    group: usize,
    i: usize,
    p: CapturedParam,
) -> Option<DispatchError> {
    match p {
        CapturedParam::Ident(x) => if !declared(generics, x@) {
            Some(DispatchError::Undeclared { group, param: i })
        } else if before.contains(x@) {
            Some(DispatchError::InTwoGroups { group, param: i })
        } else {
            None
        },
        CapturedParam::Lifetime(_) => Some(DispatchError::LifetimeParam { group, param: i }),
        CapturedParam::Other(_) => Some(DispatchError::NotTypeOrConst { group, param: i }),
    }
}

/// The name of a captured parameter.
pub open spec fn captured_name(p: CapturedParam) -> Seq<char> {
    match p {
        CapturedParam::Ident(x) => x@,
        CapturedParam::Lifetime(x) => x@,
        CapturedParam::Other(x) => x@,
    }
}

/// Reading the first `n` parameters of a group: the parameters kept, the
/// errors in order, and the parameters that then belong to a group.
pub open spec fn group_scan(
    generics: Seq<GenericParam>,
    assigned: Set<Seq<char>>,
    group: usize,
    params: Seq<CapturedParam>,
    n: int,
) -> (Seq<Seq<char>>, Seq<DispatchError>, Set<Seq<char>>)
    decreases n,
{
    if n <= 0 || n > params.len() {
        (Seq::empty(), Seq::empty(), assigned)
    } else {
        let (g, e, a) = group_scan(generics, assigned, group, params, n - 1);
        match param_error(generics, a, group, (n - 1) as usize, params[n - 1]) {
            Some(err) => (g, e.push(err), a),
            None => (g.push(captured_name(params[n - 1])), e, a.insert(captured_name(params[n - 1]))),
        }
    }
}

/// What reading a group's parameters gives: an empty group is refused; else
/// the parameters, unless some are wrong.
pub open spec fn spec_parse_group(
    generics: Seq<GenericParam>,
    assigned: Set<Seq<char>>,
    group: usize,
    params: Seq<CapturedParam>,
) -> Result<Seq<Seq<char>>, Seq<DispatchError>> {
    if params.len() == 0 {
        Err(seq![DispatchError::EmptyGroup { group }])
    } else {
        let (g, e, _) = group_scan(generics, assigned, group, params, params.len() as int);
        if e.len() == 0 {
            Ok(g)
        } else {
            Err(e)
        }
    }
}

/// Whether `x` names a type or const parameter of the item.
fn is_declared(generics: &Vec<GenericParam>, x: &str) -> (r: bool)
    ensures
        r == declared(generics@, x@),
{
    let mut i: usize = 0;
    while i < generics.len()
        invariant
            i <= generics@.len(),
            forall|j: int| 0 <= j < i ==> !#[trigger] declares(generics@[j], x@),
        decreases generics@.len() - i,
    {
        let hit = match &generics[i] {
            GenericParam::Type { name, .. } => str_eq(name.as_str(), x),
            GenericParam::Const { name, .. } => str_eq(name.as_str(), x),
            GenericParam::Lifetime { .. } => false,
        };
        if hit {
            assert(declares(generics@[i as int], x@));
            return true;
        }
        i = i + 1;
    }
    false
}

/// Reads the parameters of the `group`-th group: each must be a type or
/// const parameter of the item that no group has yet. The parameters read
/// are added to `assigned`.
pub fn parse_dispatch_group(
    generics: &Vec<GenericParam>,
    assigned: &mut Vec<String>,
    group: usize,
    params: &Vec<CapturedParam>,
) -> (r: Result<Vec<String>, Vec<DispatchError>>)
    ensures
        match r {
            Ok(g) => spec_parse_group(generics@, strings_view(old(assigned)@).to_set(), group, params@)
                == Ok::<Seq<Seq<char>>, Seq<DispatchError>>(strings_view(g@)),
            Err(e) => spec_parse_group(generics@, strings_view(old(assigned)@).to_set(), group, params@)
                == Err::<Seq<Seq<char>>, Seq<DispatchError>>(e@),
        },
        params@.len() > 0 ==> strings_view(final(assigned)@).to_set() == group_scan(
            generics@,
            strings_view(old(assigned)@).to_set(),
            group,
            params@,
            params@.len() as int,
        ).2,
{
    let ghost a0 = strings_view(assigned@).to_set();
    if params.len() == 0 {
        let mut e: Vec<DispatchError> = Vec::new();
        e.push(DispatchError::EmptyGroup { group });
        assert(e@ =~= seq![DispatchError::EmptyGroup { group }]);
        return Err(e);
    }
    let mut g: Vec<String> = Vec::new();
    let mut errors: Vec<DispatchError> = Vec::new();
    let mut i: usize = 0;
    while i < params.len()
        invariant
            i <= params@.len(),
            group_scan(generics@, a0, group, params@, i as int) == (
                strings_view(g@),
                errors@,
                strings_view(assigned@).to_set(),
            ),
        decreases params@.len() - i,
    {
        let ghost before = strings_view(assigned@).to_set();
        match &params[i] {
            CapturedParam::Ident(x) => {
                if !is_declared(generics, x.as_str()) {
                    errors.push(DispatchError::Undeclared { group, param: i });
                } else if contains_str(assigned, x.as_str()) {
                    errors.push(DispatchError::InTwoGroups { group, param: i });
                } else {
                    let ghost gb = g@;
                    let ghost sb = strings_view(assigned@);
                    assigned.push(x.clone());
                    g.push(x.clone());
                    assert(strings_view(g@) =~= strings_view(gb).push(x@));
                    assert(strings_view(assigned@) =~= sb.push(x@));
                    assert(strings_view(assigned@).to_set() =~= before.insert(x@)) by {
                        assert forall|y: Seq<char>| sb.push(x@).contains(y) == (sb.contains(y) || y == x@) by {
                            if sb.push(x@).contains(y) {
                                let k = choose|k: int| 0 <= k < sb.push(x@).len() && sb.push(x@)[k] == y;
                                if k < sb.len() {
                                    assert(sb[k] == y);
                                }
                            }
                            if sb.contains(y) {
                                let k = choose|k: int| 0 <= k < sb.len() && sb[k] == y;
                                assert(sb.push(x@)[k] == y);
                            }
                            if y == x@ {
                                assert(sb.push(x@)[sb.len() as int] == y);
                            }
                        }
                    }
                }
            },
            CapturedParam::Lifetime(_) => {
                errors.push(DispatchError::LifetimeParam { group, param: i });
            },
            CapturedParam::Other(_) => {
                errors.push(DispatchError::NotTypeOrConst { group, param: i });
            },
        }
        i = i + 1;
    }
    if errors.len() == 0 {
        Ok(g)
    } else {
        Err(errors)
    }
}

/// Reading the first `n` groups as written, in order: the groups as a map
/// and the parameters that belong to a group, or the errors of the first
/// group that has some.
pub open spec fn spec_assemble(generics: Seq<GenericParam>, raw: Seq<RawGroup>, n: int) -> Result<
    (Map<Seq<Seq<char>>, Seq<SpecTarget>>, Set<Seq<char>>),
    Seq<DispatchError>,
>
    decreases n,
{
    if n <= 0 || n > raw.len() {
        Ok((Map::empty(), Set::empty()))
    } else {
        match spec_assemble(generics, raw, n - 1) {
            Err(e) => Err(e),
            Ok((m, a)) => {
                let params = raw[n - 1].params@;
                match spec_parse_group(generics, a, (n - 1) as usize, params) {
                    Err(e) => Err(e),
                    Ok(g) => Ok(
                        (
                            m.insert(g, targets_view(raw[n - 1].targets@)),
                            group_scan(generics, a, (n - 1) as usize, params, params.len() as int).2,
                        ),
                    ),
                }
            },
        }
    }
}

/// Once a group is refused, reading more groups gives the same errors.
proof fn lemma_assemble_err_stays(generics: Seq<GenericParam>, raw: Seq<RawGroup>, j: int, n: int)
    requires
        0 <= j <= n <= raw.len(),
        spec_assemble(generics, raw, j) is Err,
    ensures
        spec_assemble(generics, raw, n) == spec_assemble(generics, raw, j),
    decreases n - j,
{
    if j < n {
        lemma_assemble_err_stays(generics, raw, j, n - 1);
    }
}

/// Reads the groups as written, in order: each group's parameters are
/// checked, and the group is added with its targets.
pub fn assemble_dispatch_groups(generics: &Vec<GenericParam>, raw: &Vec<RawGroup>) -> (r: Result<
    DispatchGroups,
    Vec<DispatchError>,
>)
    ensures
        match r {
            Ok(d) => spec_assemble(generics@, raw@, raw@.len() as int) is Ok && groups_map(d@)
                == spec_assemble(generics@, raw@, raw@.len() as int)->Ok_0.0,
            Err(e) => spec_assemble(generics@, raw@, raw@.len() as int) == Err::<
                (Map<Seq<Seq<char>>, Seq<SpecTarget>>, Set<Seq<char>>),
                Seq<DispatchError>,
            >(e@),
        },
{
    let ghost raw0 = raw@;
    let n = raw.len();
    let mut groups = DispatchGroups::new();
    let mut assigned: Vec<String> = Vec::new();
    let mut k: usize = 0;
    assert(groups_map(groups@) =~= Map::empty());
    assert(strings_view(assigned@).to_set() =~= Set::empty());
    while k < n
        invariant
            n == raw0.len(),
            k <= n,
            raw0 == raw@,
            spec_assemble(generics@, raw0, k as int) == Ok::<
                (Map<Seq<Seq<char>>, Seq<SpecTarget>>, Set<Seq<char>>),
                Seq<DispatchError>,
            >((groups_map(groups@), strings_view(assigned@).to_set())),
        decreases n - k,
    {
        let rg = &raw[k];
        assert(*rg == raw0[k as int]);
        match parse_dispatch_group(generics, &mut assigned, k, &rg.params) {
            Ok(g) => {
                groups.insert(g, clone_targets(&rg.targets));
            },
            Err(e) => {
                proof {
                    assert(spec_assemble(generics@, raw0, k + 1) == Err::<
                        (Map<Seq<Seq<char>>, Seq<SpecTarget>>, Set<Seq<char>>),
                        Seq<DispatchError>,
                    >(e@));
                    lemma_assemble_err_stays(generics@, raw0, k + 1, n as int);
                    assert(spec_assemble(generics@, raw0, n as int) == Err::<
                        (Map<Seq<Seq<char>>, Seq<SpecTarget>>, Set<Seq<char>>),
                        Seq<DispatchError>,
                    >(e@));
                }
                return Err(e);
            },
        }
        k = k + 1;
    }
    Ok(groups)
}

/// Whether the generic parameter is `param`, of the kind of `arg`.
pub open spec fn kind_matches(p: GenericParam, param: Seq<char>, arg: SpecArg) -> bool {
    match p {
        GenericParam::Type { name, .. } => name@ == param && arg is Type,
        GenericParam::Const { name, .. } => name@ == param && arg is Const,
        GenericParam::Lifetime { .. } => false,
    }
}

/// Whether the item declares `param` as a parameter of the kind of `arg`.
pub open spec fn matches_kind(generics: Seq<GenericParam>, param: Seq<char>, arg: SpecArg) -> bool {
    exists|j: int| 0 <= j < generics.len() && #[trigger] kind_matches(generics[j], param, arg)
}

/// The errors of the first `n` arguments of a target.
pub open spec fn arg_errors(
    generics: Seq<GenericParam>,
    gi: usize,
    ti: usize,
    params: Seq<Seq<char>>,
    args: Seq<SpecArg>,
    n: int,
) -> Seq<DispatchError>
    decreases n,
{
    if n <= 0 {
        Seq::empty()
    } else {
        let e = arg_errors(generics, gi, ti, params, args, n - 1);
        if matches_kind(generics, params[n - 1], args[n - 1]) {
            e
        } else {
            e.push(DispatchError::KindMismatch { group: gi, target: ti, arg: (n - 1) as usize })
        }
    }
}

/// The errors of a target: it must give every parameter of its group an
/// argument of the parameter's kind.
pub open spec fn target_errors(
    generics: Seq<GenericParam>,
    gi: usize,
    ti: usize,
    params: Seq<Seq<char>>,
    t: SpecTarget,
) -> Seq<DispatchError> {
    if t.args.len() != params.len() {
        seq![DispatchError::WrongArity { group: gi, target: ti, expected: params.len() as usize }]
    } else {
        arg_errors(generics, gi, ti, params, t.args, params.len() as int)
    }
}

/// The errors of the first `n` targets of a group.
pub open spec fn targets_errors(generics: Seq<GenericParam>, gi: usize, g: SpecGroup, n: int) -> Seq<DispatchError>
    decreases n,
{
    if n <= 0 {
        Seq::empty()
    } else {
        targets_errors(generics, gi, g, n - 1) + target_errors(generics, gi, (n - 1) as usize, g.params, g.targets[n - 1])
    }
}

/// The errors of a group: it must have a target, and each target must fit.
pub open spec fn group_errors(generics: Seq<GenericParam>, gi: usize, g: SpecGroup) -> Seq<DispatchError> {
    if g.targets.len() == 0 {
        seq![DispatchError::NoTargets { group: gi }]
    } else {
        targets_errors(generics, gi, g, g.targets.len() as int)
    }
}

/// The errors of the first `n` groups, in order.
pub open spec fn groups_errors(generics: Seq<GenericParam>, gs: Seq<SpecGroup>, n: int) -> Seq<DispatchError>
    decreases n,
{
    if n <= 0 {
        Seq::empty()
    } else {
        groups_errors(generics, gs, n - 1) + group_errors(generics, (n - 1) as usize, gs[n - 1])
    }
}

fn matches_kind_exec(generics: &Vec<GenericParam>, param: &str, arg: &GenericArg) -> (r: bool)
    ensures
        r == matches_kind(generics@, param@, arg@),
{
    let mut j: usize = 0;
    while j < generics.len()
        invariant
            j <= generics@.len(),
            forall|k: int| 0 <= k < j ==> !#[trigger] kind_matches(generics@[k], param@, arg@),
        decreases generics@.len() - j,
    {
        let hit = match &generics[j] {
            GenericParam::Type { name, .. } => str_eq(name.as_str(), param) && match arg {
                GenericArg::Type(_) => true,
                _ => false,
            },
            GenericParam::Const { name, .. } => str_eq(name.as_str(), param) && match arg {
                GenericArg::Const(_) => true,
                _ => false,
            },
            GenericParam::Lifetime { .. } => false,
        };
        if hit {
            assert(kind_matches(generics@[j as int], param@, arg@));
            return true;
        }
        j = j + 1;
    }
    false
}

fn target_errors_exec(
    generics: &Vec<GenericParam>,
    gi: usize,
    ti: usize,
    params: &Vec<String>,
    t: &DispatchTarget,
    errors: &mut Vec<DispatchError>,
)
    ensures
        final(errors)@ == old(errors)@ + target_errors(generics@, gi, ti, strings_view(params@), t@),
{
    let ghost pv = strings_view(params@);
    if t.args.len() != params.len() {
        errors.push(DispatchError::WrongArity { group: gi, target: ti, expected: params.len() });
        return;
    }
    let ghost e0 = errors@;
    let mut i: usize = 0;
    while i < params.len()
        invariant
            pv == strings_view(params@),
            t.args@.len() == params@.len(),
            i <= params@.len(),
            errors@ == e0 + arg_errors(generics@, gi, ti, pv, t@.args, i as int),
        decreases params@.len() - i,
    {
        assert(pv[i as int] == params@[i as int]@);
        assert(t@.args[i as int] == t.args@[i as int]@);
        if !matches_kind_exec(generics, params[i].as_str(), &t.args[i]) {
            errors.push(DispatchError::KindMismatch { group: gi, target: ti, arg: i });
        }
        i = i + 1;
    }
}

/// Checks the targets of the groups, in order: each group must have a
/// target, and each target must give every parameter of its group an
/// argument of the parameter's kind.
pub fn validate_dispatch_targets(generics: &Vec<GenericParam>, dispatch: &DispatchGroups) -> (r: Result<
    (),
    Vec<DispatchError>,
>)
    ensures
        match r {
            Ok(_) => groups_errors(generics@, dispatch@, dispatch@.len() as int).len() == 0,
            Err(e) => e@ == groups_errors(generics@, dispatch@, dispatch@.len() as int) && e@.len() > 0,
        },
{
    let groups = dispatch.groups();
    let ghost gs = dispatch@;
    let mut errors: Vec<DispatchError> = Vec::new();
    let mut g: usize = 0;
    while g < groups.len()
        invariant
            gs == dispatch@,
            gs == groups_view(groups@),
            g <= groups@.len(),
            errors@ == groups_errors(generics@, gs, g as int),
        decreases groups@.len() - g,
    {
        let group = &groups[g];
        assert(gs[g as int] == group@);
        if group.targets.len() == 0 {
            errors.push(DispatchError::NoTargets { group: g });
        } else {
            let ghost e0 = errors@;
            let mut t: usize = 0;
            while t < group.targets.len()
                invariant
                    gs[g as int] == group@,
                    t <= group.targets@.len(),
                    errors@ == e0 + targets_errors(generics@, g, gs[g as int], t as int),
                decreases group.targets@.len() - t,
            {
                assert(gs[g as int].targets[t as int] == group.targets@[t as int]@);
                target_errors_exec(generics, g, t, &group.params, &group.targets[t], &mut errors);
                t = t + 1;
            }
        }
        g = g + 1;
    }
    if errors.len() == 0 {
        Ok(())
    } else {
        Err(errors)
    }
}

/// Finds the `#[erased(...)]` attribute of an item: there may be none, and
/// there may not be more than one; the one there is must be a list.
pub fn find_erased_attr(attrs: &Vec<Attr>) -> (r: Result<Option<usize>, DispatchError>)
    ensures
        ({
            let idx = spec_named_attr_indices(attrs@, "erased"@, 0);
            r == if idx.len() == 0 {
                Ok::<Option<usize>, DispatchError>(None)
            } else if idx.len() > 1 {
                Err(DispatchError::DuplicateAttribute { attr: idx[1] as usize })
            } else if !(attrs@[idx[0]].meta is List) {
                Err(DispatchError::NotAList { attr: idx[0] as usize })
            } else {
                Ok(Some(idx[0] as usize))
            }
        }),
{
    let ghost idx = spec_named_attr_indices(attrs@, "erased"@, 0);
    let n = attrs.len();
    let (first, rest) = find_single_attr_opt("erased", attrs);
    match first {
        None => {
            assert(idx.len() == 0);
            Ok(None)
        },
        Some(i) => {
            assert(idx.len() > 0);
            assert(rest@.len() == idx.len() - 1) by {
                assert(rest@.map_values(|x: usize| x as int).len() == rest@.len());
            }
            if rest.len() > 0 {
                assert(rest@.map_values(|x: usize| x as int)[0] == idx.drop_first()[0]);
                assert(rest@[0] as int == idx[1]);
                return Err(DispatchError::DuplicateAttribute { attr: rest[0] });
            }
            proof {
                lemma_named_attr_indices_in_range(attrs@, "erased"@, 0);
                assert(0 <= idx[0] < n);
                assert(first == Some(idx[0] as usize));
                assert(i as int == idx[0]);
            }
            match &attrs[i].meta {
                AttrMeta::List(_) => Ok(Some(i)),
                _ => Err(DispatchError::NotAList { attr: i }),
            }
        },
    }
}

} // verus!
