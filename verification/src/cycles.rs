//! Whether a selection of dispatch targets makes parameters depend on each
//! other in a cycle.
use vstd::prelude::*;
use crate::groups::{
    DispatchGroup, DispatchGroups, SpecGroup, groups_contain_param, groups_view,
    lemma_selections_valid, selections_view, spec_selections, valid_selection,
};
use crate::dispatch::{dispatch_target_mentions_param, target_mentions_param};
use crate::types::{SpecArg, SpecTy, Ty, strings_view};
use crate::order::{lemma_str_lt_irreflexive, lemma_str_lt_transitive, str_lt, strictly_sorted};
use vstd::set_lib::set_int_range;
use crate::text::str_eq;

verus! {

/// The value of an optional type.
pub open spec fn self_ty_view(t: Option<&Ty>) -> Option<SpecTy> {
    match t {
        Some(x) => Some(x@),
        None => None,
    }
}

/// The value of a selection of target indices.
pub open spec fn choice_view(v: Seq<usize>) -> Seq<int> {
    v.map_values(|x: usize| x as int)
}

/// Whether a target argument depends on the parameter `c`.
#[verifier::opaque]
pub open spec fn arg_depends(arg: SpecArg, c: Seq<char>, st: Option<SpecTy>) -> bool {
    target_mentions_param(arg, c, st)
}

/// Whether the `i`-th parameter of the `g`-th group is `p` and the selected
/// target gives it an argument that depends on `c`.
pub open spec fn dep_at(
    gs: Seq<SpecGroup>,
    choice: Seq<int>,
    st: Option<SpecTy>,
    p: Seq<char>,
    c: Seq<char>,
    g: int,
    i: int,
) -> bool {
    &&& 0 <= g < gs.len()
    &&& 0 <= i < gs[g].params.len()
    &&& gs[g].params[i] == p
    &&& 0 <= choice[g] < gs[g].targets.len()
    &&& i < gs[g].targets[choice[g]].args.len()
    &&& arg_depends(gs[g].targets[choice[g]].args[i], c, st)
}

/// Whether, under the selection, the parameter `p` depends on `c`.
pub open spec fn choice_depends(
    gs: Seq<SpecGroup>,
    choice: Seq<int>,
    st: Option<SpecTy>,
    p: Seq<char>,
    c: Seq<char>,
) -> bool {
    exists|g: int, i: int| #[trigger] dep_at(gs, choice, st, p, c, g, i)
}

/// Whether every parameter of the groups that `p` depends on is in `t`.
pub open spec fn deps_in(
    gs: Seq<SpecGroup>,
    choice: Seq<int>,
    st: Option<SpecTy>,
    p: Seq<char>,
    t: Set<Seq<char>>,
) -> bool {
    forall|c: Seq<char>|
        #![trigger choice_depends(gs, choice, st, p, c)]
        groups_contain_param(gs, c) && choice_depends(gs, choice, st, p, c) ==> t.contains(c)
}

/// Whether `t` holds every parameter of the groups whose dependencies are
/// all in `t`.
pub open spec fn settles(gs: Seq<SpecGroup>, choice: Seq<int>, st: Option<SpecTy>, t: Set<Seq<char>>) -> bool {
    forall|p: Seq<char>|
        #![trigger groups_contain_param(gs, p), t.contains(p)]
        groups_contain_param(gs, p) && deps_in(gs, choice, st, p, t) ==> t.contains(p)
}

/// Whether `r` is the smallest set that settles.
pub open spec fn is_settled(gs: Seq<SpecGroup>, choice: Seq<int>, st: Option<SpecTy>, r: Set<Seq<char>>) -> bool {
    &&& settles(gs, choice, st, r)
    &&& forall|t: Set<Seq<char>>| settles(gs, choice, st, t) ==> #[trigger] r.subset_of(t)
}

/// The parameters that are settled under the selection: those without
/// dependencies, then those whose dependencies are all settled, and so on.
pub open spec fn settled_params(gs: Seq<SpecGroup>, choice: Seq<int>, st: Option<SpecTy>) -> Set<Seq<char>> {
    choose|r: Set<Seq<char>>| is_settled(gs, choice, st, r)
}

/// The parameters of the groups that are never settled: those on or behind
/// a cycle of dependencies.
pub open spec fn cyclic_params(gs: Seq<SpecGroup>, choice: Seq<int>, st: Option<SpecTy>) -> Set<Seq<char>> {
    Set::new(|p: Seq<char>| groups_contain_param(gs, p) && !settled_params(gs, choice, st).contains(p))
}

/// Whether `m` is the first element of `s` in the order of strings.
pub open spec fn is_first(s: Set<Seq<char>>, m: Seq<char>) -> bool {
    s.contains(m) && forall|x: Seq<char>| s.contains(x) && x != m ==> #[trigger] str_lt(m, x)
}

/// The first cyclic parameter of a selection, if there is one.
pub open spec fn cycle_report(gs: Seq<SpecGroup>, choice: Seq<int>, st: Option<SpecTy>) -> Option<Seq<char>> {
    let s = cyclic_params(gs, choice, st);
    if exists|x: Seq<char>| s.contains(x) {
        Some(choose|m: Seq<char>| is_first(s, m))
    } else {
        None
    }
}

/// The report of the first of the selections from the `k`-th on that has one.
pub open spec fn first_cycle_report(
    gs: Seq<SpecGroup>,
    st: Option<SpecTy>,
    cs: Seq<Seq<int>>,
    k: int,
) -> Option<Seq<char>>
    decreases cs.len() - k,
{
    if k < 0 || k >= cs.len() {
        None
    } else {
        match cycle_report(gs, cs[k], st) {
            Some(m) => Some(m),
            None => first_cycle_report(gs, st, cs, k + 1),
        }
    }
}

/// The parameter that the check of a dispatch reports: the first cyclic
/// parameter of the first selection of targets that has one.
pub open spec fn spec_dispatch_cycle(gs: Seq<SpecGroup>, st: Option<SpecTy>) -> Option<Seq<char>> {
    first_cycle_report(gs, st, spec_selections(gs, gs.len() as int), 0)
}

/// There is a smallest set that settles: the parameters that every set that
/// settles holds.
pub proof fn lemma_settled_exists(gs: Seq<SpecGroup>, choice: Seq<int>, st: Option<SpecTy>)
    ensures
        is_settled(gs, choice, st, settled_params(gs, choice, st)),
{
    let r = Set::new(|x: Seq<char>| forall|t: Set<Seq<char>>| settles(gs, choice, st, t) ==> #[trigger] t.contains(x));
    assert forall|p: Seq<char>| #![trigger groups_contain_param(gs, p), r.contains(p)]
        groups_contain_param(gs, p) && deps_in(gs, choice, st, p, r) implies r.contains(p) by {
        assert forall|t: Set<Seq<char>>| settles(gs, choice, st, t) implies #[trigger] t.contains(p) by {
            assert(deps_in(gs, choice, st, p, t)) by {
                assert forall|c: Seq<char>| #![trigger choice_depends(gs, choice, st, p, c)]
                    groups_contain_param(gs, c) && choice_depends(gs, choice, st, p, c) implies t.contains(c) by {
                    assert(r.contains(c));
                }
            }
        }
    }
    assert forall|t: Set<Seq<char>>| settles(gs, choice, st, t) implies #[trigger] r.subset_of(t) by {
    }
    assert(is_settled(gs, choice, st, r));
}

/// A parameter whose selected target depends on the parameter itself is
/// never settled, so the selection is reported.
pub proof fn lemma_self_dependency_is_cyclic(gs: Seq<SpecGroup>, choice: Seq<int>, st: Option<SpecTy>, p: Seq<char>)
    requires
        groups_contain_param(gs, p),
        choice_depends(gs, choice, st, p, p),
    ensures
        cyclic_params(gs, choice, st).contains(p),
        cycle_report(gs, choice, st) is Some,
{
    lemma_settled_exists(gs, choice, st);
    let r = settled_params(gs, choice, st);
    if r.contains(p) {
        let r2 = r.remove(p);
        assert forall|q: Seq<char>| #![trigger groups_contain_param(gs, q), r2.contains(q)]
            groups_contain_param(gs, q) && deps_in(gs, choice, st, q, r2) implies r2.contains(q) by {
            assert(deps_in(gs, choice, st, q, r)) by {
                assert forall|c: Seq<char>| #![trigger choice_depends(gs, choice, st, q, c)]
                    groups_contain_param(gs, c) && choice_depends(gs, choice, st, q, c) implies r.contains(c) by {
                    assert(r2.contains(c));
                }
            }
            assert(r.contains(q));
            if q == p {
                assert(r2.contains(p));
            }
        }
        assert(settles(gs, choice, st, r2));
        assert(r.subset_of(r2));
        assert(r2.contains(p));
    }
    assert(cyclic_params(gs, choice, st).contains(p));
}

/// Where no selected target depends on any parameter, nothing is reported.
pub proof fn lemma_independent_is_acyclic(gs: Seq<SpecGroup>, choice: Seq<int>, st: Option<SpecTy>)
    requires
        forall|p: Seq<char>, c: Seq<char>| !#[trigger] choice_depends(gs, choice, st, p, c),
    ensures
        cycle_report(gs, choice, st) is None,
{
    lemma_settled_exists(gs, choice, st);
    let r = settled_params(gs, choice, st);
    assert forall|x: Seq<char>| !cyclic_params(gs, choice, st).contains(x) by {
        if groups_contain_param(gs, x) {
            assert(deps_in(gs, choice, st, x, r));
            assert(r.contains(x));
        }
    }
}

fn choice_depends_exec(
    groups: &Vec<DispatchGroup>,
    choice: &Vec<usize>,
    st: Option<&Ty>,
    p: &str,
    c: &str,
) -> (r: bool)
    requires
        choice@.len() == groups@.len(),
    ensures
        r == choice_depends(groups_view(groups@), choice_view(choice@), self_ty_view(st), p@, c@),
{
    let ghost gs = groups_view(groups@);
    let ghost cv = choice_view(choice@);
    let ghost stv = self_ty_view(st);
    let mut g: usize = 0;
    while g < groups.len()
        invariant
            gs == groups_view(groups@),
            cv == choice_view(choice@),
            stv == self_ty_view(st),
            choice@.len() == groups@.len(),
            g <= groups@.len(),
            forall|a: int, i: int| 0 <= a < g ==> !#[trigger] dep_at(gs, cv, stv, p@, c@, a, i),
        decreases groups@.len() - g,
    {
        let group = &groups[g];
        assert(gs[g as int] == group@);
        let mut i: usize = 0;
        while i < group.params.len()
            invariant
                gs == groups_view(groups@),
                cv == choice_view(choice@),
                stv == self_ty_view(st),
                choice@.len() == groups@.len(),
                g < groups@.len(),
                gs[g as int] == group@,
                i <= group.params@.len(),
                forall|a: int, j: int| 0 <= a < g ==> !#[trigger] dep_at(gs, cv, stv, p@, c@, a, j),
                forall|j: int| 0 <= j < i ==> !#[trigger] dep_at(gs, cv, stv, p@, c@, g as int, j),
            decreases group.params@.len() - i,
        {
            assert(gs[g as int].params[i as int] == group.params@[i as int]@);
            let t = choice[g];
            assert(cv[g as int] == t as int);
            if str_eq(group.params[i].as_str(), p) && t < group.targets.len() {
                let target = &group.targets[t];
                assert(gs[g as int].targets[t as int] == target@);
                if i < target.args.len() {
                    assert(gs[g as int].targets[t as int].args[i as int] == target.args@[i as int]@);
                    let d = dispatch_target_mentions_param(&target.args[i], c, st);
                    assert(d == arg_depends(target.args@[i as int]@, c@, stv)) by {
                        reveal(arg_depends);
                    }
                    if d {
                        assert(dep_at(gs, cv, stv, p@, c@, g as int, i as int));
                        return true;
                    }
                }
            }
            i = i + 1;
        }
        proof {
            assert forall|a: int, j: int| 0 <= a < g + 1 implies !#[trigger] dep_at(gs, cv, stv, p@, c@, a, j) by {
                if a == g && dep_at(gs, cv, stv, p@, c@, a, j) {
                    assert(j < i);
                }
            }
        }
        g = g + 1;
    }
    false
}

/// The names whose flag is set.
pub open spec fn flagged(names: Seq<Seq<char>>, flags: Seq<bool>) -> Set<Seq<char>> {
    Set::new(|x: Seq<char>| exists|a: int| 0 <= a < names.len() && a < flags.len() && flags[a] && #[trigger] names[a] == x)
}

/// The positions whose flag is set.
pub open spec fn marked(flags: Seq<bool>) -> Set<int> {
    Set::new(|a: int| 0 <= a < flags.len() && flags[a])
}

/// In strictly ascending names each name stands at one position.
proof fn lemma_sorted_distinct(s: Seq<Seq<char>>, a: int, b: int)
    requires
        strictly_sorted(s),
        0 <= a < s.len(),
        0 <= b < s.len(),
        s[a] == s[b],
    ensures
        a == b,
{
    if a < b {
        assert(str_lt(s[a], s[b]));
        lemma_str_lt_irreflexive(s[a]);
    } else if b < a {
        assert(str_lt(s[b], s[a]));
        lemma_str_lt_irreflexive(s[a]);
    }
}

fn all_flagged(row: &Vec<bool>, flags: &Vec<bool>) -> (r: bool)
    requires
        row@.len() == flags@.len(),
    ensures
        r == forall|b: int| 0 <= b < row@.len() && #[trigger] row@[b] ==> flags@[b],
{
    let mut b: usize = 0;
    while b < row.len()
        invariant
            row@.len() == flags@.len(),
            b <= row@.len(),
            forall|c: int| 0 <= c < b && #[trigger] row@[c] ==> flags@[c],
        decreases row@.len() - b,
    {
        if row[b] && !flags[b] {
            return false;
        }
        b = b + 1;
    }
    true
}

/// Setting the flag of a parameter whose dependencies are all flagged keeps
/// the flagged names below every set that settles.
proof fn lemma_mark_sound(
    gs: Seq<SpecGroup>,
    cv: Seq<int>,
    stv: Option<SpecTy>,
    av: Seq<Seq<char>>,
    dm: Seq<Seq<bool>>,
    flags: Seq<bool>,
    a: int,
)
    requires
        strictly_sorted(av),
        forall|c: Seq<char>| #[trigger] av.contains(c) == groups_contain_param(gs, c),
        dm.len() == av.len(),
        flags.len() == av.len(),
        forall|x: int, y: int|
            0 <= x < av.len() && 0 <= y < av.len() ==> #[trigger] dm[x][y] == choice_depends(gs, cv, stv, av[x], av[y]),
        forall|x: int| 0 <= x < av.len() ==> (#[trigger] dm[x]).len() == av.len(),
        forall|t: Set<Seq<char>>| settles(gs, cv, stv, t) ==> #[trigger] flagged(av, flags).subset_of(t),
        0 <= a < av.len(),
        forall|b: int| 0 <= b < av.len() && #[trigger] dm[a][b] ==> flags[b],
    ensures
        forall|t: Set<Seq<char>>| settles(gs, cv, stv, t) ==> #[trigger] flagged(av, flags.update(a, true)).subset_of(t),
{
    assert forall|t: Set<Seq<char>>| settles(gs, cv, stv, t) implies #[trigger] flagged(av, flags.update(a, true)).subset_of(t) by {
        assert(flagged(av, flags).subset_of(t));
        assert(deps_in(gs, cv, stv, av[a], t)) by {
            assert forall|c: Seq<char>| #![trigger choice_depends(gs, cv, stv, av[a], c)]
                groups_contain_param(gs, c) && choice_depends(gs, cv, stv, av[a], c) implies t.contains(c) by {
                assert(av.contains(c));
                let b = choose|b: int| 0 <= b < av.len() && av[b] == c;
                assert(dm[a][b]);
                assert(flagged(av, flags).contains(av[b]));
            }
        }
        assert(av.contains(av[a]));
        assert(groups_contain_param(gs, av[a]));
        assert(t.contains(av[a]));
        assert forall|x: Seq<char>| flagged(av, flags.update(a, true)).contains(x) implies t.contains(x) by {
            let k = choose|k: int| 0 <= k < av.len() && k < flags.update(a, true).len() && flags.update(a, true)[k] && #[trigger] av[k] == x;
            if k != a {
                assert(flagged(av, flags).contains(x));
            }
        }
    }
}

/// Flags that no parameter's flag could be set settle.
proof fn lemma_stuck_settles(
    gs: Seq<SpecGroup>,
    cv: Seq<int>,
    stv: Option<SpecTy>,
    av: Seq<Seq<char>>,
    dm: Seq<Seq<bool>>,
    flags: Seq<bool>,
)
    requires
        strictly_sorted(av),
        forall|c: Seq<char>| #[trigger] av.contains(c) == groups_contain_param(gs, c),
        dm.len() == av.len(),
        flags.len() == av.len(),
        forall|x: int, y: int|
            0 <= x < av.len() && 0 <= y < av.len() ==> #[trigger] dm[x][y] == choice_depends(gs, cv, stv, av[x], av[y]),
        forall|x: int|
            0 <= x < av.len() ==> flags[x] || exists|y: int| 0 <= y < av.len() && #[trigger] dm[x][y] && !flags[y],
    ensures
        settles(gs, cv, stv, flagged(av, flags)),
{
    let r = flagged(av, flags);
    assert forall|p: Seq<char>| #![trigger groups_contain_param(gs, p), r.contains(p)]
        groups_contain_param(gs, p) && deps_in(gs, cv, stv, p, r) implies r.contains(p) by {
        assert(av.contains(p));
        let a = choose|a: int| 0 <= a < av.len() && av[a] == p;
        if !flags[a] {
            let b = choose|b: int| 0 <= b < av.len() && #[trigger] dm[a][b] && !flags[b];
            assert(av.contains(av[b]));
            assert(choice_depends(gs, cv, stv, p, av[b]));
            assert(r.contains(av[b]));
            let k = choose|k: int| 0 <= k < av.len() && k < flags.len() && flags[k] && #[trigger] av[k] == av[b];
            lemma_sorted_distinct(av, k, b);
        }
        assert(r.contains(av[a]));
    }
}

fn settled_flags(groups: &Vec<DispatchGroup>, all: &Vec<String>, choice: &Vec<usize>, st: Option<&Ty>) -> (flags: Vec<bool>)
    requires
        choice@.len() == groups@.len(),
        strictly_sorted(strings_view(all@)),
        forall|c: Seq<char>| #[trigger] strings_view(all@).contains(c) == groups_contain_param(groups_view(groups@), c),
    ensures
        flags@.len() == all@.len(),
        is_settled(groups_view(groups@), choice_view(choice@), self_ty_view(st), flagged(strings_view(all@), flags@)),
{
    let ghost gs = groups_view(groups@);
    let ghost cv = choice_view(choice@);
    let ghost stv = self_ty_view(st);
    let ghost av = strings_view(all@);
    let n = all.len();
    let mut dm: Vec<Vec<bool>> = Vec::new();
    let mut a: usize = 0;
    while a < n
        invariant
            n == all@.len(),
            av == strings_view(all@),
            gs == groups_view(groups@),
            cv == choice_view(choice@),
            stv == self_ty_view(st),
            choice@.len() == groups@.len(),
            a <= n,
            dm@.len() == a,
            forall|x: int| 0 <= x < a ==> (#[trigger] dm@[x])@.len() == n,
            forall|x: int, y: int|
                0 <= x < a && 0 <= y < n ==> #[trigger] dm@[x]@[y] == choice_depends(gs, cv, stv, av[x], av[y]),
        decreases n - a,
    {
        let mut row: Vec<bool> = Vec::new();
        let mut b: usize = 0;
        while b < n
            invariant
                n == all@.len(),
                av == strings_view(all@),
                gs == groups_view(groups@),
                cv == choice_view(choice@),
                stv == self_ty_view(st),
                choice@.len() == groups@.len(),
                a < n,
                b <= n,
                row@.len() == b,
                forall|y: int| 0 <= y < b ==> #[trigger] row@[y] == choice_depends(gs, cv, stv, av[a as int], av[y]),
            decreases n - b,
        {
            assert(av[a as int] == all@[a as int]@);
            assert(av[b as int] == all@[b as int]@);
            row.push(choice_depends_exec(groups, choice, st, all[a].as_str(), all[b].as_str()));
            b = b + 1;
        }
        dm.push(row);
        a = a + 1;
    }
    let ghost dmv = Seq::new(n as nat, |x: int| dm@[x]@);
    let mut flags: Vec<bool> = Vec::new();
    let mut k: usize = 0;
    while k < n
        invariant
            k <= n,
            flags@.len() == k,
            forall|x: int| 0 <= x < k ==> !#[trigger] flags@[x],
        decreases n - k,
    {
        flags.push(false);
        k = k + 1;
    }
    proof {
        assert forall|t: Set<Seq<char>>| settles(gs, cv, stv, t) implies #[trigger] flagged(av, flags@).subset_of(t) by {
            assert forall|x: Seq<char>| flagged(av, flags@).contains(x) implies t.contains(x) by {
                let j = choose|j: int| 0 <= j < av.len() && j < flags@.len() && flags@[j] && #[trigger] av[j] == x;
            }
        }
        vstd::set_lib::lemma_int_range(0, n as int);
    }
    loop
        invariant
            n == all@.len(),
            av == strings_view(all@),
            gs == groups_view(groups@),
            cv == choice_view(choice@),
            stv == self_ty_view(st),
            strictly_sorted(av),
            forall|c: Seq<char>| #[trigger] av.contains(c) == groups_contain_param(gs, c),
            dm@.len() == n,
            dmv == Seq::new(n as nat, |x: int| dm@[x]@),
            forall|x: int| 0 <= x < n ==> (#[trigger] dm@[x])@.len() == n,
            forall|x: int, y: int|
                0 <= x < n && 0 <= y < n ==> #[trigger] dmv[x][y] == choice_depends(gs, cv, stv, av[x], av[y]),
            flags@.len() == n,
            set_int_range(0, n as int).finite(),
            set_int_range(0, n as int).len() == n,
            forall|t: Set<Seq<char>>| settles(gs, cv, stv, t) ==> #[trigger] flagged(av, flags@).subset_of(t),
        ensures
            flags@.len() == n,
            forall|t: Set<Seq<char>>| settles(gs, cv, stv, t) ==> #[trigger] flagged(av, flags@).subset_of(t),
            forall|x: int|
                0 <= x < n ==> flags@[x] || exists|y: int| 0 <= y < n && #[trigger] dmv[x][y] && !flags@[y],
        decreases n - marked(flags@).len(),
    {
        let ghost start = flags@;
        let mut changed = false;
        let mut a: usize = 0;
        while a < n
            invariant
                n == all@.len(),
                av == strings_view(all@),
                strictly_sorted(av),
                forall|c: Seq<char>| #[trigger] av.contains(c) == groups_contain_param(gs, c),
                dm@.len() == n,
                dmv == Seq::new(n as nat, |x: int| dm@[x]@),
                forall|x: int| 0 <= x < n ==> (#[trigger] dm@[x])@.len() == n,
                forall|x: int, y: int|
                    0 <= x < n && 0 <= y < n ==> #[trigger] dmv[x][y] == choice_depends(gs, cv, stv, av[x], av[y]),
                flags@.len() == n,
                a <= n,
                forall|t: Set<Seq<char>>| settles(gs, cv, stv, t) ==> #[trigger] flagged(av, flags@).subset_of(t),
                marked(start).subset_of(marked(flags@)),
                changed ==> exists|y: int| #[trigger] marked(flags@).contains(y) && !marked(start).contains(y),
                !changed ==> flags@ == start,
                !changed ==> forall|x: int|
                    0 <= x < a ==> flags@[x] || exists|y: int| 0 <= y < n && #[trigger] dmv[x][y] && !flags@[y],
            decreases n - a,
        {
            if !flags[a] && all_flagged(&dm[a], &flags) {
                proof {
                    assert forall|b: int| 0 <= b < av.len() && #[trigger] dmv[a as int][b] implies flags@[b] by {
                        assert(dm@[a as int]@[b] == dmv[a as int][b]);
                    }
                    lemma_mark_sound(gs, cv, stv, av, dmv, flags@, a as int);
                }
                let ghost before = flags@;
                flags.set(a, true);
                proof {
                    assert(flags@ == before.update(a as int, true));
                    assert(marked(flags@) =~= marked(before).insert(a as int));
                    if !changed {
                        assert(!marked(start).contains(a as int));
                        assert(marked(flags@).contains(a as int));
                    } else {
                        let y = choose|y: int| #[trigger] marked(before).contains(y) && !marked(start).contains(y);
                        assert(marked(flags@).contains(y));
                    }
                }
                changed = true;
            } else {
                proof {
                    if !changed && !flags@[a as int] {
                        let y = choose|y: int| 0 <= y < n && #[trigger] dm@[a as int]@[y] && !flags@[y];
                        assert(dmv[a as int][y] == dm@[a as int]@[y]);
                    }
                }
            }
            a = a + 1;
        }
        if !changed {
            break;
        }
        proof {
            assert(marked(flags@).subset_of(set_int_range(0, n as int)));
            vstd::set_lib::lemma_len_subset(marked(flags@), set_int_range(0, n as int));
            let y = choose|y: int| #[trigger] marked(flags@).contains(y) && !marked(start).contains(y);
            vstd::set_lib::lemma_len_subset(marked(start).insert(y), marked(flags@));
            vstd::set_lib::lemma_len_subset(marked(start), marked(flags@));
        }
    }
    proof {
        lemma_stuck_settles(gs, cv, stv, av, dmv, flags@);
    }
    flags
}

/// What the flags say of a selection's report: none where every parameter
/// is settled, else the first one that is not.
proof fn lemma_report(
    gs: Seq<SpecGroup>,
    cv: Seq<int>,
    stv: Option<SpecTy>,
    av: Seq<Seq<char>>,
    flags: Seq<bool>,
    a: int,
)
    requires
        strictly_sorted(av),
        forall|c: Seq<char>| #[trigger] av.contains(c) == groups_contain_param(gs, c),
        flags.len() == av.len(),
        is_settled(gs, cv, stv, flagged(av, flags)),
        0 <= a <= av.len(),
        forall|j: int| 0 <= j < a ==> flags[j],
        a < av.len() ==> !flags[a],
    ensures
        cycle_report(gs, cv, stv) == if a < av.len() {
            Some(av[a])
        } else {
            None::<Seq<char>>
        },
{
    let r = flagged(av, flags);
    let sp = settled_params(gs, cv, stv);
    assert(is_settled(gs, cv, stv, sp));
    assert(sp.subset_of(r));
    assert(r.subset_of(sp));
    assert(sp =~= r);
    let cyc = cyclic_params(gs, cv, stv);
    if a < av.len() {
        assert(av.contains(av[a]));
        assert(!r.contains(av[a])) by {
            if r.contains(av[a]) {
                let k = choose|k: int| 0 <= k < av.len() && k < flags.len() && flags[k] && #[trigger] av[k] == av[a];
                lemma_sorted_distinct(av, k, a);
            }
        }
        assert(cyc.contains(av[a]));
        assert(is_first(cyc, av[a])) by {
            assert forall|x: Seq<char>| cyc.contains(x) && x != av[a] implies #[trigger] str_lt(av[a], x) by {
                assert(av.contains(x));
                let j = choose|j: int| 0 <= j < av.len() && av[j] == x;
                if flags[j] {
                    assert(r.contains(x));
                }
                assert(j > a);
            }
        }
        let m = choose|m: Seq<char>| is_first(cyc, m);
        assert(is_first(cyc, m));
        if m != av[a] {
            assert(str_lt(av[a], m));
            assert(str_lt(m, av[a]));
            lemma_str_lt_transitive(av[a], m, av[a]);
            lemma_str_lt_irreflexive(av[a]);
        }
    } else {
        assert forall|x: Seq<char>| !cyc.contains(x) by {
            if cyc.contains(x) {
                assert(av.contains(x));
                let j = choose|j: int| 0 <= j < av.len() && av[j] == x;
                assert(flags[j]);
                assert(r.contains(x));
            }
        }
    }
}

/// Checks the dispatch of an item: under every selection of one target per
/// group, no parameter's target may depend on the parameter itself, directly
/// or through other parameters (through `Self` too where the item is
/// implemented for `self_ty`). On failure, the first cyclic parameter of the
/// first selection that has one.
pub fn validate_dispatch_cycles(dispatch: &DispatchGroups, self_ty: Option<&Ty>) -> (r: Result<(), String>)
    ensures
        match r {
            Ok(_) => spec_dispatch_cycle(dispatch@, self_ty_view(self_ty)) is None,
            Err(p) => spec_dispatch_cycle(dispatch@, self_ty_view(self_ty)) == Some(p@),
        },
{
    let groups = dispatch.groups();
    let all = dispatch.all_params();
    let combos = dispatch.combinations();
    let ghost gs = dispatch@;
    let ghost stv = self_ty_view(self_ty);
    let ghost cs = spec_selections(gs, gs.len() as int);
    let ghost av = strings_view(all@);
    proof {
        lemma_selections_valid(gs, gs.len() as int);
    }
    let mut k: usize = 0;
    while k < combos.len()
        invariant
            gs == dispatch@,
            gs == groups_view(groups@),
            stv == self_ty_view(self_ty),
            cs == spec_selections(gs, gs.len() as int),
            selections_view(combos@) == cs,
            av == strings_view(all@),
            strictly_sorted(av),
            forall|c: Seq<char>| #[trigger] av.contains(c) == groups_contain_param(gs, c),
            forall|j: int| 0 <= j < cs.len() ==> valid_selection(gs, gs.len() as int, #[trigger] cs[j]),
            k <= combos@.len(),
            first_cycle_report(gs, stv, cs, 0) == first_cycle_report(gs, stv, cs, k as int),
        decreases combos@.len() - k,
    {
        let choice = &combos[k];
        assert(cs[k as int] == choice_view(choice@));
        assert(valid_selection(gs, gs.len() as int, cs[k as int]));
        let flags = settled_flags(groups, &all, choice, self_ty);
        let mut a: usize = 0;
        while a < all.len() && flags[a]
            invariant
                flags@.len() == all@.len(),
                a <= all@.len(),
                forall|j: int| 0 <= j < a ==> flags@[j],
            decreases all@.len() - a,
        {
            a = a + 1;
        }
        proof {
            lemma_report(gs, cs[k as int], stv, av, flags@, a as int);
        }
        if a < all.len() {
            assert(av[a as int] == all@[a as int]@);
            return Err(all[a].clone());
        }
        k = k + 1;
    }
    Ok(())
}

} // verus!
