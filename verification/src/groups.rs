//! The dispatch groups of an item: which generic parameters are instantiated
//! together, over which concrete targets, kept in the order of their
//! parameter lists.
use vstd::prelude::*;
use crate::types::{GenericArg, SpecArg, generic_args_view, strings_view};
use crate::order::{str_lt, str_less, lemma_str_lt_irreflexive, lemma_str_lt_transitive, lemma_str_lt_total};
use crate::text::str_eq;
use crate::dispatch::{arg_refers, arg_refers_exec};
use crate::order::{strictly_sorted, insert_sorted, lemma_sorted_unique};
use crate::equality::generic_args_equal;

verus! {

/// One concrete target of a group, `<A, B>` (or `::<A, B>`).
#[derive(Debug, PartialEq, Eq)]
pub struct DispatchTarget {
    pub turbofish: bool,
    pub args: Vec<GenericArg>,
}

/// The value of a target.
pub struct SpecTarget {
    pub turbofish: bool,
    pub args: Seq<SpecArg>,
}

impl View for DispatchTarget {
    type V = SpecTarget;

    open spec fn view(&self) -> SpecTarget {
        SpecTarget { turbofish: self.turbofish, args: generic_args_view(self.args@) }
    }
}

/// The values of a sequence of targets.
pub open spec fn targets_view(s: Seq<DispatchTarget>) -> Seq<SpecTarget> {
    Seq::new(s.len(), |i: int| s[i]@)
}

/// A group: parameters instantiated together, and their targets.
#[derive(Debug, PartialEq, Eq)]
pub struct DispatchGroup {
    pub params: Vec<String>,
    pub targets: Vec<DispatchTarget>,
}

/// The value of a group.
pub struct SpecGroup {
    pub params: Seq<Seq<char>>,
    pub targets: Seq<SpecTarget>,
}

impl View for DispatchGroup {
    type V = SpecGroup;

    open spec fn view(&self) -> SpecGroup {
        SpecGroup { params: strings_view(self.params@), targets: targets_view(self.targets@) }
    }
}

/// The values of a sequence of groups.
pub open spec fn groups_view(s: Seq<DispatchGroup>) -> Seq<SpecGroup> {
    Seq::new(s.len(), |i: int| s[i]@)
}

/// Whether the parameter list `a` comes strictly before `b`: name by name in
/// the order of strings, a proper prefix first.
pub open spec fn key_lt(a: Seq<Seq<char>>, b: Seq<Seq<char>>) -> bool
    decreases a.len(),
{
    if a.len() == 0 {
        b.len() > 0
    } else if b.len() == 0 {
        false
    } else if a[0] != b[0] {
        str_lt(a[0], b[0])
    } else {
        key_lt(a.drop_first(), b.drop_first())
    }
}

/// Whether the groups come strictly ascending by their parameter lists.
pub open spec fn keys_sorted(gs: Seq<SpecGroup>) -> bool {
    forall|i: int, j: int| 0 <= i < j < gs.len() ==> key_lt(#[trigger] gs[i].params, #[trigger] gs[j].params)
}

/// Whether some group has the parameter list `k`.
pub open spec fn has_key(gs: Seq<SpecGroup>, k: Seq<Seq<char>>) -> bool {
    exists|i: int| 0 <= i < gs.len() && #[trigger] gs[i].params == k
}

/// The groups as a map from parameter lists to targets.
pub open spec fn groups_map(gs: Seq<SpecGroup>) -> Map<Seq<Seq<char>>, Seq<SpecTarget>> {
    Map::new(
        |k: Seq<Seq<char>>| has_key(gs, k),
        |k: Seq<Seq<char>>| gs[choose|i: int| 0 <= i < gs.len() && #[trigger] gs[i].params == k].targets,
    )
}

/// No parameter list comes before itself.
pub proof fn lemma_key_lt_irreflexive(a: Seq<Seq<char>>)
    ensures
        !key_lt(a, a),
    decreases a.len(),
{
    if a.len() > 0 {
        lemma_key_lt_irreflexive(a.drop_first());
    }
}

/// The order of parameter lists is transitive.
pub proof fn lemma_key_lt_transitive(a: Seq<Seq<char>>, b: Seq<Seq<char>>, c: Seq<Seq<char>>)
    requires
        key_lt(a, b),
        key_lt(b, c),
    ensures
        key_lt(a, c),
    decreases a.len(),
{
    if a.len() > 0 && b.len() > 0 && c.len() > 0 {
        if a[0] == b[0] && b[0] == c[0] {
            lemma_key_lt_transitive(a.drop_first(), b.drop_first(), c.drop_first());
        } else if a[0] != b[0] && b[0] != c[0] {
            lemma_str_lt_transitive(a[0], b[0], c[0]);
            if a[0] == c[0] {
                lemma_str_lt_irreflexive(a[0]);
            }
        }
    }
}

/// Of two different parameter lists, one comes first.
pub proof fn lemma_key_lt_total(a: Seq<Seq<char>>, b: Seq<Seq<char>>)
    requires
        a != b,
    ensures
        key_lt(a, b) || key_lt(b, a),
    decreases a.len(),
{
    if a.len() > 0 && b.len() > 0 {
        if a[0] == b[0] {
            if a.drop_first() == b.drop_first() {
                assert(a =~= seq![a[0]] + a.drop_first());
                assert(b =~= seq![b[0]] + b.drop_first());
            }
            lemma_key_lt_total(a.drop_first(), b.drop_first());
        } else {
            lemma_str_lt_total(a[0], b[0]);
        }
    } else if a.len() == 0 && b.len() == 0 {
        assert(a =~= b);
    }
}

/// In sorted groups a parameter list names at most one group.
proof fn lemma_sorted_key_unique(gs: Seq<SpecGroup>, i: int, j: int)
    requires
        keys_sorted(gs),
        0 <= i < gs.len(),
        0 <= j < gs.len(),
        gs[i].params == gs[j].params,
    ensures
        i == j,
{
    if i < j {
        assert(key_lt(gs[i].params, gs[j].params));
        lemma_key_lt_irreflexive(gs[i].params);
    } else if j < i {
        assert(key_lt(gs[j].params, gs[i].params));
        lemma_key_lt_irreflexive(gs[i].params);
    }
}

/// In sorted groups the map gives each group's targets for its parameters.
proof fn lemma_map_at(gs: Seq<SpecGroup>, i: int)
    requires
        keys_sorted(gs),
        0 <= i < gs.len(),
    ensures
        groups_map(gs).contains_key(gs[i].params),
        groups_map(gs)[gs[i].params] == gs[i].targets,
{
    let k = gs[i].params;
    assert(has_key(gs, k));
    let j = choose|j: int| 0 <= j < gs.len() && #[trigger] gs[j].params == k;
    lemma_sorted_key_unique(gs, i, j);
}

/// Setting the targets of the `i`-th group sets them in the map.
proof fn lemma_map_update(os: Seq<SpecGroup>, i: int, t: Seq<SpecTarget>)
    requires
        keys_sorted(os),
        0 <= i < os.len(),
    ensures
        ({
            let ns = os.update(i, SpecGroup { params: os[i].params, targets: t });
            &&& keys_sorted(ns)
            &&& groups_map(ns) == groups_map(os).insert(os[i].params, t)
        }),
{
    let k = os[i].params;
    let ns = os.update(i, SpecGroup { params: k, targets: t });
    assert(keys_sorted(ns)) by {
        assert forall|p: int, q: int| 0 <= p < q < ns.len() implies key_lt(#[trigger] ns[p].params, #[trigger] ns[q].params) by {
            assert(ns[p].params == os[p].params);
            assert(ns[q].params == os[q].params);
        }
    }
    let m = groups_map(os).insert(k, t);
    assert forall|x: Seq<Seq<char>>| #[trigger] groups_map(ns).contains_key(x) == m.contains_key(x) by {
        if has_key(ns, x) {
            let j = choose|j: int| 0 <= j < ns.len() && #[trigger] ns[j].params == x;
            assert(os[j].params == x);
            lemma_map_at(os, j);
        }
        if has_key(os, x) {
            let j = choose|j: int| 0 <= j < os.len() && #[trigger] os[j].params == x;
            assert(ns[j].params == x);
        }
    }
    assert forall|x: Seq<Seq<char>>| #[trigger] groups_map(ns).contains_key(x) implies groups_map(ns)[x] == m[x] by {
        let j = choose|j: int| 0 <= j < ns.len() && #[trigger] ns[j].params == x;
        lemma_map_at(ns, j);
        lemma_map_at(os, j);
        if j == i {
        } else {
            assert(x != k) by {
                if x == k {
                    lemma_sorted_key_unique(os, i, j);
                }
            }
        }
    }
    assert(groups_map(ns) =~= m);
}

/// Adding a group at its place in the order adds it to the map.
proof fn lemma_map_insert(os: Seq<SpecGroup>, i: int, k: Seq<Seq<char>>, t: Seq<SpecTarget>)
    requires
        keys_sorted(os),
        0 <= i <= os.len(),
        forall|q: int| 0 <= q < i ==> key_lt(#[trigger] os[q].params, k),
        i < os.len() ==> key_lt(k, os[i].params),
    ensures
        ({
            let ns = os.insert(i, SpecGroup { params: k, targets: t });
            &&& keys_sorted(ns)
            &&& groups_map(ns) == groups_map(os).insert(k, t)
        }),
{
    let ns = os.insert(i, SpecGroup { params: k, targets: t });
    assert(keys_sorted(ns)) by {
        assert forall|p: int, q: int| 0 <= p < q < ns.len() implies key_lt(#[trigger] ns[p].params, #[trigger] ns[q].params) by {
            if q < i {
            } else if q == i {
            } else if p < i {
                if q - 1 > i {
                    lemma_key_lt_transitive(k, os[i].params, os[q - 1].params);
                }
                lemma_key_lt_transitive(os[p].params, k, os[q - 1].params);
            } else if p == i {
                if q - 1 > i {
                    lemma_key_lt_transitive(k, os[i].params, os[q - 1].params);
                }
            }
        }
    }
    let m = groups_map(os).insert(k, t);
    assert forall|x: Seq<Seq<char>>| #[trigger] groups_map(ns).contains_key(x) == m.contains_key(x) by {
        if has_key(ns, x) {
            let j = choose|j: int| 0 <= j < ns.len() && #[trigger] ns[j].params == x;
            if j < i {
                assert(os[j].params == x);
            } else if j > i {
                assert(os[j - 1].params == x);
            }
        }
        if has_key(os, x) {
            let j = choose|j: int| 0 <= j < os.len() && #[trigger] os[j].params == x;
            if j < i {
                assert(ns[j].params == x);
            } else {
                assert(ns[j + 1].params == x);
            }
        }
        if x == k {
            assert(ns[i].params == x);
        }
    }
    assert forall|x: Seq<Seq<char>>| #[trigger] groups_map(ns).contains_key(x) implies groups_map(ns)[x] == m[x] by {
        let j = choose|j: int| 0 <= j < ns.len() && #[trigger] ns[j].params == x;
        lemma_map_at(ns, j);
        if j < i {
            assert(ns[j] == os[j]);
            lemma_map_at(os, j);
            assert(x != k) by {
                if x == k {
                    lemma_sorted_key_unique(ns, i, j);
                }
            }
        } else if j > i {
            assert(ns[j] == os[j - 1]);
            lemma_map_at(os, j - 1);
            assert(x != k) by {
                if x == k {
                    lemma_sorted_key_unique(ns, i, j);
                }
            }
        }
    }
    assert(groups_map(ns) =~= m);
}

/// Groups ascending by parameter list are determined by their map: two
/// such lists of groups with the same map are the same.
pub proof fn lemma_groups_determined_by_map(a: Seq<SpecGroup>, b: Seq<SpecGroup>)
    requires
        keys_sorted(a),
        keys_sorted(b),
        groups_map(a) == groups_map(b),
    ensures
        a == b,
    decreases a.len(),
{
    if a.len() == 0 {
        if b.len() > 0 {
            lemma_map_at(b, 0);
        }
        assert(a =~= b);
    } else if b.len() == 0 {
        lemma_map_at(a, 0);
    } else {
        lemma_map_at(a, 0);
        lemma_map_at(b, 0);
        let i = choose|i: int| 0 <= i < b.len() && #[trigger] b[i].params == a[0].params;
        let j = choose|j: int| 0 <= j < a.len() && #[trigger] a[j].params == b[0].params;
        if i != 0 {
            assert(key_lt(b[0].params, b[i].params));
            if j != 0 {
                assert(key_lt(a[0].params, a[j].params));
                lemma_key_lt_transitive(a[0].params, b[0].params, a[0].params);
            } else {
                lemma_key_lt_irreflexive(a[0].params);
            }
            lemma_key_lt_irreflexive(a[0].params);
        }
        assert(a[0].params == b[0].params);
        lemma_map_at(a, 0);
        lemma_map_at(b, 0);
        assert(a[0] == b[0]);
        let a1 = a.drop_first();
        let b1 = b.drop_first();
        assert(keys_sorted(a1)) by {
            assert forall|p: int, q: int| 0 <= p < q < a1.len() implies key_lt(#[trigger] a1[p].params, #[trigger] a1[q].params) by {
                assert(a1[p] == a[p + 1] && a1[q] == a[q + 1]);
            }
        }
        assert(keys_sorted(b1)) by {
            assert forall|p: int, q: int| 0 <= p < q < b1.len() implies key_lt(#[trigger] b1[p].params, #[trigger] b1[q].params) by {
                assert(b1[p] == b[p + 1] && b1[q] == b[q + 1]);
            }
        }
        assert forall|k: Seq<Seq<char>>| #[trigger] groups_map(a1).contains_key(k) == groups_map(b1).contains_key(k) by {
            if has_key(a1, k) {
                let x = choose|x: int| 0 <= x < a1.len() && #[trigger] a1[x].params == k;
                assert(a[x + 1].params == k);
                lemma_map_at(a, x + 1);
                let y = choose|y: int| 0 <= y < b.len() && #[trigger] b[y].params == k;
                if y == 0 {
                    lemma_sorted_key_unique(a, 0, x + 1);
                }
                assert(b1[y - 1].params == k);
            }
            if has_key(b1, k) {
                let x = choose|x: int| 0 <= x < b1.len() && #[trigger] b1[x].params == k;
                assert(b[x + 1].params == k);
                lemma_map_at(b, x + 1);
                let y = choose|y: int| 0 <= y < a.len() && #[trigger] a[y].params == k;
                if y == 0 {
                    lemma_sorted_key_unique(b, 0, x + 1);
                }
                assert(a1[y - 1].params == k);
            }
        }
        assert forall|k: Seq<Seq<char>>| #[trigger] groups_map(a1).contains_key(k) implies groups_map(a1)[k] == groups_map(b1)[k] by {
            let x = choose|x: int| 0 <= x < a1.len() && #[trigger] a1[x].params == k;
            let y = choose|y: int| 0 <= y < b1.len() && #[trigger] b1[y].params == k;
            lemma_map_at(a1, x);
            lemma_map_at(b1, y);
            assert(a[x + 1] == a1[x]);
            assert(b[y + 1] == b1[y]);
            lemma_map_at(a, x + 1);
            lemma_map_at(b, y + 1);
        }
        assert(groups_map(a1) =~= groups_map(b1));
        lemma_groups_determined_by_map(a1, b1);
        assert(a =~= seq![a[0]] + a1);
        assert(b =~= seq![b[0]] + b1);
    }
}

/// Whether `a` comes strictly before `b`.
pub fn key_less(a: &Vec<String>, b: &Vec<String>) -> (r: bool)
    ensures
        r == key_lt(strings_view(a@), strings_view(b@)),
{
    let ghost sa = strings_view(a@);
    let ghost sb = strings_view(b@);
    let mut i: usize = 0;
    assert(sa.skip(0) =~= sa);
    assert(sb.skip(0) =~= sb);
    while i < a.len() && i < b.len()
        invariant
            sa == strings_view(a@),
            sb == strings_view(b@),
            i <= a@.len(),
            i <= b@.len(),
            key_lt(sa, sb) == key_lt(sa.skip(i as int), sb.skip(i as int)),
        decreases a@.len() - i,
    {
        assert(sa.skip(i as int)[0] == a@[i as int]@);
        assert(sb.skip(i as int)[0] == b@[i as int]@);
        if !str_eq(a[i].as_str(), b[i].as_str()) {
            return str_less(a[i].as_str(), b[i].as_str());
        }
        assert(sa.skip(i as int).drop_first() =~= sa.skip(i + 1));
        assert(sb.skip(i as int).drop_first() =~= sb.skip(i + 1));
        i = i + 1;
    }
    i == a.len() && i < b.len()
}

/// Whether the two parameter lists are the same.
pub fn keys_equal(a: &Vec<String>, b: &Vec<String>) -> (r: bool)
    ensures
        r == (strings_view(a@) == strings_view(b@)),
{
    if a.len() != b.len() {
        assert(strings_view(a@).len() != strings_view(b@).len());
        return false;
    }
    let mut i: usize = 0;
    while i < a.len()
        invariant
            a@.len() == b@.len(),
            i <= a@.len(),
            forall|j: int| 0 <= j < i ==> a@[j]@ == b@[j]@,
        decreases a@.len() - i,
    {
        if !str_eq(a[i].as_str(), b[i].as_str()) {
            assert(strings_view(a@)[i as int] != strings_view(b@)[i as int]);
            return false;
        }
        i = i + 1;
    }
    assert(strings_view(a@) =~= strings_view(b@));
    true
}

/// The map of the first `n + 1` sorted groups adds the `n`-th to that of the
/// first `n`.
proof fn lemma_map_take(gs: Seq<SpecGroup>, n: int)
    requires
        keys_sorted(gs),
        0 <= n < gs.len(),
    ensures
        keys_sorted(gs.take(n)),
        keys_sorted(gs.take(n + 1)),
        groups_map(gs.take(n + 1)) == groups_map(gs.take(n)).insert(gs[n].params, gs[n].targets),
{
    let a = gs.take(n);
    let b = gs.take(n + 1);
    assert(b =~= a.insert(n, gs[n]));
    assert forall|q: int| 0 <= q < n implies key_lt(#[trigger] a[q].params, gs[n].params) by {
        assert(a[q] == gs[q]);
    }
    lemma_map_insert(a, n, gs[n].params, gs[n].targets);
    assert(gs[n] == SpecGroup { params: gs[n].params, targets: gs[n].targets });
}

fn clone_target(t: &DispatchTarget) -> (r: DispatchTarget)
    ensures
        r@ == t@,
{
    let mut args: Vec<GenericArg> = Vec::new();
    let mut i: usize = 0;
    while i < t.args.len()
        invariant
            i <= t.args@.len(),
            args@.len() == i,
            forall|j: int| 0 <= j < i ==> (#[trigger] args@[j])@ == t.args@[j]@,
        decreases t.args@.len() - i,
    {
        args.push(t.args[i].clone());
        i = i + 1;
    }
    assert(generic_args_view(args@) =~= generic_args_view(t.args@));
    DispatchTarget { turbofish: t.turbofish, args }
}

pub(crate) fn clone_targets(v: &Vec<DispatchTarget>) -> (r: Vec<DispatchTarget>)
    ensures
        targets_view(r@) == targets_view(v@),
{
    let mut out: Vec<DispatchTarget> = Vec::new();
    let mut i: usize = 0;
    while i < v.len()
        invariant
            i <= v@.len(),
            out@.len() == i,
            forall|j: int| 0 <= j < i ==> (#[trigger] out@[j])@ == v@[j]@,
        decreases v@.len() - i,
    {
        out.push(clone_target(&v[i]));
        i = i + 1;
    }
    assert(targets_view(out@) =~= targets_view(v@));
    out
}

fn clone_params(v: &Vec<String>) -> (r: Vec<String>)
    ensures
        strings_view(r@) == strings_view(v@),
{
    let r = crate::types::clone_strings(v);
    r
}

fn clone_group(g: &DispatchGroup) -> (r: DispatchGroup)
    ensures
        r@ == g@,
{
    DispatchGroup { params: clone_params(&g.params), targets: clone_targets(&g.targets) }
}

/// Whether some group has the parameter `p`.
pub open spec fn groups_contain_param(gs: Seq<SpecGroup>, p: Seq<char>) -> bool {
    exists|i: int, j: int| 0 <= i < gs.len() && 0 <= j < gs[i].params.len() && #[trigger] gs[i].params[j] == p
}

/// Each selection of `prev` followed by each target index below `m`: the
/// selections in order, and for each the indices in ascending order.
pub open spec fn extend_selections(prev: Seq<Seq<int>>, m: int) -> Seq<Seq<int>>
    decreases prev.len(),
{
    if prev.len() == 0 {
        Seq::empty()
    } else {
        extend_selections(prev.drop_last(), m) + Seq::new(
            if m >= 0 { m as nat } else { 0 },
            |t: int| prev.last().push(t),
        )
    }
}

/// Every way of choosing one target of each of the first `n` groups, as the
/// index of the chosen target in each group: the first group's choice varies
/// slowest, the last one's fastest.
pub open spec fn spec_selections(gs: Seq<SpecGroup>, n: int) -> Seq<Seq<int>>
    decreases n,
{
    if n <= 0 {
        seq![Seq::empty()]
    } else {
        extend_selections(spec_selections(gs, n - 1), gs[n - 1].targets.len() as int)
    }
}

/// Whether `s` picks one target of each of the first `n` groups.
pub open spec fn valid_selection(gs: Seq<SpecGroup>, n: int, s: Seq<int>) -> bool {
    s.len() == n && forall|g: int| 0 <= g < n ==> 0 <= #[trigger] s[g] < gs[g].targets.len()
}

proof fn lemma_extend_valid(gs: Seq<SpecGroup>, n: int, prev: Seq<Seq<int>>)
    requires
        0 <= n < gs.len(),
        forall|k: int| 0 <= k < prev.len() ==> valid_selection(gs, n, #[trigger] prev[k]),
    ensures
        ({
            let e = extend_selections(prev, gs[n].targets.len() as int);
            forall|k: int| 0 <= k < e.len() ==> valid_selection(gs, n + 1, #[trigger] e[k])
        }),
    decreases prev.len(),
{
    let m = gs[n].targets.len() as int;
    if prev.len() > 0 {
        lemma_extend_valid(gs, n, prev.drop_last());
        let e0 = extend_selections(prev.drop_last(), m);
        let tail = Seq::new(m as nat, |t: int| prev.last().push(t));
        let e = extend_selections(prev, m);
        assert(e == e0 + tail);
        assert forall|k: int| 0 <= k < e.len() implies valid_selection(gs, n + 1, #[trigger] e[k]) by {
            if k < e0.len() {
                assert(e[k] == e0[k]);
            } else {
                let t = k - e0.len();
                assert(e[k] == prev.last().push(t));
                assert(valid_selection(gs, n, prev[prev.len() - 1]));
                assert forall|g: int| 0 <= g < n + 1 implies 0 <= #[trigger] e[k][g] < gs[g].targets.len() by {
                    if g < n {
                        assert(e[k][g] == prev[prev.len() - 1][g]);
                    }
                }
            }
        }
    }
}

/// Every selection picks one target of each group.
pub proof fn lemma_selections_valid(gs: Seq<SpecGroup>, n: int)
    requires
        0 <= n <= gs.len(),
    ensures
        forall|k: int|
            0 <= k < spec_selections(gs, n).len() ==> valid_selection(gs, n, #[trigger] spec_selections(gs, n)[k]),
    decreases n,
{
    if n == 0 {
        assert(spec_selections(gs, 0) == seq![Seq::<int>::empty()]);
    } else {
        lemma_selections_valid(gs, n - 1);
        lemma_extend_valid(gs, n - 1, spec_selections(gs, n - 1));
    }
}

proof fn lemma_extend_has(prev: Seq<Seq<int>>, m: int, j: int, t: int)
    requires
        0 <= j < prev.len(),
        0 <= t < m,
    ensures
        extend_selections(prev, m).contains(prev[j].push(t)),
    decreases prev.len(),
{
    let e0 = extend_selections(prev.drop_last(), m);
    let tail = Seq::new(m as nat, |u: int| prev.last().push(u));
    assert(extend_selections(prev, m) == e0 + tail);
    if j == prev.len() - 1 {
        assert((e0 + tail)[e0.len() + t] == prev[j].push(t));
    } else {
        lemma_extend_has(prev.drop_last(), m, j, t);
        let k = choose|k: int| 0 <= k < e0.len() && e0[k] == prev.drop_last()[j].push(t);
        assert((e0 + tail)[k] == prev[j].push(t));
    }
}

/// Every way of picking one target of each of the first `n` groups is among
/// the selections.
pub proof fn lemma_selections_complete(gs: Seq<SpecGroup>, n: int, s: Seq<int>)
    requires
        0 <= n <= gs.len(),
        valid_selection(gs, n, s),
    ensures
        spec_selections(gs, n).contains(s),
    decreases n,
{
    if n == 0 {
        assert(s =~= Seq::<int>::empty());
        assert(spec_selections(gs, 0)[0] == s);
    } else {
        let s0 = s.drop_last();
        assert(valid_selection(gs, n - 1, s0)) by {
            assert forall|g: int| 0 <= g < n - 1 implies 0 <= #[trigger] s0[g] < gs[g].targets.len() by {
                assert(s0[g] == s[g]);
            }
        }
        lemma_selections_complete(gs, n - 1, s0);
        let prev = spec_selections(gs, n - 1);
        let j = choose|j: int| 0 <= j < prev.len() && prev[j] == s0;
        assert(0 <= s[n - 1] < gs[n - 1].targets.len());
        lemma_extend_has(prev, gs[n - 1].targets.len() as int, j, s[n - 1]);
        assert(s0.push(s[n - 1]) =~= s);
    }
}

/// The values of a sequence of index lists.
pub open spec fn selections_view(v: Seq<Vec<usize>>) -> Seq<Seq<int>> {
    Seq::new(v.len(), |i: int| v[i]@.map_values(|x: usize| x as int))
}

/// Whether a generic argument mentions the parameter `c`.
#[verifier::opaque]
pub open spec fn arg_mentions(a: SpecArg, c: Seq<char>) -> bool {
    arg_refers(a, Some(c))
}

/// Whether the argument that some target gives a parameter in `sel`
/// mentions `c`.
pub open spec fn selected_arg_mentions(gs: Seq<SpecGroup>, sel: Set<Seq<char>>, c: Seq<char>) -> bool {
    exists|g: int, i: int, t: int|
        0 <= g < gs.len() && 0 <= i < gs[g].params.len() && sel.contains(gs[g].params[i]) && 0 <= t
            < gs[g].targets.len() && i < gs[g].targets[t].args.len() && #[trigger] arg_mentions(gs[g].targets[t].args[i], c)
}

/// Whether the group's `t`-th target gives its `i`-th parameter, which is
/// in `sel`, an argument that mentions `c`.
pub open spec fn group_mention_at(g: SpecGroup, sel: Set<Seq<char>>, c: Seq<char>, i: int, t: int) -> bool {
    0 <= i < g.params.len() && sel.contains(g.params[i]) && 0 <= t < g.targets.len() && i
        < g.targets[t].args.len() && arg_mentions(g.targets[t].args[i], c)
}

/// Whether some target of the group gives a parameter in `sel` an argument
/// that mentions `c`.
pub open spec fn group_mentions(g: SpecGroup, sel: Set<Seq<char>>, c: Seq<char>) -> bool {
    exists|i: int, t: int| #[trigger] group_mention_at(g, sel, c, i, t)
}

/// Whether `sel` holds every parameter of the groups that an argument given
/// to a parameter in `sel` mentions.
pub open spec fn binding_closed(gs: Seq<SpecGroup>, sel: Set<Seq<char>>) -> bool {
    forall|c: Seq<char>|
        #![trigger groups_contain_param(gs, c)]
        groups_contain_param(gs, c) && selected_arg_mentions(gs, sel, c) ==> sel.contains(c)
}

/// Whether `sel` is the smallest closed set of parameters holding `root`.
pub open spec fn is_least_binding(gs: Seq<SpecGroup>, root: Seq<char>, sel: Set<Seq<char>>) -> bool {
    &&& sel.contains(root)
    &&& binding_closed(gs, sel)
    &&& forall|t: Set<Seq<char>>| t.contains(root) && binding_closed(gs, t) ==> #[trigger] sel.subset_of(t)
}

/// The parameters bound together with `root`: `root`, and every parameter
/// that an argument given to one of them mentions, until nothing is added.
pub open spec fn binding_params(gs: Seq<SpecGroup>, root: Seq<char>) -> Set<Seq<char>> {
    choose|sel: Set<Seq<char>>| is_least_binding(gs, root, sel)
}

/// The first `n` parameters of `params` that are in `sel`, in order.
pub open spec fn kept_params(params: Seq<Seq<char>>, sel: Set<Seq<char>>, n: int) -> Seq<Seq<char>>
    decreases n,
{
    if n <= 0 || n > params.len() {
        Seq::empty()
    } else if sel.contains(params[n - 1]) {
        kept_params(params, sel, n - 1).push(params[n - 1])
    } else {
        kept_params(params, sel, n - 1)
    }
}

/// The first `n` arguments, each kept where it stands at a parameter in `sel`.
pub open spec fn kept_args(args: Seq<SpecArg>, params: Seq<Seq<char>>, sel: Set<Seq<char>>, n: int) -> Seq<SpecArg>
    decreases n,
{
    if n <= 0 || n > args.len() {
        Seq::empty()
    } else if n - 1 < params.len() && sel.contains(params[n - 1]) {
        kept_args(args, params, sel, n - 1).push(args[n - 1])
    } else {
        kept_args(args, params, sel, n - 1)
    }
}

/// A target with only the arguments of the parameters in `sel`.
pub open spec fn project_target(t: SpecTarget, params: Seq<Seq<char>>, sel: Set<Seq<char>>) -> SpecTarget {
    SpecTarget { turbofish: t.turbofish, args: kept_args(t.args, params, sel, t.args.len() as int) }
}

/// The first `n` targets without repetitions, each where it first comes.
pub open spec fn distinct_targets(ts: Seq<SpecTarget>, n: int) -> Seq<SpecTarget>
    decreases n,
{
    if n <= 0 || n > ts.len() {
        Seq::empty()
    } else {
        let d = distinct_targets(ts, n - 1);
        if d.contains(ts[n - 1]) {
            d
        } else {
            d.push(ts[n - 1])
        }
    }
}

/// The group's targets projected on the parameters in `sel`, without
/// repetitions.
pub open spec fn projected_targets(g: SpecGroup, sel: Set<Seq<char>>) -> Seq<SpecTarget> {
    distinct_targets(
        Seq::new(g.targets.len(), |t: int| project_target(g.targets[t], g.params, sel)),
        g.targets.len() as int,
    )
}

/// The first `n` groups restricted to the parameters in `sel`: each group
/// with some parameter in `sel` gives its kept parameters the projected
/// targets.
pub open spec fn spec_bindings(gs: Seq<SpecGroup>, sel: Set<Seq<char>>, n: int) -> Map<
    Seq<Seq<char>>,
    Seq<SpecTarget>,
>
    decreases n,
{
    if n <= 0 || n > gs.len() {
        Map::empty()
    } else {
        let m = spec_bindings(gs, sel, n - 1);
        let kp = kept_params(gs[n - 1].params, sel, gs[n - 1].params.len() as int);
        if kp.len() == 0 {
            m
        } else {
            m.insert(kp, projected_targets(gs[n - 1], sel))
        }
    }
}

/// Whether some target's argument at `i` mentions `c`.
fn some_target_mentions(targets: &Vec<DispatchTarget>, i: usize, c: &str) -> (r: bool)
    ensures
        r == exists|u: int|
            0 <= u < targets_view(targets@).len() && i < targets_view(targets@)[u].args.len()
                && #[trigger] arg_mentions(targets_view(targets@)[u].args[i as int], c@),
{
    let ghost tv = targets_view(targets@);
    let mut t: usize = 0;
    while t < targets.len()
        invariant
            tv == targets_view(targets@),
            t <= targets@.len(),
            forall|u: int|
                0 <= u < t && i < tv[u].args.len() ==> !#[trigger] arg_mentions(tv[u].args[i as int], c@),
        decreases targets@.len() - t,
    {
        let target = &targets[t];
        assert(tv[t as int] == target@);
        if i < target.args.len() {
            let m = arg_refers_exec(&target.args[i], Some(c));
            proof {
                assert(tv[t as int].args[i as int] == target.args@[i as int]@);
                assert(m == arg_mentions(tv[t as int].args[i as int], c@)) by {
                    reveal(arg_mentions);
                }
            }
            if m {
                return true;
            }
        }
        t = t + 1;
    }
    false
}

fn group_mentions_exec(group: &DispatchGroup, sel: &Vec<String>, c: &str) -> (r: bool)
    ensures
        r == group_mentions(group@, strings_view(sel@).to_set(), c@),
{
    let ghost gv = group@;
    let ghost ss = strings_view(sel@).to_set();
    let mut i: usize = 0;
    while i < group.params.len()
        invariant
            gv == group@,
            ss == strings_view(sel@).to_set(),
            i <= group.params@.len(),
            forall|j: int, t: int| 0 <= j < i ==> !#[trigger] group_mention_at(gv, ss, c@, j, t),
        decreases group.params@.len() - i,
    {
        assert(gv.params[i as int] == group.params@[i as int]@);
        let sel_here = contains_str(sel, group.params[i].as_str());
        assert(sel_here == ss.contains(gv.params[i as int])) by {
            assert(strings_view(sel@).to_set().contains(gv.params[i as int]) == strings_view(sel@).contains(
                gv.params[i as int],
            ));
        }
        if sel_here && some_target_mentions(&group.targets, i, c) {
            proof {
                let t = choose|t: int|
                    0 <= t < targets_view(group.targets@).len() && i < targets_view(group.targets@)[t].args.len()
                        && #[trigger] arg_mentions(targets_view(group.targets@)[t].args[i as int], c@);
                assert(group_mention_at(gv, ss, c@, i as int, t));
            }
            return true;
        }
        proof {
            assert forall|j: int, t: int| 0 <= j < i + 1 implies !#[trigger] group_mention_at(gv, ss, c@, j, t) by {
                if j == i {
                    if group_mention_at(gv, ss, c@, j, t) {
                        assert(0 <= t < targets_view(group.targets@).len() && i < targets_view(group.targets@)[t].args.len()
                            && arg_mentions(targets_view(group.targets@)[t].args[i as int], c@));
                    }
                }
            }
        }
        i = i + 1;
    }
    false
}

/// The parameters in `ss` and those that an argument given to one of them
/// mentions.
pub open spec fn binding_step(gs: Seq<SpecGroup>, ss: Set<Seq<char>>) -> Set<Seq<char>> {
    Set::new(|x: Seq<char>| ss.contains(x) || (groups_contain_param(gs, x) && selected_arg_mentions(gs, ss, x)))
}

proof fn lemma_binding_start(gs: Seq<SpecGroup>, root: Seq<char>, s: Seq<Seq<char>>, univ: Set<Seq<char>>)
    requires
        s == seq![root],
        univ.contains(root),
    ensures
        strictly_sorted(s),
        s.to_set().contains(root),
        s.to_set().subset_of(univ),
        forall|t: Set<Seq<char>>| t.contains(root) && binding_closed(gs, t) ==> #[trigger] s.to_set().subset_of(t),
{
    assert(s[0] == root);
    assert(s.to_set() =~= set![root]);
}

proof fn lemma_binding_fixed(gs: Seq<SpecGroup>, ss: Set<Seq<char>>)
    requires
        binding_step(gs, ss) == ss,
    ensures
        binding_closed(gs, ss),
{
    assert forall|c: Seq<char>| #![trigger groups_contain_param(gs, c)]
        groups_contain_param(gs, c) && selected_arg_mentions(gs, ss, c) implies ss.contains(c) by {
        assert(binding_step(gs, ss).contains(c));
    }
}

proof fn lemma_binding_grows(
    gs: Seq<SpecGroup>,
    root: Seq<char>,
    ss: Set<Seq<char>>,
    univ: Set<Seq<char>>,
    all: Seq<Seq<char>>,
)
    requires
        forall|t: Set<Seq<char>>| t.contains(root) && binding_closed(gs, t) ==> #[trigger] ss.subset_of(t),
        forall|c: Seq<char>| #[trigger] all.contains(c) == groups_contain_param(gs, c),
        univ == all.to_set().insert(root),
        ss.subset_of(univ),
        ss.contains(root),
        binding_step(gs, ss) != ss,
    ensures
        ({
            let ns = binding_step(gs, ss);
            &&& ns.contains(root)
            &&& ns.subset_of(univ)
            &&& ss.len() < ns.len()
            &&& ns.len() <= univ.len()
            &&& forall|t: Set<Seq<char>>| t.contains(root) && binding_closed(gs, t) ==> #[trigger] ns.subset_of(t)
        }),
{
    let ns = binding_step(gs, ss);
    lemma_binding_step(gs, root, ss, ns, univ);
    assert(ss.subset_of(ns));
    assert(ns.subset_of(univ)) by {
        assert forall|x: Seq<char>| ns.contains(x) implies univ.contains(x) by {
            if !ss.contains(x) {
                assert(all.contains(x));
            }
        }
    }
    vstd::set_lib::lemma_len_subset(ns, univ);
    assert(!ns.subset_of(ss)) by {
        if ns.subset_of(ss) {
            assert(ns =~= ss);
        }
    }
    let y = choose|y: Seq<char>| ns.contains(y) && !ss.contains(y);
    vstd::set_lib::lemma_len_subset(ss.insert(y), ns);
    vstd::set_lib::lemma_len_subset(ss, univ);
}

/// A step of the closure stays below every closed set that holds `root`.
proof fn lemma_binding_step(
    gs: Seq<SpecGroup>,
    root: Seq<char>,
    ss: Set<Seq<char>>,
    ns: Set<Seq<char>>,
    univ: Set<Seq<char>>,
)
    requires
        forall|t: Set<Seq<char>>| t.contains(root) && binding_closed(gs, t) ==> #[trigger] ss.subset_of(t),
        forall|x: Seq<char>| #[trigger] ns.contains(x) ==> ss.contains(x) || (groups_contain_param(gs, x)
            && selected_arg_mentions(gs, ss, x)),
    ensures
        forall|t: Set<Seq<char>>| t.contains(root) && binding_closed(gs, t) ==> #[trigger] ns.subset_of(t),
{
    assert forall|t: Set<Seq<char>>| t.contains(root) && binding_closed(gs, t) implies #[trigger] ns.subset_of(t) by {
        assert(ss.subset_of(t));
        assert forall|x: Seq<char>| ns.contains(x) implies t.contains(x) by {
            if !ss.contains(x) {
                let (g, i, u) = choose|g: int, i: int, u: int|
                    0 <= g < gs.len() && 0 <= i < gs[g].params.len() && ss.contains(gs[g].params[i]) && 0 <= u
                        < gs[g].targets.len() && i < gs[g].targets[u].args.len() && #[trigger] arg_mentions(
                        gs[g].targets[u].args[i],
                        x,
                    );
                assert(t.contains(gs[g].params[i]));
                assert(selected_arg_mentions(gs, t, x));
                assert(groups_contain_param(gs, x));
            }
        }
    }
}

fn kept_params_exec(params: &Vec<String>, sel: &Vec<String>) -> (r: Vec<String>)
    ensures
        strings_view(r@) == kept_params(strings_view(params@), strings_view(sel@).to_set(), params@.len() as int),
{
    let ghost pv = strings_view(params@);
    let ghost ss = strings_view(sel@).to_set();
    let mut r: Vec<String> = Vec::new();
    let mut i: usize = 0;
    while i < params.len()
        invariant
            pv == strings_view(params@),
            ss == strings_view(sel@).to_set(),
            i <= params@.len(),
            strings_view(r@) == kept_params(pv, ss, i as int),
        decreases params@.len() - i,
    {
        assert(pv[i as int] == params@[i as int]@);
        let keep = contains_str(sel, params[i].as_str());
        assert(keep == ss.contains(pv[i as int])) by {
            assert(ss.contains(pv[i as int]) == strings_view(sel@).contains(pv[i as int]));
        }
        if keep {
            let ghost before = r@;
            r.push(params[i].clone());
            assert(strings_view(r@) =~= strings_view(before).push(pv[i as int]));
        }
        i = i + 1;
    }
    r
}

fn project_target_exec(t: &DispatchTarget, params: &Vec<String>, sel: &Vec<String>) -> (r: DispatchTarget)
    ensures
        r@ == project_target(t@, strings_view(params@), strings_view(sel@).to_set()),
{
    let ghost pv = strings_view(params@);
    let ghost ss = strings_view(sel@).to_set();
    let ghost av = generic_args_view(t.args@);
    let mut args: Vec<GenericArg> = Vec::new();
    let mut i: usize = 0;
    while i < t.args.len()
        invariant
            pv == strings_view(params@),
            ss == strings_view(sel@).to_set(),
            av == generic_args_view(t.args@),
            i <= t.args@.len(),
            generic_args_view(args@) == kept_args(av, pv, ss, i as int),
        decreases t.args@.len() - i,
    {
        let keep = i < params.len() && contains_str(sel, params[i].as_str());
        proof {
            if i < params@.len() {
                assert(pv[i as int] == params@[i as int]@);
                assert(ss.contains(pv[i as int]) == strings_view(sel@).contains(pv[i as int]));
            }
        }
        if keep {
            let ghost before = args@;
            args.push(t.args[i].clone());
            assert(av[i as int] == t.args@[i as int]@);
            assert(generic_args_view(args@) =~= generic_args_view(before).push(av[i as int]));
        }
        i = i + 1;
    }
    DispatchTarget { turbofish: t.turbofish, args }
}

fn target_equal(a: &DispatchTarget, b: &DispatchTarget) -> (r: bool)
    ensures
        r == (a@ == b@),
{
    a.turbofish == b.turbofish && generic_args_equal(&a.args, &b.args)
}

fn targets_contain(v: &Vec<DispatchTarget>, x: &DispatchTarget) -> (r: bool)
    ensures
        r == targets_view(v@).contains(x@),
{
    let mut i: usize = 0;
    while i < v.len()
        invariant
            i <= v@.len(),
            forall|j: int| 0 <= j < i ==> v@[j]@ != x@,
        decreases v@.len() - i,
    {
        if target_equal(&v[i], x) {
            assert(targets_view(v@)[i as int] == x@);
            return true;
        }
        i = i + 1;
    }
    assert forall|j: int| 0 <= j < targets_view(v@).len() implies targets_view(v@)[j] != x@ by {
        assert(targets_view(v@)[j] == v@[j]@);
    }
    false
}

fn projected_targets_exec(g: &DispatchGroup, sel: &Vec<String>) -> (r: Vec<DispatchTarget>)
    ensures
        targets_view(r@) == projected_targets(g@, strings_view(sel@).to_set()),
{
    let ghost ss = strings_view(sel@).to_set();
    let ghost proj = Seq::new(g@.targets.len(), |t: int| project_target(g@.targets[t], g@.params, ss));
    let mut r: Vec<DispatchTarget> = Vec::new();
    let mut i: usize = 0;
    while i < g.targets.len()
        invariant
            ss == strings_view(sel@).to_set(),
            proj == Seq::new(g@.targets.len(), |t: int| project_target(g@.targets[t], g@.params, ss)),
            i <= g.targets@.len(),
            targets_view(r@) == distinct_targets(proj, i as int),
        decreases g.targets@.len() - i,
    {
        let p = project_target_exec(&g.targets[i], &g.params, sel);
        assert(g@.targets[i as int] == g.targets@[i as int]@);
        assert(proj[i as int] == p@);
        if !targets_contain(&r, &p) {
            let ghost before = r@;
            r.push(p);
            assert(targets_view(r@) =~= targets_view(before).push(proj[i as int]));
        }
        i = i + 1;
    }
    r
}

/// Whether the strings hold `x`.
pub(crate) fn contains_str(v: &Vec<String>, x: &str) -> (r: bool)
    ensures
        r == strings_view(v@).contains(x@),
{
    let mut i: usize = 0;
    while i < v.len()
        invariant
            i <= v@.len(),
            forall|j: int| 0 <= j < i ==> v@[j]@ != x@,
        decreases v@.len() - i,
    {
        if str_eq(v[i].as_str(), x) {
            assert(strings_view(v@)[i as int] == x@);
            return true;
        }
        i = i + 1;
    }
    assert forall|j: int| 0 <= j < strings_view(v@).len() implies strings_view(v@)[j] != x@ by {
        assert(strings_view(v@)[j] == v@[j]@);
    }
    false
}

/// The value of an item's dispatch groups: ascending by parameter list, as
/// the map from parameter lists to targets that the macros keep.
pub struct DispatchGroups {
    groups: Vec<DispatchGroup>,
}

impl View for DispatchGroups {
    type V = Seq<SpecGroup>;

    closed spec fn view(&self) -> Seq<SpecGroup> {
        groups_view(self.groups@)
    }
}

impl DispatchGroups {
    #[verifier::type_invariant]
    closed spec fn sorted(self) -> bool {
        keys_sorted(groups_view(self.groups@))
    }

    /// No groups.
    pub fn new() -> (r: Self)
        ensures
            r@ == Seq::<SpecGroup>::empty(),
    {
        let r = DispatchGroups { groups: Vec::new() };
        assert(r@ =~= Seq::<SpecGroup>::empty());
        r
    }

    /// The groups, ascending by parameter list.
    pub fn groups(&self) -> (r: &Vec<DispatchGroup>)
        ensures
            groups_view(r@) == self@,
            keys_sorted(self@),
    {
        proof {
            use_type_invariant(self);
        }
        &self.groups
    }

    /// Whether there are no groups.
    pub fn is_empty(&self) -> (r: bool)
        ensures
            r == (self@.len() == 0),
    {
        self.groups.len() == 0
    }

    /// Sets the targets of the group with the parameters `params`, adding the
    /// group where there is none: the map's `insert`.
    pub fn insert(&mut self, params: Vec<String>, targets: Vec<DispatchTarget>)
        ensures
            groups_map(final(self)@) == groups_map(old(self)@).insert(
                strings_view(params@),
                targets_view(targets@),
            ),
    {
        proof {
            use_type_invariant(&*self);
        }
        let ghost os = self@;
        let ghost k = strings_view(params@);
        let ghost t = targets_view(targets@);
        let mut gs: Vec<DispatchGroup> = Vec::new();
        std::mem::swap(&mut gs, &mut self.groups);
        assert(groups_view(gs@) == os);
        let mut i: usize = 0;
        while i < gs.len() && key_less(&gs[i].params, &params)
            invariant
                i <= gs@.len(),
                groups_view(gs@) == os,
                keys_sorted(os),
                k == strings_view(params@),
                forall|q: int| 0 <= q < i ==> key_lt(#[trigger] os[q].params, k),
            decreases gs@.len() - i,
        {
            i = i + 1;
        }
        if i < gs.len() && keys_equal(&gs[i].params, &params) {
            let old_group = gs.remove(i);
            let ghost ok = old_group@.params;
            gs.insert(i, DispatchGroup { params: old_group.params, targets });
            let ghost ns = groups_view(gs@);
            assert(ns =~= os.update(i as int, SpecGroup { params: ok, targets: t }));
            proof {
                lemma_map_update(os, i as int, t);
            }
            self.groups = gs;
        } else {
            let ghost gi = i as int;
            proof {
                if gi < os.len() {
                    assert(!key_lt(os[gi].params, k));
                    assert(os[gi].params != k);
                    lemma_key_lt_total(os[gi].params, k);
                }
            }
            gs.insert(i, DispatchGroup { params, targets });
            let ghost ns = groups_view(gs@);
            assert(ns =~= os.insert(gi, SpecGroup { params: k, targets: t }));
            proof {
                lemma_map_insert(os, gi, k, t);
            }
            self.groups = gs;
        }
    }

    /// Whether some group has the parameter `param`.
    pub fn contains_param(&self, param: &str) -> (r: bool)
        ensures
            r == groups_contain_param(self@, param@),
    {
        let mut i: usize = 0;
        while i < self.groups.len()
            invariant
                i <= self.groups@.len(),
                forall|a: int, b: int| 0 <= a < i && 0 <= b < self@[a].params.len() ==> #[trigger] self@[a].params[b] != param@,
            decreases self.groups@.len() - i,
        {
            let g = &self.groups[i];
            assert(self@[i as int] == g@);
            let mut j: usize = 0;
            while j < g.params.len()
                invariant
                    i < self.groups@.len(),
                    j <= g.params@.len(),
                    self@[i as int] == g@,
                    forall|b: int| 0 <= b < j ==> #[trigger] self@[i as int].params[b] != param@,
                decreases g.params@.len() - j,
            {
                if str_eq(g.params[j].as_str(), param) {
                    assert(self@[i as int].params[j as int] == param@);
                    return true;
                }
                j = j + 1;
            }
            i = i + 1;
        }
        false
    }

    /// Every way of choosing one target of each group, as the index of the
    /// chosen target in each group, the first group's choice varying slowest.
    pub fn combinations(&self) -> (r: Vec<Vec<usize>>)
        ensures
            selections_view(r@) == spec_selections(self@, self@.len() as int),
    {
        let ghost gs = self@;
        let mut cur: Vec<Vec<usize>> = Vec::new();
        cur.push(Vec::new());
        assert(cur@[0]@.map_values(|y: usize| y as int) =~= Seq::<int>::empty());
        assert(selections_view(cur@) =~= seq![Seq::<int>::empty()]);
        let mut g: usize = 0;
        while g < self.groups.len()
            invariant
                g <= self.groups@.len(),
                gs == self@,
                gs == groups_view(self.groups@),
                selections_view(cur@) == spec_selections(gs, g as int),
            decreases self.groups@.len() - g,
        {
            let m = self.groups[g].targets.len();
            assert(gs[g as int].targets.len() == m);
            let ghost prev = spec_selections(gs, g as int);
            let mut next: Vec<Vec<usize>> = Vec::new();
            let mut c: usize = 0;
            while c < cur.len()
                invariant
                    c <= cur@.len(),
                    selections_view(cur@) == prev,
                    selections_view(next@) == extend_selections(prev.take(c as int), m as int),
                decreases cur@.len() - c,
            {
                let mut t: usize = 0;
                let ghost base = selections_view(next@);
                while t < m
                    invariant
                        t <= m,
                        c < cur@.len(),
                        selections_view(cur@) == prev,
                        selections_view(next@) == base + Seq::new(t as nat, |u: int| prev[c as int].push(u)),
                    decreases m - t,
                {
                    let mut x: Vec<usize> = Vec::new();
                    let mut k: usize = 0;
                    while k < cur[c].len()
                        invariant
                            c < cur@.len(),
                            k <= cur@[c as int]@.len(),
                            x@ == cur@[c as int]@.take(k as int),
                        decreases cur@[c as int]@.len() - k,
                    {
                        x.push(cur[c][k]);
                        k = k + 1;
                        assert(x@ =~= cur@[c as int]@.take(k as int));
                    }
                    assert(cur@[c as int]@.take(k as int) =~= cur@[c as int]@);
                    x.push(t);
                    let ghost before = next@;
                    next.push(x);
                    assert(prev[c as int] == cur@[c as int]@.map_values(|y: usize| y as int));
                    assert(x@.map_values(|y: usize| y as int) =~= prev[c as int].push(t as int));
                    assert(selections_view(next@) =~= selections_view(before).push(prev[c as int].push(t as int)));
                    t = t + 1;
                    assert(selections_view(next@) =~= base + Seq::new(t as nat, |u: int| prev[c as int].push(u)));
                }
                assert(prev.take(c + 1).drop_last() =~= prev.take(c as int));
                assert(prev.take(c + 1).last() == prev[c as int]);
                c = c + 1;
            }
            assert(prev.take(c as int) =~= prev);
            cur = next;
            g = g + 1;
        }
        cur
    }

    /// Every parameter of the groups, ascending.
    pub fn all_params(&self) -> (r: Vec<String>)
        ensures
            strictly_sorted(strings_view(r@)),
            forall|c: Seq<char>| #[trigger] strings_view(r@).contains(c) == groups_contain_param(self@, c),
    {
        let ghost gs = self@;
        let mut r: Vec<String> = Vec::new();
        let mut g: usize = 0;
        assert(strings_view(r@) =~= Seq::<Seq<char>>::empty());
        while g < self.groups.len()
            invariant
                g <= self.groups@.len(),
                gs == self@,
                gs == groups_view(self.groups@),
                strictly_sorted(strings_view(r@)),
                forall|c: Seq<char>| #[trigger] strings_view(r@).contains(c) == (exists|a: int, b: int|
                    0 <= a < g && 0 <= b < gs[a].params.len() && #[trigger] gs[a].params[b] == c),
            decreases self.groups@.len() - g,
        {
            let params = &self.groups[g].params;
            assert(gs[g as int].params == strings_view(params@));
            let mut j: usize = 0;
            while j < params.len()
                invariant
                    g < gs.len(),
                    j <= params@.len(),
                    gs[g as int].params == strings_view(params@),
                    strictly_sorted(strings_view(r@)),
                    forall|c: Seq<char>| #[trigger] strings_view(r@).contains(c) == ((exists|a: int, b: int|
                        0 <= a < g && 0 <= b < gs[a].params.len() && #[trigger] gs[a].params[b] == c)
                        || exists|b: int| 0 <= b < j && #[trigger] gs[g as int].params[b] == c),
                decreases params@.len() - j,
            {
                let ghost before = strings_view(r@);
                let x = params[j].clone();
                insert_sorted(&mut r, x);
                proof {
                    assert(gs[g as int].params[j as int] == params@[j as int]@);
                    assert forall|c: Seq<char>| #[trigger] strings_view(r@).contains(c) == ((exists|a: int, b: int|
                        0 <= a < g && 0 <= b < gs[a].params.len() && #[trigger] gs[a].params[b] == c)
                        || exists|b: int| 0 <= b < j + 1 && #[trigger] gs[g as int].params[b] == c) by {
                        assert(strings_view(r@).to_set().contains(c) == strings_view(r@).contains(c));
                        assert(before.to_set().contains(c) == before.contains(c));
                        if c == params@[j as int]@ {
                            assert(gs[g as int].params[j as int] == c);
                        }
                    }
                }
                j = j + 1;
            }
            proof {
                assert forall|c: Seq<char>| #[trigger] strings_view(r@).contains(c) == (exists|a: int, b: int|
                    0 <= a < g + 1 && 0 <= b < gs[a].params.len() && #[trigger] gs[a].params[b] == c) by {
                    if exists|b: int| 0 <= b < j && #[trigger] gs[g as int].params[b] == c {
                        let b = choose|b: int| 0 <= b < j && #[trigger] gs[g as int].params[b] == c;
                        assert(0 <= g < g + 1 && 0 <= b < gs[g as int].params.len() && gs[g as int].params[b] == c);
                    }
                    if exists|a: int, b: int| 0 <= a < g + 1 && 0 <= b < gs[a].params.len() && #[trigger] gs[a].params[b] == c {
                        let (a, b) = choose|a: int, b: int| 0 <= a < g + 1 && 0 <= b < gs[a].params.len() && #[trigger] gs[a].params[b] == c;
                        if a == g {
                            assert(0 <= b < j && gs[g as int].params[b] == c);
                        } else {
                            assert(0 <= a < g && 0 <= b < gs[a].params.len() && gs[a].params[b] == c);
                        }
                    }
                }
            }
            g = g + 1;
        }
        r
    }

    /// Tests whether the argument that some target gives a parameter in
    /// `sel` mentions `c`.
    fn selected_arg_mentions_exec(&self, sel: &Vec<String>, c: &str) -> (r: bool)
        ensures
            r == selected_arg_mentions(self@, strings_view(sel@).to_set(), c@),
    {
        let ghost gs = self@;
        let ghost ss = strings_view(sel@).to_set();
        let mut g: usize = 0;
        while g < self.groups.len()
            invariant
                g <= self.groups@.len(),
                gs == self@,
                gs == groups_view(self.groups@),
                ss == strings_view(sel@).to_set(),
                forall|a: int| 0 <= a < g ==> !#[trigger] group_mentions(gs[a], ss, c@),
            decreases self.groups@.len() - g,
        {
            assert(gs[g as int] == self.groups@[g as int]@);
            if group_mentions_exec(&self.groups[g], sel, c) {
                proof {
                    let (i, t) = choose|i: int, t: int| group_mention_at(gs[g as int], ss, c@, i, t);
                    assert(group_mention_at(gs[g as int], ss, c@, i, t));
                }
                return true;
            }
            g = g + 1;
        }
        proof {
            assert forall|a: int, i: int, t: int|
                0 <= a < gs.len() && 0 <= i < gs[a].params.len() && ss.contains(gs[a].params[i]) && 0 <= t
                    < gs[a].targets.len() && i < gs[a].targets[t].args.len() implies !#[trigger] arg_mentions(
                    gs[a].targets[t].args[i],
                    c@,
                ) by {
                assert(!group_mentions(gs[a], ss, c@));
                assert(!group_mention_at(gs[a], ss, c@, i, t));
            }
        }
        false
    }

    /// One step of the closure: `selected` and every parameter that an
    /// argument given to one of them mentions.
    fn binding_step_exec(&self, all: &Vec<String>, selected: &Vec<String>) -> (next: Vec<String>)
        requires
            forall|c: Seq<char>| #[trigger] strings_view(all@).contains(c) == groups_contain_param(self@, c),
            strictly_sorted(strings_view(selected@)),
        ensures
            strictly_sorted(strings_view(next@)),
            strings_view(next@).to_set() == binding_step(self@, strings_view(selected@).to_set()),
    {
        let ghost gs = self@;
        let ghost ss = strings_view(selected@).to_set();
        let ghost av = strings_view(all@);
        let mut next = crate::types::clone_strings(selected);
        let mut k: usize = 0;
        while k < all.len()
            invariant
                gs == self@,
                ss == strings_view(selected@).to_set(),
                av == strings_view(all@),
                k <= all@.len(),
                strictly_sorted(strings_view(next@)),
                forall|y: Seq<char>| #[trigger] strings_view(next@).to_set().contains(y) == (ss.contains(y) || (av.take(
                    k as int,
                ).contains(y) && selected_arg_mentions(gs, ss, y))),
            decreases all@.len() - k,
        {
            let x = &all[k];
            assert(av[k as int] == x@);
            let add = !contains_str(selected, x.as_str()) && self.selected_arg_mentions_exec(selected, x.as_str());
            if add {
                insert_sorted(&mut next, x.clone());
            }
            proof {
                assert(av.take(k + 1) =~= av.take(k as int).push(x@));
                assert forall|y: Seq<char>| #[trigger] strings_view(next@).to_set().contains(y) == (ss.contains(y) || (av.take(
                    k + 1,
                ).contains(y) && selected_arg_mentions(gs, ss, y))) by {
                    if y == x@ {
                        assert(av.take(k + 1)[k as int] == y);
                        assert(ss.contains(y) == strings_view(selected@).contains(y));
                    } else if av.take(k + 1).contains(y) {
                        let j = choose|j: int| 0 <= j < k + 1 && #[trigger] av.take(k + 1)[j] == y;
                        assert(av.take(k as int)[j] == y);
                    }
                }
            }
            k = k + 1;
        }
        proof {
            assert(av.take(all@.len() as int) =~= av);
            assert(strings_view(next@).to_set() =~= binding_step(gs, ss));
        }
        next
    }

    /// The parameters bound together with `root`, ascending.
    fn binding_closure(&self, root: &str) -> (r: Vec<String>)
        ensures
            strictly_sorted(strings_view(r@)),
            is_least_binding(self@, root@, strings_view(r@).to_set()),
    {
        let ghost gs = self@;
        let all = self.all_params();
        let ghost univ = strings_view(all@).to_set().insert(root@);
        let mut selected: Vec<String> = Vec::new();
        selected.push(root.to_owned());
        proof {
            assert(strings_view(selected@) =~= seq![root@]);
            lemma_binding_start(gs, root@, strings_view(selected@), univ);
        }
        loop
            invariant
                gs == self@,
                strictly_sorted(strings_view(all@)),
                forall|c: Seq<char>| #[trigger] strings_view(all@).contains(c) == groups_contain_param(gs, c),
                univ == strings_view(all@).to_set().insert(root@),
                strictly_sorted(strings_view(selected@)),
                strings_view(selected@).to_set().contains(root@),
                strings_view(selected@).to_set().subset_of(univ),
                forall|t: Set<Seq<char>>| t.contains(root@) && binding_closed(gs, t) ==> #[trigger] strings_view(selected@).to_set().subset_of(t),
            ensures
                strictly_sorted(strings_view(selected@)),
                is_least_binding(gs, root@, strings_view(selected@).to_set()),
            decreases univ.len() - strings_view(selected@).to_set().len(),
        {
            let ghost ss = strings_view(selected@).to_set();
            let next = self.binding_step_exec(&all, &selected);
            let ghost ns = strings_view(next@).to_set();
            if keys_equal(&next, &selected) {
                proof {
                    lemma_binding_fixed(gs, ss);
                }
                break;
            }
            proof {
                if ns == ss {
                    lemma_sorted_unique(strings_view(next@), strings_view(selected@));
                }
                assert(ns != ss);
                lemma_binding_grows(gs, root@, ss, univ, strings_view(all@));
            }
            selected = next;
        }
        selected
    }

    /// The groups restricted to the parameters bound together with `root`:
    /// `root`, and every parameter that an argument given to one of them
    /// mentions. Each group with some of them keeps those and its targets'
    /// arguments for them, without repeated targets.
    pub fn bindings_for(&self, root: &str) -> (r: Self)
        ensures
            groups_map(r@) == spec_bindings(self@, binding_params(self@, root@), self@.len() as int),
    {
        let ghost gs = self@;
        let sel = self.binding_closure(root);
        let ghost ss = strings_view(sel@).to_set();
        proof {
            let c = binding_params(gs, root@);
            assert(is_least_binding(gs, root@, c));
            assert(c.subset_of(ss));
            assert(ss.subset_of(c));
            assert(c =~= ss);
        }
        let mut r = DispatchGroups::new();
        let mut g: usize = 0;
        assert(groups_map(r@) =~= Map::empty());
        while g < self.groups.len()
            invariant
                gs == self@,
                gs == groups_view(self.groups@),
                ss == strings_view(sel@).to_set(),
                g <= self.groups@.len(),
                groups_map(r@) == spec_bindings(gs, ss, g as int),
            decreases self.groups@.len() - g,
        {
            let group = &self.groups[g];
            assert(gs[g as int] == group@);
            let kp = kept_params_exec(&group.params, &sel);
            if kp.len() > 0 {
                let ts = projected_targets_exec(group, &sel);
                r.insert(kp, ts);
            } else {
                assert(strings_view(kp@).len() == 0);
            }
            g = g + 1;
        }
        r
    }

    /// The groups of `self` and `other`, where both have a group with the same
    /// parameters, with `other`'s targets.
    pub fn combined_with(&self, other: &Self) -> (r: Self)
        ensures
            groups_map(r@) == groups_map(self@).union_prefer_right(groups_map(other@)),
    {
        proof {
            use_type_invariant(self);
            use_type_invariant(other);
        }
        let mut r = self.clone();
        let ghost a = groups_map(self@);
        let ghost os = other@;
        let mut i: usize = 0;
        assert(groups_map(os.take(0)) =~= Map::empty());
        assert(a.union_prefer_right(Map::empty()) =~= a);
        while i < other.groups.len()
            invariant
                i <= other.groups@.len(),
                os == other@,
                os == groups_view(other.groups@),
                keys_sorted(os),
                groups_map(r@) == a.union_prefer_right(groups_map(os.take(i as int))),
            decreases other.groups@.len() - i,
        {
            let g = &other.groups[i];
            assert(os[i as int] == g@);
            r.insert(clone_params(&g.params), clone_targets(&g.targets));
            proof {
                lemma_map_take(os, i as int);
                assert(a.union_prefer_right(groups_map(os.take(i + 1))) =~= a.union_prefer_right(
                    groups_map(os.take(i as int)),
                ).insert(os[i as int].params, os[i as int].targets));
            }
            i = i + 1;
        }
        assert(os.take(os.len() as int) =~= os);
        r
    }
}

impl Clone for DispatchGroups {
    fn clone(&self) -> (r: Self)
        ensures
            r@ == self@,
    {
        proof {
            use_type_invariant(self);
        }
        let mut out: Vec<DispatchGroup> = Vec::new();
        let mut i: usize = 0;
        while i < self.groups.len()
            invariant
                i <= self.groups@.len(),
                out@.len() == i,
                forall|j: int| 0 <= j < i ==> (#[trigger] out@[j])@ == self.groups@[j]@,
            decreases self.groups@.len() - i,
        {
            out.push(clone_group(&self.groups[i]));
            i = i + 1;
        }
        assert(groups_view(out@) =~= groups_view(self.groups@));
        DispatchGroups { groups: out }
    }
}

} // verus!
