//! Where the handle-id parameters of a polymorphic export go among its
//! other parameters. Each id is placed, in order of its wanted position and
//! then of its declaration, at the first free slot at or after that position
//! (capped at the last slot), else at the first free slot before it; the
//! other parameters fill the remaining slots in order.
use vstd::prelude::*;

verus! {

/// What stands in a slot: the id of the given declaration, or the other
/// parameter of the given index.
#[derive(Debug, Clone, Copy, PartialEq, Eq, Structural)]
pub enum ArgSlot {
    Id(usize),
    Real(usize),
}

/// Whether id `a` comes before id `b`: by wanted position, then by index.
pub open spec fn id_before(ats: Seq<usize>, a: int, b: int) -> bool {
    ats[a] < ats[b] || (ats[a] == ats[b] && a < b)
}

/// Scanning from `i`, the first id not yet placed that no other such id
/// comes before (`best` so far, `-1` for none).
pub open spec fn spec_pick(ats: Seq<usize>, done: Seq<bool>, i: int, best: int) -> int
    decreases ats.len() - i,
{
    if i < 0 || i >= ats.len() {
        best
    } else if !done[i] && (best < 0 || id_before(ats, i, best)) {
        spec_pick(ats, done, i + 1, i)
    } else {
        spec_pick(ats, done, i + 1, best)
    }
}

/// The first free slot in `[from, to)`, or `to`.
pub open spec fn spec_first_free(occ: Seq<Option<usize>>, from: int, to: int) -> int
    decreases to - from,
{
    if from >= to || from < 0 || from >= occ.len() {
        if from < to { from } else { to }
    } else if occ[from] is None {
        from
    } else {
        spec_first_free(occ, from + 1, to)
    }
}

/// The slots after id `k`, wanting position `at`, is placed.
pub open spec fn spec_place(occ: Seq<Option<usize>>, k: usize, at: usize) -> Seq<Option<usize>> {
    let len = occ.len() as int;
    let desired = if at < len - 1 { at as int } else { len - 1 };
    let p = spec_first_free(occ, desired, len);
    let pos = if p == len { spec_first_free(occ, 0, desired) } else { p };
    if 0 <= pos < len { occ.update(pos, Some(k)) } else { occ }
}

/// The slots and the ids placed after `steps` placements.
pub open spec fn spec_placed(ats: Seq<usize>, len: nat, steps: nat) -> (Seq<Option<usize>>, Seq<bool>)
    decreases steps,
{
    if steps == 0 {
        (Seq::new(len, |i: int| None), Seq::new(ats.len(), |i: int| false))
    } else {
        let (occ, done) = spec_placed(ats, len, (steps - 1) as nat);
        let k = spec_pick(ats, done, 0, -1);
        if 0 <= k < ats.len() {
            (spec_place(occ, k as usize, ats[k]), done.update(k, true))
        } else {
            (occ, done)
        }
    }
}

/// The number of free slots before `i`.
pub open spec fn spec_free_before(occ: Seq<Option<usize>>, i: int) -> nat
    decreases i,
{
    if i <= 0 || i > occ.len() {
        0
    } else {
        spec_free_before(occ, i - 1) + if occ[i - 1] is None { 1nat } else { 0nat }
    }
}

/// The parameters of an export with `n_real` other parameters and ids
/// wanting the positions `ats`, in order (see the module's description).
pub open spec fn spec_arg_slots(n_real: nat, ats: Seq<usize>) -> Seq<ArgSlot> {
    let len = n_real + ats.len();
    let occ = spec_placed(ats, len, ats.len()).0;
    Seq::new(
        len,
        |i: int|
            match occ[i] {
                Some(k) => ArgSlot::Id(k),
                None => ArgSlot::Real(spec_free_before(occ, i) as usize),
            },
    )
}

proof fn lemma_placed_lens(ats: Seq<usize>, len: nat, steps: nat)
    ensures
        spec_placed(ats, len, steps).0.len() == len,
        spec_placed(ats, len, steps).1.len() == ats.len(),
    decreases steps,
{
    if steps > 0 {
        lemma_placed_lens(ats, len, (steps - 1) as nat);
    }
}

proof fn lemma_first_free_bounds(occ: Seq<Option<usize>>, from: int, to: int)
    requires
        0 <= from,
    ensures
        from <= to ==> from <= spec_first_free(occ, from, to) <= to,
        from > to ==> spec_first_free(occ, from, to) == to,
    decreases to - from,
{
    if from < to && from < occ.len() && !(occ[from] is None) {
        lemma_first_free_bounds(occ, from + 1, to);
    }
}

fn pick(ats: &Vec<usize>, done: &Vec<bool>) -> (r: usize)
    requires
        done@.len() == ats@.len(),
    ensures
        (r == ats@.len() && spec_pick(ats@, done@, 0, -1) == -1) || (r < ats@.len() && spec_pick(ats@, done@, 0, -1) == r),
{
    let mut i: usize = 0;
    let mut best: usize = ats.len();
    while i < ats.len()
        invariant
            i <= ats@.len(),
            done@.len() == ats@.len(),
            best <= ats@.len(),
            best < ats@.len() ==> best < i,
            spec_pick(ats@, done@, i as int, if best == ats@.len() { -1 } else { best as int }) == spec_pick(ats@, done@, 0, -1),
        decreases ats@.len() - i,
    {
        if !done[i] && (best == ats.len() || ats[i] < ats[best] || (ats[i] == ats[best] && i < best)) {
            best = i;
        }
        i = i + 1;
    }
    best
}

fn first_free(occ: &Vec<Option<usize>>, from: usize, to: usize) -> (r: usize)
    requires
        from <= to <= occ@.len(),
    ensures
        r == spec_first_free(occ@, from as int, to as int),
{
    let mut p = from;
    while p < to && occ[p].is_some()
        invariant
            from <= p <= to <= occ@.len(),
            spec_first_free(occ@, p as int, to as int) == spec_first_free(occ@, from as int, to as int),
        decreases to - p,
    {
        p = p + 1;
    }
    p
}

/// The parameters of an export (see `spec_arg_slots`), from the number of
/// its other parameters and the wanted position of each id, in the order the
/// ids are declared.
pub fn handle_id_arg_slots(n_real: usize, ats: &Vec<usize>) -> (r: Vec<ArgSlot>)
    requires
        n_real + ats@.len() <= usize::MAX,
    ensures
        r@ == spec_arg_slots(n_real as nat, ats@),
{
    let len = n_real + ats.len();
    let ghost glen = len as nat;
    let mut occ: Vec<Option<usize>> = Vec::new();
    while occ.len() < len
        invariant
            occ@.len() <= len,
            forall|j: int| 0 <= j < occ@.len() ==> occ@[j] is None,
        decreases len - occ@.len(),
    {
        occ.push(None);
    }
    let mut done: Vec<bool> = Vec::new();
    while done.len() < ats.len()
        invariant
            done@.len() <= ats@.len(),
            forall|j: int| 0 <= j < done@.len() ==> !done@[j],
        decreases ats@.len() - done@.len(),
    {
        done.push(false);
    }
    proof {
        lemma_placed_lens(ats@, glen, 0);
        assert(occ@ =~= spec_placed(ats@, glen, 0).0);
        assert(done@ =~= spec_placed(ats@, glen, 0).1);
    }
    let mut step: usize = 0;
    while step < ats.len()
        invariant
            step <= ats@.len(),
            len == glen,
            glen == n_real + ats@.len(),
            occ@.len() == glen,
            done@.len() == ats@.len(),
            (occ@, done@) == spec_placed(ats@, glen, step as nat),
        decreases ats@.len() - step,
    {
        let k = pick(ats, &done);
        if k < ats.len() {
            let at = ats[k];
            let desired = if len >= 1 && at < len - 1 { at } else if len >= 1 { len - 1 } else { 0 };
            let p = first_free(&occ, desired, len);
            let pos = if p == len { first_free(&occ, 0, desired) } else { p };
            proof {
                lemma_first_free_bounds(occ@, desired as int, len as int);
                lemma_first_free_bounds(occ@, 0, desired as int);
            }
            if pos < len {
                occ.set(pos, Some(k));
            }
            done.set(k, true);
        }
        step = step + 1;
    }
    let mut out: Vec<ArgSlot> = Vec::new();
    let mut taken: usize = 0;
    let mut i: usize = 0;
    let ghost occv = occ@;
    while i < len
        invariant
            i <= len,
            len == glen,
            glen == n_real + ats@.len(),
            occ@ == occv,
            occv.len() == glen,
            occv == spec_placed(ats@, glen, ats@.len()).0,
            taken == spec_free_before(occv, i as int),
            taken <= i,
            out@.len() == i,
            forall|j: int| 0 <= j < i ==> out@[j] == #[trigger] spec_arg_slots(n_real as nat, ats@)[j],
        decreases len - i,
    {
        let ghost expect = spec_arg_slots(n_real as nat, ats@);
        assert(expect.len() == glen);
        assert(expect[i as int] == match occv[i as int] {
            Some(k) => ArgSlot::Id(k),
            None => ArgSlot::Real(spec_free_before(occv, i as int) as usize),
        });
        assert(spec_free_before(occv, i + 1) == spec_free_before(occv, i as int) + if occv[i as int] is None { 1nat } else { 0nat });
        match occ[i] {
            Some(k) => {
                out.push(ArgSlot::Id(k));
            },
            None => {
                out.push(ArgSlot::Real(taken));
                taken = taken + 1;
            },
        }
        i = i + 1;
    }
    assert(out@ =~= spec_arg_slots(n_real as nat, ats@));
    out
}

} // verus!
