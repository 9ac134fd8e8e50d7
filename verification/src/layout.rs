//! Choices of integer representation for enum discriminants.
use vstd::prelude::*;
use crate::repr::ReprPrimitive;
use crate::tokens::{Delimiter, SpecTok, Tok, clone_toks, toks_view};
use crate::preprocess::append_toks;

verus! {

/// The number of distinct values of a primitive repr type, or `None` for the
/// 64-bit types, which no enum can exhaust.
pub open spec fn repr_value_count(repr: ReprPrimitive) -> Option<nat> {
    match repr {
        ReprPrimitive::U8 | ReprPrimitive::I8 => Some(0x100nat),
        ReprPrimitive::U16 | ReprPrimitive::I16 => Some(0x1_0000nat),
        ReprPrimitive::U32 | ReprPrimitive::I32 => Some(0x1_0000_0000nat),
        ReprPrimitive::U64 | ReprPrimitive::I64 => None,
    }
}

/// Whether an enum with `num_variants` variants uses every value of its repr type.
pub fn is_exhaustive_enum(num_variants: usize, repr: ReprPrimitive) -> (r: bool)
    ensures
        r == (repr_value_count(repr) == Some(num_variants as nat)),
{
    let max_values: u64 = match repr {
        ReprPrimitive::U8 | ReprPrimitive::I8 => 0x100,
        ReprPrimitive::U16 | ReprPrimitive::I16 => 0x1_0000,
        ReprPrimitive::U32 | ReprPrimitive::I32 => 0x1_0000_0000,
        ReprPrimitive::U64 | ReprPrimitive::I64 => {
            return false;
        },
    };
    num_variants as u64 == max_values
}

/// The smallest unsigned repr that holds the discriminants `0..num_variants`
/// (each discriminant is at most `num_variants`).
pub open spec fn spec_infer_repr(num_variants: nat) -> ReprPrimitive {
    if num_variants <= 0xff {
        ReprPrimitive::U8
    } else if num_variants <= 0xffff {
        ReprPrimitive::U16
    } else if num_variants <= 0xffff_ffff {
        ReprPrimitive::U32
    } else {
        ReprPrimitive::U64
    }
}

/// Picks the discriminant repr of an enum that declares none.
pub fn infer_repr(num_variants: usize) -> (r: ReprPrimitive)
    ensures
        r == spec_infer_repr(num_variants as nat),
{
    if num_variants <= 0xff {
        ReprPrimitive::U8
    } else if num_variants <= 0xffff {
        ReprPrimitive::U16
    } else if (num_variants as u64) <= 0xffff_ffff {
        ReprPrimitive::U32
    } else {
        ReprPrimitive::U64
    }
}

/// An enum whose repr was inferred never exhausts it, so an inferred repr
/// always leaves a niche value free.
pub proof fn lemma_inferred_repr_not_exhaustive(num_variants: nat)
    ensures
        repr_value_count(spec_infer_repr(num_variants)) != Some(num_variants),
{
}

} // verus!

verus! {

/// The most elements that one tuple level holds.
pub const MAX_TUPLE_ARITY: usize = 12;

/// A nesting of elements into tuples: an element (by index) or a tuple of
/// nested parts.
#[derive(Debug, PartialEq, Eq)]
pub enum NestedTuple {
    Element(usize),
    Tuple(Vec<NestedTuple>),
}

/// How many parts a level of `n > 12` elements is split into.
pub open spec fn spec_num_positions(n: int) -> int {
    let c = (n + 11) / 12;
    if c < 12 {
        c
    } else {
        12
    }
}

/// How many elements part `i` of a level of `n` elements holds: the elements
/// are spread evenly, the first `n % parts` parts holding one more.
pub open spec fn spec_part_len(n: int, i: int) -> int {
    let p = spec_num_positions(n);
    n / p + if i < n % p {
        1int
    } else {
        0int
    }
}

/// Where part `i` of a level of `n` elements starts.
pub open spec fn spec_part_start(n: int, i: int) -> int {
    let p = spec_num_positions(n);
    i * (n / p) + if i < n % p {
        i
    } else {
        n % p
    }
}

/// Whether `t` nests the elements `offset..offset + n`: up to 12 elements form
/// one flat tuple; more are split into at most 12 parts of nearly equal size,
/// in order, each nested the same way.
pub open spec fn spec_nests(t: NestedTuple, offset: int, n: int) -> bool
    decreases t,
{
    match t {
        NestedTuple::Element(_) => false,
        NestedTuple::Tuple(parts) => {
            if n <= 12 {
                &&& parts@.len() == n
                &&& forall|i: int|
                    0 <= i < n ==> parts@[i] == NestedTuple::Element((offset + i) as usize)
            } else {
                &&& parts@.len() == spec_num_positions(n)
                &&& forall|i: int|
                    #![trigger parts@[i]]
                    0 <= i < parts@.len() ==> spec_nests(
                        parts@[i],
                        offset + spec_part_start(n, i),
                        spec_part_len(n, i),
                    )
            }
        },
    }
}

/// The element that the accessor path leads to inside `t`, if any.
pub open spec fn spec_element_at(t: NestedTuple, path: Seq<usize>) -> Option<usize>
    decreases path.len(),
{
    if path.len() == 0 {
        match t {
            NestedTuple::Element(x) => Some(x),
            NestedTuple::Tuple(_) => None,
        }
    } else {
        match t {
            NestedTuple::Element(_) => None,
            NestedTuple::Tuple(parts) => if path[0] < parts@.len() {
                spec_element_at(parts@[path[0] as int], path.skip(1))
            } else {
                None
            },
        }
    }
}

/// Whether every tuple in `t` holds at most 12 parts.
pub open spec fn spec_arity_bounded(t: NestedTuple) -> bool
    decreases t,
{
    match t {
        NestedTuple::Element(_) => true,
        NestedTuple::Tuple(parts) => {
            &&& parts@.len() <= 12
            &&& forall|i: int|
                #![trigger parts@[i]]
                0 <= i < parts@.len() ==> spec_arity_bounded(parts@[i])
        },
    }
}

/// The elements of the first `k` parts of `t`, left to right.
pub open spec fn spec_flat(t: NestedTuple, k: int) -> Seq<usize>
    decreases t, k,
{
    match t {
        NestedTuple::Element(x) => seq![x],
        NestedTuple::Tuple(parts) => if k <= 0 || k > parts@.len() {
            Seq::empty()
        } else {
            spec_flat(t, k - 1) + spec_flat(parts@[k - 1], spec_num_parts(parts@[k - 1]))
        },
    }
}

/// How many parts a tuple has; none for an element.
pub open spec fn spec_num_parts(t: NestedTuple) -> int {
    match t {
        NestedTuple::Element(_) => 0,
        NestedTuple::Tuple(parts) => parts@.len() as int,
    }
}

/// The elements of `t`, left to right.
pub open spec fn spec_flatten(t: NestedTuple) -> Seq<usize> {
    spec_flat(t, spec_num_parts(t))
}

/// Whether every tuple in `t` holds from 1 to 12 parts.
pub open spec fn spec_arity_in_range(t: NestedTuple) -> bool
    decreases t,
{
    match t {
        NestedTuple::Element(_) => true,
        NestedTuple::Tuple(parts) => {
            &&& 1 <= parts@.len() <= 12
            &&& forall|i: int|
                #![trigger parts@[i]]
                0 <= i < parts@.len() ==> spec_arity_in_range(parts@[i])
        },
    }
}

/// The elements `offset..offset + n`, in order.
pub open spec fn spec_run(offset: int, n: int) -> Seq<usize> {
    Seq::new(n as nat, |i: int| (offset + i) as usize)
}

proof fn lemma_positions(n: int)
    requires
        n > 12,
    ensures
        2 <= spec_num_positions(n) <= 12,
        n == spec_num_positions(n) * (n / spec_num_positions(n)) + n % spec_num_positions(n),
        0 <= n % spec_num_positions(n) < spec_num_positions(n),
        forall|i: int|
            0 <= i < spec_num_positions(n) ==> 1 <= #[trigger] spec_part_len(n, i) < n,
{
    let p = spec_num_positions(n);
    assert(2 <= p <= 12);
    assert(n == p * (n / p) + n % p) by (nonlinear_arith)
        requires
            p > 0,
    ;
    assert(0 <= n % p < p) by (nonlinear_arith)
        requires
            p > 0,
    ;
    assert(n / p >= 1 && n / p <= n / 2) by (nonlinear_arith)
        requires
            2 <= p <= 12,
            n > 12,
            n == p * (n / p) + n % p,
            0 <= n % p < p,
    ;
}

proof fn lemma_part_start_step(n: int, i: int)
    requires
        n > 12,
        0 <= i < spec_num_positions(n),
    ensures
        spec_part_start(n, i + 1) == spec_part_start(n, i) + spec_part_len(n, i),
        spec_part_start(n, 0) == 0,
{
    let p = spec_num_positions(n);
    let q = n / p;
    assert((i + 1) * q == i * q + q) by (nonlinear_arith);
    assert(0 * q == 0) by (nonlinear_arith);
}

proof fn lemma_flat_run(t: NestedTuple, offset: int, n: int, k: int)
    requires
        spec_nests(t, offset, n),
        n >= 1,
        t is Tuple,
        0 <= k <= spec_num_parts(t),
    ensures
        n <= 12 ==> spec_flat(t, k) == spec_run(offset, k),
        n > 12 ==> spec_flat(t, k) == spec_run(offset, spec_part_start(n, k)),
    decreases t, k,
{
    let parts = t->Tuple_0;
    if k > 0 {
        lemma_flat_run(t, offset, n, k - 1);
        let child = parts@[k - 1];
        if n <= 12 {
            assert(child == NestedTuple::Element((offset + k - 1) as usize));
            assert(spec_flat(child, spec_num_parts(child)) == seq![(offset + k - 1) as usize]);
            assert(spec_run(offset, k - 1) + seq![(offset + k - 1) as usize] =~= spec_run(offset, k));
        } else {
            lemma_positions(n);
            lemma_part_start_step(n, k - 1);
            let st = offset + spec_part_start(n, k - 1);
            let ln = spec_part_len(n, k - 1);
            assert(spec_nests(child, st, ln));
            assert(child is Tuple);
            lemma_flat_run(child, st, ln, spec_num_parts(child));
            if ln <= 12 {
                assert(spec_num_parts(child) == ln);
                assert(spec_flat(child, spec_num_parts(child)) == spec_run(st, ln));
            } else {
                lemma_positions(ln);
                assert(spec_num_parts(child) == spec_num_positions(ln));
                let p = spec_num_positions(ln);
                let q = ln / p;
                assert(p * q + ln % p == ln);
                assert(spec_part_start(ln, p) == ln) by {
                    assert(p * (ln / p) == p * q);
                }
                assert(spec_flat(child, spec_num_parts(child)) == spec_run(st, ln));
            }
            assert(spec_run(offset, spec_part_start(n, k - 1)) + spec_run(st, ln) =~= spec_run(
                offset,
                spec_part_start(n, k),
            ));
        }
    } else {
        assert(spec_run(offset, 0) =~= Seq::<usize>::empty());
        if n > 12 {
            lemma_positions(n);
            lemma_part_start_step(n, 0);
        }
    }
}

/// Nesting `n >= 1` elements gives tuples of 1 to 12 parts each, whose
/// elements, read left to right, are `offset..offset + n` in order.
pub proof fn lemma_nests_shape(t: NestedTuple, offset: int, n: int)
    requires
        spec_nests(t, offset, n),
        n >= 1,
    ensures
        spec_arity_in_range(t),
        spec_flatten(t) == spec_run(offset, n),
    decreases t,
{
    let parts = t->Tuple_0;
    lemma_flat_run(t, offset, n, spec_num_parts(t));
    if n <= 12 {
        assert forall|i: int| 0 <= i < parts@.len() implies spec_arity_in_range(#[trigger] parts@[i]) by {
            assert(parts@[i] == NestedTuple::Element((offset + i) as usize));
        }
    } else {
        lemma_positions(n);
        let p = spec_num_positions(n);
        assert(spec_part_start(n, p) == n) by {
            assert(p * (n / p) + n % p == n);
        }
        assert forall|i: int| 0 <= i < parts@.len() implies spec_arity_in_range(#[trigger] parts@[i]) by {
            lemma_nests_shape(parts@[i], offset + spec_part_start(n, i), spec_part_len(n, i));
        }
    }
}

/// Nesting within arity 12 keeps every tuple at most 12 wide.
pub proof fn lemma_nests_arity_bounded(t: NestedTuple, offset: int, n: int)
    requires
        spec_nests(t, offset, n),
    ensures
        spec_arity_bounded(t),
    decreases t,
{
    match t {
        NestedTuple::Element(_) => {},
        NestedTuple::Tuple(parts) => {
            if n <= 12 {
                assert forall|i: int| 0 <= i < parts@.len() implies spec_arity_bounded(
                    #[trigger] parts@[i],
                ) by {
                    assert(parts@[i] == NestedTuple::Element((offset + i) as usize));
                }
            } else {
                lemma_positions(n);
                assert forall|i: int| 0 <= i < parts@.len() implies spec_arity_bounded(
                    #[trigger] parts@[i],
                ) by {
                    lemma_nests_arity_bounded(
                        parts@[i],
                        offset + spec_part_start(n, i),
                        spec_part_len(n, i),
                    );
                }
            }
        },
    }
}

/// Nests the elements `offset..offset + n`; for each element, in order, pushes
/// onto `accessors` the path that reaches it, after `prefix`.
fn build_nested(
    offset: usize,
    n: usize,
    prefix: &mut Vec<usize>,
    accessors: &mut Vec<Vec<usize>>,
) -> (t: NestedTuple)
    requires
        offset + n <= usize::MAX,
    ensures
        spec_nests(t, offset as int, n as int),
        final(prefix)@ == old(prefix)@,
        final(accessors)@.len() == old(accessors)@.len() + n,
        forall|k: int|
            0 <= k < old(accessors)@.len() ==> #[trigger] final(accessors)@[k] == old(accessors)@[k],
        forall|m: int|
            #![trigger final(accessors)@[old(accessors)@.len() + m]]
            0 <= m < n ==> {
                let entry = final(accessors)@[old(accessors)@.len() + m]@;
                &&& entry.len() > old(prefix)@.len()
                &&& entry.subrange(0, old(prefix)@.len() as int) == old(prefix)@
                &&& spec_element_at(t, entry.skip(old(prefix)@.len() as int)) == Some(
                    (offset + m) as usize,
                )
            },
    decreases n,
{
    let ghost old_prefix = prefix@;
    let ghost old_acc = accessors@;
    if n <= MAX_TUPLE_ARITY {
        let mut parts: Vec<NestedTuple> = Vec::new();
        let mut i: usize = 0;
        while i < n
            invariant
                i <= n <= 12,
                offset + n <= usize::MAX,
                prefix@ == old_prefix,
                parts@.len() == i,
                forall|j: int| 0 <= j < i ==> parts@[j] == NestedTuple::Element((offset + j) as usize),
                accessors@.len() == old_acc.len() + i,
                forall|k: int| 0 <= k < old_acc.len() ==> #[trigger] accessors@[k] == old_acc[k],
                forall|m: int|
                    #![trigger accessors@[old_acc.len() + m]]
                    0 <= m < i ==> accessors@[old_acc.len() + m]@ == old_prefix.push(m as usize),
            decreases n - i,
        {
            parts.push(NestedTuple::Element(offset + i));
            let mut path = prefix.clone();
            path.push(i);
            assert(path@ =~= old_prefix.push(i));
            accessors.push(path);
            i = i + 1;
        }
        let ghost parts_v = parts@;
        let t = NestedTuple::Tuple(parts);
        assert forall|m: int|
            #![trigger accessors@[old_acc.len() + m]]
            0 <= m < n implies {
            let entry = accessors@[old_acc.len() + m]@;
            &&& entry.len() > old_prefix.len()
            &&& entry.subrange(0, old_prefix.len() as int) == old_prefix
            &&& spec_element_at(t, entry.skip(old_prefix.len() as int)) == Some((offset + m) as usize)
        } by {
            let entry = accessors@[old_acc.len() + m]@;
            assert(entry.subrange(0, old_prefix.len() as int) =~= old_prefix);
            let rest = entry.skip(old_prefix.len() as int);
            assert(rest =~= seq![m as usize]);
            assert(rest.skip(1) =~= Seq::<usize>::empty());
            assert(parts_v[m] == NestedTuple::Element((offset + m) as usize));
            assert(spec_element_at(parts_v[m], rest.skip(1)) == Some((offset + m) as usize));
            assert(spec_element_at(t, rest) == spec_element_at(parts_v[rest[0] as int], rest.skip(1)));
        }
        t
    } else {
        let c = (n - 1) / MAX_TUPLE_ARITY + 1;
        let num_positions = if c < MAX_TUPLE_ARITY {
            c
        } else {
            MAX_TUPLE_ARITY
        };
        proof {
            assert(c == (n + 11) / 12);
            assert(num_positions == spec_num_positions(n as int));
            lemma_positions(n as int);
        }
        let base_count = n / num_positions;
        let remainder = n % num_positions;
        let mut parts: Vec<NestedTuple> = Vec::new();
        let mut start: usize = 0;
        let mut i: usize = 0;
        while i < num_positions
            invariant
                n > 12,
                offset + n <= usize::MAX,
                num_positions == spec_num_positions(n as int),
                2 <= num_positions <= 12,
                base_count == n / num_positions,
                remainder == n % num_positions,
                n == num_positions * base_count + remainder,
                remainder < num_positions,
                i <= num_positions,
                start == spec_part_start(n as int, i as int),
                prefix@ == old_prefix,
                parts@.len() == i,
                forall|j: int|
                    #![trigger parts@[j]]
                    0 <= j < i ==> spec_nests(
                        parts@[j],
                        offset + spec_part_start(n as int, j),
                        spec_part_len(n as int, j),
                    ),
                accessors@.len() == old_acc.len() + start,
                forall|k: int| 0 <= k < old_acc.len() ==> #[trigger] accessors@[k] == old_acc[k],
                forall|m: int|
                    #![trigger accessors@[old_acc.len() + m]]
                    0 <= m < start ==> {
                        let entry = accessors@[old_acc.len() + m]@;
                        let rest = entry.skip(old_prefix.len() as int);
                        &&& entry.len() > old_prefix.len() + 1
                        &&& entry.subrange(0, old_prefix.len() as int) == old_prefix
                        &&& rest[0] < i
                        &&& spec_element_at(parts@[rest[0] as int], rest.skip(1)) == Some(
                            (offset + m) as usize,
                        )
                    },
            decreases num_positions - i,
        {
            let count = if i < remainder {
                base_count + 1
            } else {
                base_count
            };
            proof {
                lemma_positions(n as int);
                assert(count == spec_part_len(n as int, i as int));
                assert(spec_part_start(n as int, i as int + 1) == start + count) by (nonlinear_arith)
                    requires
                        start == spec_part_start(n as int, i as int),
                        count == spec_part_len(n as int, i as int),
                        num_positions == spec_num_positions(n as int),
                        base_count == n / num_positions,
                        remainder == n % num_positions,
                        i < num_positions,
                ;
                assert(spec_part_start(n as int, i as int + 1) <= n) by (nonlinear_arith)
                    requires
                        i + 1 <= num_positions,
                        num_positions == spec_num_positions(n as int),
                        base_count == n / num_positions,
                        remainder == n % num_positions,
                        n == num_positions * base_count + remainder,
                        remainder < num_positions,
                ;
            }
            let ghost acc_before = accessors@;
            let ghost parts_before = parts@;
            assert(count < n);
            prefix.push(i);
            let part = build_nested(offset + start, count, prefix, accessors);
            prefix.pop();
            assert(prefix@ =~= old_prefix);
            parts.push(part);
            proof {
                let new_prefix = old_prefix.push(i);
                assert forall|m: int|
                    #![trigger accessors@[old_acc.len() + m]]
                    0 <= m < start + count implies {
                    let entry = accessors@[old_acc.len() + m]@;
                    let rest = entry.skip(old_prefix.len() as int);
                    &&& entry.len() > old_prefix.len() + 1
                    &&& entry.subrange(0, old_prefix.len() as int) == old_prefix
                    &&& rest[0] < i + 1
                    &&& spec_element_at(parts@[rest[0] as int], rest.skip(1)) == Some(
                        (offset + m) as usize,
                    )
                } by {
                    if m < start {
                        assert(accessors@[old_acc.len() + m] == acc_before[old_acc.len() + m]);
                        let entry = accessors@[old_acc.len() + m]@;
                        let rest = entry.skip(old_prefix.len() as int);
                        assert(parts@[rest[0] as int] == parts_before[rest[0] as int]);
                    } else {
                        let mm = m - start;
                        assert(old_acc.len() + m == acc_before.len() + mm);
                        let entry = accessors@[acc_before.len() + mm]@;
                        assert(entry.len() > new_prefix.len());
                        assert(entry.subrange(0, new_prefix.len() as int) == new_prefix);
                        assert(spec_element_at(part, entry.skip(new_prefix.len() as int)) == Some(
                            (offset + start + mm) as usize,
                        ));
                        let rest = entry.skip(old_prefix.len() as int);
                        assert(entry[old_prefix.len() as int] == new_prefix[old_prefix.len() as int]);
                        assert(rest[0] == i);
                        assert(rest.skip(1) =~= entry.skip(new_prefix.len() as int));
                        assert(entry.subrange(0, old_prefix.len() as int) =~= new_prefix.subrange(
                            0,
                            old_prefix.len() as int,
                        ));
                        assert(new_prefix.subrange(0, old_prefix.len() as int) =~= old_prefix);
                    }
                }
            }
            start = start + count;
            i = i + 1;
        }
        proof {
            assert(start == n) by (nonlinear_arith)
                requires
                    start == spec_part_start(n as int, num_positions as int),
                    num_positions == spec_num_positions(n as int),
                    base_count == n / num_positions,
                    remainder == n % num_positions,
                    n == num_positions * base_count + remainder,
                    remainder < num_positions,
            ;
        }
        let t = NestedTuple::Tuple(parts);
        assert forall|m: int|
            #![trigger accessors@[old_acc.len() + m]]
            0 <= m < n implies {
            let entry = accessors@[old_acc.len() + m]@;
            &&& entry.len() > old_prefix.len()
            &&& entry.subrange(0, old_prefix.len() as int) == old_prefix
            &&& spec_element_at(t, entry.skip(old_prefix.len() as int)) == Some((offset + m) as usize)
        } by {
            let entry = accessors@[old_acc.len() + m]@;
            let rest = entry.skip(old_prefix.len() as int);
            assert(rest.len() > 0);
        }
        t
    }
}

/// Nests `n` elements into tuples of at most 12, and gives for each element,
/// in order, the accessor path (tuple indices, outermost first) that reaches it.
pub fn build_nested_tuple(n: usize) -> (r: (NestedTuple, Vec<Vec<usize>>))
    ensures
        spec_nests(r.0, 0, n as int),
        r.1@.len() == n,
        forall|k: int| 0 <= k < n ==> spec_element_at(r.0, #[trigger] r.1@[k]@) == Some(k as usize),
{
    let mut prefix: Vec<usize> = Vec::new();
    let mut accessors: Vec<Vec<usize>> = Vec::new();
    let t = build_nested(0, n, &mut prefix, &mut accessors);
    assert forall|k: int| 0 <= k < n implies spec_element_at(t, #[trigger] accessors@[k]@) == Some(
        k as usize,
    ) by {
        assert(accessors@[0 + k] == accessors@[k]);
        assert(accessors@[k]@.skip(0) =~= accessors@[k]@);
    }
    (t, accessors)
}

// ---------------------------------------------------------------------------
// Writing the nested tuple out.

/// The tokens of element `x`: the `x`-th of `types`, or nothing where there
/// is none.
pub open spec fn spec_element_tokens(types: Seq<Seq<SpecTok>>, x: usize) -> Seq<SpecTok> {
    if x < types.len() {
        types[x as int]
    } else {
        Seq::empty()
    }
}

/// The tokens of `t` (`k < 0`), or of its first `k` parts each followed by a
/// comma (`k >= 0`): an element is its type's tokens, a tuple its parts in
/// parentheses.
pub open spec fn spec_write_nested(t: NestedTuple, types: Seq<Seq<SpecTok>>, k: int) -> Seq<SpecTok>
    decreases t, (if k < 0 {
        1int
    } else {
        0int
    }), k,
{
    match t {
        NestedTuple::Element(x) => if k < 0 {
            spec_element_tokens(types, x)
        } else {
            Seq::empty()
        },
        NestedTuple::Tuple(parts) => if k < 0 {
            seq![SpecTok::Group(Delimiter::Parenthesis, spec_write_nested(t, types, parts@.len() as int))]
        } else if k == 0 || k > parts@.len() {
            Seq::empty()
        } else {
            spec_write_nested(t, types, k - 1) + spec_write_nested(parts@[k - 1], types, -1) + seq![
                SpecTok::Punct(',', false),
            ]
        },
    }
}

/// `<T as co3::ExternC>::CType` for the tokens `T` of a type.
pub open spec fn spec_c_type_tokens(t: Seq<SpecTok>) -> Seq<SpecTok> {
    seq![SpecTok::Punct('<', false)] + t + seq![
        SpecTok::Ident("as"@),
        SpecTok::Ident("co3"@),
        SpecTok::Punct(':', true),
        SpecTok::Punct(':', false),
        SpecTok::Ident("ExternC"@),
        SpecTok::Punct('>', false),
        SpecTok::Punct(':', true),
        SpecTok::Punct(':', false),
        SpecTok::Ident("CType"@),
    ]
}

fn write_nested(t: &NestedTuple, types: &Vec<Vec<Tok>>) -> (r: Vec<Tok>)
    ensures
        toks_view(r@) == spec_write_nested(*t, types_tokens_view(types@), -1),
    decreases t,
{
    match t {
        NestedTuple::Element(x) => {
            if *x < types.len() {
                clone_toks(&types[*x])
            } else {
                Vec::new()
            }
        },
        NestedTuple::Tuple(parts) => {
            let ghost tv = types_tokens_view(types@);
            let mut inner: Vec<Tok> = Vec::new();
            let mut m: usize = 0;
            while m < parts.len()
                invariant
                    m <= parts@.len(),
                    tv == types_tokens_view(types@),
                    *t == NestedTuple::Tuple(*parts),
                    toks_view(inner@) == spec_write_nested(*t, tv, m as int),
                decreases parts@.len() - m,
            {
                proof {
                    assert(decreases_to!(*t => (*t)->Tuple_0));
                    assert(decreases_to!(*parts => parts@));
                    assert(decreases_to!(parts@ => parts@[m as int]));
                }
                let part = write_nested(&parts[m], types);
                let ghost before = toks_view(inner@);
                append_toks(&mut inner, &part);
                inner.push(Tok::Punct(',', false));
                assert(toks_view(inner@) =~= before + toks_view(part@) + seq![SpecTok::Punct(',', false)]);
                m = m + 1;
            }
            let r = vec![Tok::Group(Delimiter::Parenthesis, inner)];
            assert(toks_view(r@) =~= seq![SpecTok::Group(Delimiter::Parenthesis, toks_view(inner@))]);
            r
        },
    }
}

/// The values of a sequence of token lists.
pub open spec fn types_tokens_view(v: Seq<Vec<Tok>>) -> Seq<Seq<SpecTok>> {
    Seq::new(v.len(), |i: int| toks_view(v[i]@))
}

/// `<T as co3::ExternC>::CType` for the tokens `T` of a type.
pub(crate) fn c_type_tokens(t: &Vec<Tok>) -> (r: Vec<Tok>)
    ensures
        toks_view(r@) == spec_c_type_tokens(toks_view(t@)),
{
    let mut out: Vec<Tok> = vec![Tok::Punct('<', false)];
    let ghost head = toks_view(out@);
    append_toks(&mut out, t);
    let tail = vec![
        Tok::Ident("as".to_owned()),
        Tok::Ident("co3".to_owned()),
        Tok::Punct(':', true),
        Tok::Punct(':', false),
        Tok::Ident("ExternC".to_owned()),
        Tok::Punct('>', false),
        Tok::Punct(':', true),
        Tok::Punct(':', false),
        Tok::Ident("CType".to_owned()),
    ];
    let ghost mid = toks_view(out@);
    append_toks(&mut out, &tail);
    proof {
        reveal_strlit("as");
        reveal_strlit("co3");
        reveal_strlit("ExternC");
        reveal_strlit("CType");
        assert(toks_view(tail@) =~= seq![
            SpecTok::Ident("as"@),
            SpecTok::Ident("co3"@),
            SpecTok::Punct(':', true),
            SpecTok::Punct(':', false),
            SpecTok::Ident("ExternC"@),
            SpecTok::Punct('>', false),
            SpecTok::Punct(':', true),
            SpecTok::Punct(':', false),
            SpecTok::Ident("CType"@),
        ]);
        assert(toks_view(out@) =~= spec_c_type_tokens(toks_view(t@)));
    }
    out
}

/// The tuple type that nests the types (their tokens), and its C
/// counterpart: the same nesting with each type `T` written
/// `<T as co3::ExternC>::CType`.
pub fn write_nested_tuples(t: &NestedTuple, types: &Vec<Vec<Tok>>) -> (r: (Vec<Tok>, Vec<Tok>))
    ensures
        toks_view(r.0@) == spec_write_nested(*t, types_tokens_view(types@), -1),
        toks_view(r.1@) == spec_write_nested(
            *t,
            types_tokens_view(types@).map_values(|x: Seq<SpecTok>| spec_c_type_tokens(x)),
            -1,
        ),
{
    let mut c_types: Vec<Vec<Tok>> = Vec::new();
    let mut i: usize = 0;
    while i < types.len()
        invariant
            i <= types@.len(),
            c_types@.len() == i,
            forall|j: int| 0 <= j < i ==> toks_view((#[trigger] c_types@[j])@) == spec_c_type_tokens(toks_view(types@[j]@)),
        decreases types@.len() - i,
    {
        c_types.push(c_type_tokens(&types[i]));
        i = i + 1;
    }
    assert(types_tokens_view(c_types@) =~= types_tokens_view(types@).map_values(
        |x: Seq<SpecTok>| spec_c_type_tokens(x),
    ));
    (write_nested(t, types), write_nested(t, &c_types))
}

} // verus!

