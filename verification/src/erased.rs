//! The list of an `#[erased(...)]` attribute: groups `use<A, B> @ (<X, Y> |
//! ...)` separated by commas, read from its tokens. Where each part goes is
//! decided here; whether a part reads as `use<...>` or as generic arguments
//! is `syn`'s answer.
use vstd::prelude::*;
use crate::mineral::{render, render_range};
use crate::preprocess::{
    SpecWhereReadings, WhereReadings, angle_outcome, angles_at, capture_at, capture_outcome,
    first_bad_target, first_punct, lemma_first_punct_in, lemma_split_within, opt_bools_view,
    punct_is, ranges_within, split_ranges_exec, split_top_level, syn_angle_args,
    syn_precise_capture,
};
use crate::tokens::{Delimiter, SpecTok, Tok, toks_view};

verus! {

/// A group as written in the list, by positions: the tokens of its
/// parameters (`capture.0..capture.1`), the position of its parenthesized
/// targets, and the ranges of the targets inside those parentheses.
#[derive(Debug, PartialEq, Eq)]
pub struct WrittenGroup {
    pub capture: (usize, usize),
    pub group: usize,
    pub targets: Vec<(usize, usize)>,
}

/// The value of a written group.
pub struct SpecWrittenGroup {
    pub capture: (int, int),
    pub group: int,
    pub targets: Seq<(int, int)>,
}

impl View for WrittenGroup {
    type V = SpecWrittenGroup;

    open spec fn view(&self) -> SpecWrittenGroup {
        SpecWrittenGroup {
            capture: (self.capture.0 as int, self.capture.1 as int),
            group: self.group as int,
            targets: self.targets@.map_values(|r: (usize, usize)| (r.0 as int, r.1 as int)),
        }
    }
}

/// The values of a sequence of written groups.
pub open spec fn written_view(s: Seq<WrittenGroup>) -> Seq<SpecWrittenGroup> {
    Seq::new(s.len(), |i: int| s[i]@)
}

/// The ranges of the targets inside the parentheses: the parts between the
/// `|` outside angle brackets, a last empty part (after a trailing `|`) left
/// out.
pub open spec fn target_ranges(inner: Seq<SpecTok>) -> Seq<(int, int)> {
    let rs = split_top_level(inner, '|');
    if rs.len() > 1 && rs.last().0 == rs.last().1 {
        rs.drop_last()
    } else {
        rs
    }
}

/// Whether the token at `i` is a parenthesized group.
pub open spec fn is_paren_at(t: Seq<SpecTok>, i: int) -> bool {
    0 <= i < t.len() && t[i] matches SpecTok::Group(Delimiter::Parenthesis, _)
}

/// Reading the groups from position `i` on, the `k`-th group first: the
/// groups read, and the position where the list stops being well formed,
/// if it does. A group is the tokens up to the next `@`, which must read as
/// `use<...>`, then a parenthesized group whose targets must read as
/// generic arguments, then a comma or the end.
pub open spec fn spec_read_groups_from(t: Seq<SpecTok>, i: int, k: int, rd: SpecWhereReadings) -> (
    Seq<SpecWrittenGroup>,
    Option<int>,
)
    decreases t.len() - i,
{
    if i < 0 || i >= t.len() {
        (Seq::empty(), None)
    } else {
        match first_punct(t, '@', i) {
            None => (Seq::empty(), Some(i)),
            Some(at) => if capture_at(rd, k) is None {
                (Seq::empty(), Some(i))
            } else if !is_paren_at(t, at + 1) {
                (Seq::empty(), Some(at + 1))
            } else {
                let rs = target_ranges(t[at + 1]->Group_1);
                if first_bad_target(angles_at(rd, k), rs, 0) is Some {
                    (Seq::empty(), Some(at + 1))
                } else {
                    let g = SpecWrittenGroup { capture: (i, at), group: at + 1, targets: rs };
                    if at + 2 >= t.len() {
                        (seq![g], None)
                    } else if !punct_is(t[at + 2], ',') {
                        (seq![g], Some(at + 2))
                    } else if at + 3 <= i {
                        (seq![g], None)
                    } else {
                        let (rest, stop) = spec_read_groups_from(t, at + 3, k + 1, rd);
                        (seq![g] + rest, stop)
                    }
                }
            },
        }
    }
}

/// The groups of an `#[erased(...)]` list, given what `syn` said of their
/// parts (`rd`, by group): the groups read, and the position of the token
/// where the list stops being well formed, if it does.
pub open spec fn spec_read_groups(t: Seq<SpecTok>, rd: SpecWhereReadings) -> (Seq<SpecWrittenGroup>, Option<int>) {
    spec_read_groups_from(t, 0, 0, rd)
}

/// The positions where the groups start that `syn` is asked about, from
/// position `i` on: each run of tokens up to an `@`, followed by the next
/// one where a parenthesized group and a comma come after the `@`.
pub open spec fn group_starts_from(t: Seq<SpecTok>, i: int) -> Seq<int>
    decreases t.len() - i,
{
    if i < 0 || i >= t.len() {
        Seq::empty()
    } else {
        match first_punct(t, '@', i) {
            None => Seq::empty(),
            Some(at) => if is_paren_at(t, at + 1) && at + 2 < t.len() && punct_is(t[at + 2], ',') && i < at + 3 {
                seq![i] + group_starts_from(t, at + 3)
            } else {
                seq![i]
            },
        }
    }
}

/// Whether the readings of the group starting at `i` are ones that `syn`
/// may give: of the rendered tokens before its `@` as `use<...>`, and of
/// each target in its parentheses as generic arguments.
pub open spec fn group_reading_fits(t: Seq<SpecTok>, i: int, cap: Option<Seq<bool>>, angles: Seq<bool>) -> bool {
    match first_punct(t, '@', i) {
        Some(at) => {
            &&& capture_outcome(render(t.subrange(i, at)), cap)
            &&& is_paren_at(t, at + 1) ==> {
                let inner = t[at + 1]->Group_1;
                let rs = target_ranges(inner);
                &&& angles.len() == rs.len()
                &&& forall|m: int|
                    0 <= m < rs.len() ==> angle_outcome(render(inner.subrange(rs[m].0, rs[m].1)), #[trigger] angles[m])
            }
        },
        None => true,
    }
}

/// Whether the readings are ones that `syn` may give of the groups of the
/// list, one per group.
pub open spec fn groups_reading_fits(t: Seq<SpecTok>, rd: SpecWhereReadings) -> bool {
    let s = group_starts_from(t, 0);
    &&& rd.capture.len() == s.len()
    &&& rd.angles.len() == s.len()
    &&& forall|k: int| 0 <= k < s.len() ==> group_reading_fits(t, #[trigger] s[k], rd.capture[k], rd.angles[k])
}

/// The position of the first `@` from `i` on.
fn find_at_from(v: &Vec<Tok>, i: usize) -> (r: Option<usize>)
    ensures
        match r {
            Some(a) => first_punct(toks_view(v@), '@', i as int) == Some(a as int) && i <= a < v@.len(),
            None => first_punct(toks_view(v@), '@', i as int) is None,
        },
{
    let ghost sv = toks_view(v@);
    let mut j: usize = i;
    while j < v.len()
        invariant
            sv == toks_view(v@),
            i <= j,
            first_punct(sv, '@', i as int) == first_punct(sv, '@', j as int),
        decreases v@.len() - j,
    {
        assert(sv[j as int] == v@[j as int]@);
        let hit = match &v[j] {
            Tok::Punct(p, _) => *p == '@',
            _ => false,
        };
        if hit {
            return Some(j);
        }
        j = j + 1;
    }
    None
}

/// The target ranges of the tokens inside parentheses.
fn target_ranges_exec(inner: &Vec<Tok>) -> (r: Vec<(usize, usize)>)
    ensures
        r@.map_values(|x: (usize, usize)| (x.0 as int, x.1 as int)) == target_ranges(toks_view(inner@)),
        ranges_within(target_ranges(toks_view(inner@)), inner@.len() as int),
{
    let ghost iv = toks_view(inner@);
    let mut rs = split_ranges_exec(inner, '|');
    assert(rs@.map_values(|x: (usize, usize)| (x.0 as int, x.1 as int)) =~= split_top_level(iv, '|'));
    let n = rs.len();
    if n > 1 && rs[n - 1].0 == rs[n - 1].1 {
        let ghost before = rs@;
        rs.pop();
        assert(rs@ =~= before.drop_last());
        assert(rs@.map_values(|x: (usize, usize)| (x.0 as int, x.1 as int)) =~= split_top_level(iv, '|').drop_last());
    }
    rs
}

/// Asks `syn` about the parts of the groups: whether the tokens before each
/// `@` read as `use<...>` (and which parameters are lifetimes), and whether
/// each target reads as generic arguments. Each answer is a possible one for
/// the rendered text that `groups_reading_fits` names.
pub fn read_group_readings(toks: &Vec<Tok>) -> (r: WhereReadings)
    ensures
        groups_reading_fits(toks_view(toks@), r@),
{
    let ghost tv = toks_view(toks@);
    let ghost all = group_starts_from(tv, 0);
    let mut capture: Vec<Option<Vec<bool>>> = Vec::new();
    let mut angles: Vec<Vec<bool>> = Vec::new();
    let mut i: usize = 0;
    let ghost mut done: Seq<int> = Seq::empty();
    loop
        invariant_except_break
            all == done + group_starts_from(tv, i as int),
        invariant
            tv == toks_view(toks@),
            all == group_starts_from(tv, 0),
            capture@.len() == done.len(),
            angles@.len() == done.len(),
            forall|k: int|
                0 <= k < done.len() ==> group_reading_fits(tv, #[trigger] done[k], opt_bools_view(capture@[k]), angles@[k]@),
        ensures
            all == done,
        decreases toks@.len() - i,
    {
        if i >= toks.len() {
            assert(done =~= all);
            break;
        }
        let at = match find_at_from(toks, i) {
            None => {
                assert(done =~= all);
                break;
            },
            Some(at) => at,
        };
        let text = render_range(toks, i, at);
        let cap = syn_precise_capture(text.as_str());
        let mut ang: Vec<bool> = Vec::new();
        let mut next: Option<usize> = None;
        if at + 1 < toks.len() {
            assert(tv[at + 1] == toks@[at + 1]@);
            if let Tok::Group(Delimiter::Parenthesis, inner) = &toks[at + 1] {
                let ghost iv = toks_view(inner@);
                assert(tv[at + 1]->Group_1 == iv);
                let rs = target_ranges_exec(inner);
                let ghost srs = target_ranges(iv);
                let mut m: usize = 0;
                while m < rs.len()
                    invariant
                        m <= rs@.len(),
                        iv == toks_view(inner@),
                        srs == target_ranges(iv),
                        rs@.map_values(|x: (usize, usize)| (x.0 as int, x.1 as int)) == srs,
                        ranges_within(srs, inner@.len() as int),
                        ang@.len() == m,
                        forall|x: int|
                            0 <= x < m ==> angle_outcome(render(iv.subrange(srs[x].0, srs[x].1)), #[trigger] ang@[x]),
                    decreases rs@.len() - m,
                {
                    let (pa, pb) = rs[m];
                    assert((pa as int, pb as int) == srs[m as int]);
                    let t = render_range(inner, pa, pb);
                    ang.push(syn_angle_args(t.as_str()));
                    m = m + 1;
                }
                if at + 2 < toks.len() {
                    assert(tv[at + 2] == toks@[at + 2]@);
                    if let Tok::Punct(',', _) = &toks[at + 2] {
                        next = Some(at + 3);
                    }
                }
            }
        }
        proof {
            assert(group_reading_fits(tv, i as int, opt_bools_view(cap), ang@));
        }
        let ghost i0 = i as int;
        capture.push(cap);
        angles.push(ang);
        proof {
            done = done.push(i0);
            assert forall|k: int|
                0 <= k < done.len() implies group_reading_fits(tv, #[trigger] done[k], opt_bools_view(capture@[k]), angles@[k]@) by {
                if k < done.len() - 1 {
                }
            }
        }
        match next {
            Some(nx) => {
                assert(group_starts_from(tv, i0) == seq![i0] + group_starts_from(tv, nx as int));
                assert(all =~= done + group_starts_from(tv, nx as int));
                i = nx;
            },
            None => {
                assert(group_starts_from(tv, i0) == seq![i0]);
                assert(all =~= done);
                break;
            },
        }
    }
    let r = WhereReadings { capture, angles };
    assert forall|k: int| 0 <= k < all.len() implies group_reading_fits(tv, #[trigger] all[k], r@.capture[k], r@.angles[k]) by {
        assert(0 <= k < capture@.len());
        assert(r@.capture[k] == opt_bools_view(capture@[k]));
        assert(r@.angles[k] == angles@[k]@);
    }
    r
}

/// Whether every target, by the ranges `rs`, read as generic arguments.
fn targets_all_read(angles: &Vec<bool>, rs: &Vec<(usize, usize)>, Ghost(srs): Ghost<Seq<(int, int)>>) -> (r: bool)
    requires
        srs.len() == rs@.len(),
    ensures
        r == (first_bad_target(angles@, srs, 0) is None),
{
    let mut m: usize = 0;
    while m < rs.len()
        invariant
            srs.len() == rs@.len(),
            m <= rs@.len(),
            first_bad_target(angles@, srs, 0) == first_bad_target(angles@, srs, m as int),
        decreases rs@.len() - m,
    {
        if !(m < angles.len() && angles[m]) {
            return false;
        }
        m = m + 1;
    }
    true
}

/// The value of the outcome of reading the groups.
pub open spec fn groups_result_view(r: (Vec<WrittenGroup>, Option<usize>)) -> (Seq<SpecWrittenGroup>, Option<int>) {
    (written_view(r.0@), match r.1 {
        Some(p) => Some(p as int),
        None => None,
    })
}

/// Reads the groups of an `#[erased(...)]` list, given what `syn` said of
/// their parts (`rd`, by group): the groups read, each by the positions of
/// its parameters, of its parenthesized targets and of the targets inside
/// them, and the position of the token where the list stops being well
/// formed, if it does.
pub fn read_dispatch_groups_with(toks: &Vec<Tok>, rd: &WhereReadings) -> (r: (Vec<WrittenGroup>, Option<usize>))
    ensures
        groups_result_view(r) == spec_read_groups(toks_view(toks@), rd@),
{
    let ghost tv = toks_view(toks@);
    let ghost rv = rd@;
    let mut out: Vec<WrittenGroup> = Vec::new();
    let mut i: usize = 0;
    loop
        invariant
            tv == toks_view(toks@),
            rv == rd@,
            i <= toks@.len(),
            spec_read_groups(tv, rv) == ({
                let sf = spec_read_groups_from(tv, i as int, out@.len() as int, rv);
                (written_view(out@) + sf.0, sf.1)
            }),
        decreases toks@.len() - i,
    {
        let k = out.len();
        let ghost before = written_view(out@);
        if i >= toks.len() {
            assert(before + Seq::<SpecWrittenGroup>::empty() =~= before);
            return (out, None);
        }
        let at = match find_at_from(toks, i) {
            None => {
                assert(before + Seq::<SpecWrittenGroup>::empty() =~= before);
                return (out, Some(i));
            },
            Some(at) => at,
        };
        let cap_ok = k < rd.capture.len() && rd.capture[k].is_some();
        assert(cap_ok == (capture_at(rv, k as int) is Some));
        if !cap_ok {
            assert(before + Seq::<SpecWrittenGroup>::empty() =~= before);
            return (out, Some(i));
        }
        if at + 1 >= toks.len() {
            assert(before + Seq::<SpecWrittenGroup>::empty() =~= before);
            return (out, Some(at + 1));
        }
        assert(tv[at + 1] == toks@[at + 1]@);
        let inner = match &toks[at + 1] {
            Tok::Group(Delimiter::Parenthesis, inner) => inner,
            _ => {
                assert(before + Seq::<SpecWrittenGroup>::empty() =~= before);
                return (out, Some(at + 1));
            },
        };
        let ghost iv = toks_view(inner@);
        assert(tv[at + 1]->Group_1 == iv);
        let rs = target_ranges_exec(inner);
        let ghost srs = target_ranges(iv);
        let empty: Vec<bool> = Vec::new();
        let ang: &Vec<bool> = if k < rd.angles.len() {
            &rd.angles[k]
        } else {
            &empty
        };
        assert(ang@ == angles_at(rv, k as int));
        if !targets_all_read(ang, &rs, Ghost(srs)) {
            assert(before + Seq::<SpecWrittenGroup>::empty() =~= before);
            return (out, Some(at + 1));
        }
        let g = WrittenGroup { capture: (i, at), group: at + 1, targets: rs };
        let ghost gv = SpecWrittenGroup { capture: (i as int, at as int), group: at + 1, targets: srs };
        assert(g@ == gv);
        out.push(g);
        assert(written_view(out@) =~= before + seq![gv]);
        if at + 2 >= toks.len() {
            return (out, None);
        }
        assert(tv[at + 2] == toks@[at + 2]@);
        let comma = match &toks[at + 2] {
            Tok::Punct(c, _) => *c == ',',
            _ => false,
        };
        if !comma {
            return (out, Some(at + 2));
        }
        let ghost sf = spec_read_groups_from(tv, at + 3, k + 1, rv);
        assert(before + (seq![gv] + sf.0) =~= (before + seq![gv]) + sf.0);
        i = at + 3;
    }
}

/// Reads the groups of an `#[erased(...)]` list, asking `syn` about their
/// parts (see `read_group_readings`). Whatever `syn` answered, the outcome
/// is what `read_dispatch_groups_with` gives for some answers that fit.
pub fn read_dispatch_groups(toks: &Vec<Tok>) -> (r: (Vec<WrittenGroup>, Option<usize>))
    ensures
        exists|rd: SpecWhereReadings|
            groups_reading_fits(toks_view(toks@), rd) && groups_result_view(r) == #[trigger] spec_read_groups(
                toks_view(toks@),
                rd,
            ),
{
    let rd = read_group_readings(toks);
    let r = read_dispatch_groups_with(toks, &rd);
    assert(groups_reading_fits(toks_view(toks@), rd@));
    r
}

} // verus!
