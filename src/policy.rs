//! The two mutation algorithms applied to a collection while the store is
//! held exclusively: append-then-collapse-adjacent-duplicates for additions,
//! drop-every-occurrence for removals.
use vstd::prelude::*;

verus! {

/// The views of a list of strings.
pub open spec fn strs(v: Seq<String>) -> Seq<Seq<char>> {
    v.map_values(|s: String| s@)
}

/// `s` with every run of equal neighbours collapsed to its first element.
/// Equal elements that are not neighbours all stay.
pub open spec fn dedup_adjacent<A>(s: Seq<A>) -> Seq<A>
    decreases s.len(),
{
    if s.len() <= 1 {
        s
    } else if s[s.len() - 1] == s[s.len() - 2] {
        dedup_adjacent(s.drop_last())
    } else {
        dedup_adjacent(s.drop_last()).push(s.last())
    }
}

/// A collection after adding `ids`: appended in their order, then adjacent
/// duplicates collapsed.
pub open spec fn added<A>(s: Seq<A>, ids: Seq<A>) -> Seq<A> {
    dedup_adjacent(s + ids)
}

/// A collection after removing `ids`: the elements that are not among `ids`,
/// in their order.
pub open spec fn without<A>(s: Seq<A>, ids: Seq<A>) -> Seq<A>
    decreases s.len(),
{
    if s.len() == 0 {
        s
    } else if ids.contains(s.last()) {
        without(s.drop_last(), ids)
    } else {
        without(s.drop_last(), ids).push(s.last())
    }
}

proof fn lemma_dedup_last<A>(s: Seq<A>)
    requires
        s.len() > 0,
    ensures
        dedup_adjacent(s).len() > 0,
        dedup_adjacent(s).last() == s.last(),
    decreases s.len(),
{
    if s.len() > 1 && s[s.len() - 1] == s[s.len() - 2] {
        lemma_dedup_last(s.drop_last());
    }
}

/// After an addition no two neighbouring entries are equal (equal entries
/// further apart may remain).
pub proof fn lemma_added_no_adjacent_duplicates<A>(s: Seq<A>, ids: Seq<A>)
    ensures
        forall|i: int|
            0 <= i < added(s, ids).len() - 1 ==> #[trigger] added(s, ids)[i] != added(s, ids)[i
                + 1],
{
    lemma_dedup_no_adjacent(s + ids);
}

proof fn lemma_dedup_no_adjacent<A>(s: Seq<A>)
    ensures
        forall|i: int|
            0 <= i < dedup_adjacent(s).len() - 1 ==> #[trigger] dedup_adjacent(s)[i]
                != dedup_adjacent(s)[i + 1],
    decreases s.len(),
{
    if s.len() > 1 {
        let t = s.drop_last();
        lemma_dedup_no_adjacent(t);
        if s[s.len() - 1] != s[s.len() - 2] {
            lemma_dedup_last(t);
            let d = dedup_adjacent(t);
            assert(d.last() == s[s.len() - 2]);
            assert forall|i: int| 0 <= i < d.push(s.last()).len() - 1 implies #[trigger] d.push(
                s.last(),
            )[i] != d.push(s.last())[i + 1] by {
                if i < d.len() - 1 {
                    assert(d[i] != d[i + 1]);
                }
            }
        }
    }
}

proof fn lemma_strs_push(v: Seq<String>, x: String)
    ensures
        strs(v.push(x)) == strs(v).push(x@),
{
    assert(strs(v.push(x)) =~= strs(v).push(x@));
}

/// Whether `x` is one of `ids`.
pub fn contains_id(ids: &Vec<String>, x: &String) -> (r: bool)
    ensures
        r == strs(ids@).contains(x@),
{
    let mut i: usize = 0;
    while i < ids.len()
        invariant
            i <= ids.len(),
            forall|j: int| 0 <= j < i ==> ids@[j]@ != x@,
        decreases ids.len() - i,
    {
        if ids[i] == *x {
            assert(strs(ids@)[i as int] == x@);
            return true;
        }
        i += 1;
    }
    assert(!strs(ids@).contains(x@)) by {
        if strs(ids@).contains(x@) {
            let j = choose|j: int| 0 <= j < strs(ids@).len() && strs(ids@)[j] == x@;
            assert(ids@[j]@ == x@);
        }
    }
    false
}

/// Appends `x` to `out` unless `out` already ends with an equal string:
/// one step of collapsing adjacent duplicates, with `c` the input so far.
fn push_collapsing(out: &mut Vec<String>, x: &String, Ghost(c): Ghost<Seq<Seq<char>>>)
    requires
        c.len() > 0,
        c.last() == x@,
        strs(old(out)@) == dedup_adjacent(c.drop_last()),
    ensures
        strs(final(out)@) == dedup_adjacent(c),
{
    proof {
        if c.len() > 1 {
            lemma_dedup_last(c.drop_last());
        }
    }
    let dup = out.len() > 0 && out[out.len() - 1] == *x;
    if !dup {
        let y = x.clone();
        proof {
            lemma_strs_push(out@, y);
        }
        out.push(y);
    }
}

/// `current` followed by `ids`, with adjacent duplicates collapsed to one.
pub fn appended_dedup(current: &Vec<String>, ids: &Vec<String>) -> (r: Vec<String>)
    ensures
        strs(r@) == added(strs(current@), strs(ids@)),
{
    let ghost c = strs(current@) + strs(ids@);
    let ghost n1: int = current@.len() as int;
    let mut out: Vec<String> = Vec::new();
    assert(c.take(0) =~= Seq::<Seq<char>>::empty());
    let mut j: usize = 0;
    while j < current.len()
        invariant
            c == strs(current@) + strs(ids@),
            n1 == current@.len(),
            j <= current.len(),
            strs(out@) == dedup_adjacent(c.take(j as int)),
        decreases current.len() - j,
    {
        assert(c.take(j as int + 1).drop_last() =~= c.take(j as int));
        push_collapsing(&mut out, &current[j], Ghost(c.take(j as int + 1)));
        j += 1;
    }
    let mut k: usize = 0;
    while k < ids.len()
        invariant
            c == strs(current@) + strs(ids@),
            n1 == current@.len(),
            k <= ids.len(),
            strs(out@) == dedup_adjacent(c.take(n1 + k)),
        decreases ids.len() - k,
    {
        assert(c.take(n1 + k + 1).drop_last() =~= c.take(n1 + k));
        push_collapsing(&mut out, &ids[k], Ghost(c.take(n1 + k + 1)));
        k += 1;
    }
    assert(c.take(n1 + ids@.len() as int) =~= c);
    out
}

/// The elements of `current` that are not among `ids`, in their order.
pub fn retained_without(current: &Vec<String>, ids: &Vec<String>) -> (r: Vec<String>)
    ensures
        strs(r@) == without(strs(current@), strs(ids@)),
{
    let ghost c = strs(current@);
    let mut out: Vec<String> = Vec::new();
    let mut j: usize = 0;
    assert(c.take(0) =~= Seq::<Seq<char>>::empty());
    while j < current.len()
        invariant
            c == strs(current@),
            j <= current.len(),
            strs(out@) == without(c.take(j as int), strs(ids@)),
        decreases current.len() - j,
    {
        let x = &current[j];
        let ghost t = c.take(j as int + 1);
        assert(t.drop_last() =~= c.take(j as int));
        assert(t.last() == x@);
        if !contains_id(ids, x) {
            let y = x.clone();
            proof {
                lemma_strs_push(out@, y);
            }
            out.push(y);
        }
        j += 1;
    }
    assert(c.take(current.len() as int) =~= c);
    out
}

/// The positions of `s` whose element is not among `ids`, in increasing
/// order.
pub open spec fn survivor_positions<A>(s: Seq<A>, ids: Seq<A>) -> Seq<int>
    decreases s.len(),
{
    if s.len() == 0 {
        Seq::empty()
    } else if ids.contains(s.last()) {
        survivor_positions(s.drop_last(), ids)
    } else {
        survivor_positions(s.drop_last(), ids).push(s.len() - 1)
    }
}

/// Removal is total and keeps order: no removed id is left anywhere, and
/// what remains is exactly the elements at the positions whose element was
/// not targeted, in their original order.
pub proof fn lemma_remove_total_and_ordered<A>(s: Seq<A>, ids: Seq<A>)
    ensures
        ({
            let r = without(s, ids);
            let p = survivor_positions(s, ids);
            &&& r.len() == p.len()
            &&& forall|k: int| 0 <= k < p.len() ==> 0 <= #[trigger] p[k] < s.len() && r[k] == s[p[k]]
            &&& forall|a: int, b: int| 0 <= a < b < p.len() ==> #[trigger] p[a] < #[trigger] p[b]
            &&& forall|q: int| 0 <= q < s.len() ==> (p.contains(q) <==> !ids.contains(#[trigger] s[q]))
            &&& forall|x: A| #[trigger] ids.contains(x) ==> !r.contains(x)
        }),
    decreases s.len(),
{
    let r = without(s, ids);
    let p = survivor_positions(s, ids);
    if s.len() > 0 {
        let t = s.drop_last();
        lemma_remove_total_and_ordered(t, ids);
        let pt = survivor_positions(t, ids);
        let n = s.len() - 1;
        assert forall|q: int| 0 <= q < s.len() implies (p.contains(q) <==> !ids.contains(
            #[trigger] s[q],
        )) by {
            if q < n {
                assert(s[q] == t[q]);
                if p.contains(q) {
                    let k = choose|k: int| 0 <= k < p.len() && p[k] == q;
                    if k < pt.len() {
                        assert(pt[k] == q);
                    }
                }
                if pt.contains(q) {
                    let k = choose|k: int| 0 <= k < pt.len() && pt[k] == q;
                    assert(p[k] == q);
                }
            } else {
                if !ids.contains(s[q]) {
                    assert(p[p.len() - 1] == q);
                } else if p.contains(q) {
                    let k = choose|k: int| 0 <= k < p.len() && p[k] == q;
                    assert(pt[k] == q);
                }
            }
        }
        assert forall|x: A| #[trigger] ids.contains(x) implies !r.contains(x) by {
            if r.contains(x) {
                let k = choose|k: int| 0 <= k < r.len() && r[k] == x;
                assert(p.contains(p[k]));
            }
        }
    }
}

} // verus!
