//! Ordered-list edits and their effects.
//!
//! A [`VecMutation`] describes one edit to an ordered sequence: an insert, an
//! update or a removal. It is distinct from its *effect* against a concrete
//! sequence, a [`VecEffect`], which reports the before/after items implicated
//! by the edit (what was inserted, what changed from/to, what was removed)
//! without requiring an observer to diff sequences itself. A mutation is
//! replayable against any copy of the sequence it was made for.

use vstd::prelude::*;

verus! {

/// One edit to an ordered sequence.
#[derive(Debug, Clone, PartialEq)]
pub enum VecMutation<T> {
    /// Insert the items before the given index.
    Insert(usize, Vec<T>),
    /// Replace the item at the given index.
    Update(usize, T),
    /// Remove the items between the two indexes, the first included, the
    /// second excluded.
    Remove(usize, usize),
}

/// The computed difference one [`VecMutation`] makes against a concrete
/// sequence.
#[derive(Debug, Clone, PartialEq)]
pub enum VecEffect<T> {
    /// These items were inserted before the given index.
    Insert(usize, Vec<T>),
    /// The item at the given index changed from the first to the second.
    Update(usize, T, T),
    /// The items between the two indexes, first included, second excluded,
    /// were removed; they are reported here.
    Remove(usize, usize, Vec<T>),
}

/// What an effect reports, at the specification level.
pub ghost enum VecEffectData<T> {
    Insert(int, Seq<T>),
    Update(int, T, T),
    Remove(int, int, Seq<T>),
}

/// Whether the mutation's indexes fit the given sequence.
pub open spec fn mutation_applies<T>(m: VecMutation<T>, s: Seq<T>) -> bool {
    match m {
        VecMutation::Insert(index, items) => index <= s.len(),
        VecMutation::Update(index, item) => index < s.len(),
        VecMutation::Remove(start, end) => start <= end <= s.len(),
    }
}

/// The sequence after one mutation. A mutation whose indexes do not fit
/// leaves the sequence unchanged.
pub open spec fn apply_mutation<T>(m: VecMutation<T>, s: Seq<T>) -> Seq<T> {
    if !mutation_applies(m, s) {
        s
    } else {
        match m {
            VecMutation::Insert(index, items) => s.take(index as int) + items@ + s.skip(
                index as int,
            ),
            VecMutation::Update(index, item) => s.update(index as int, item),
            VecMutation::Remove(start, end) => s.take(start as int) + s.skip(end as int),
        }
    }
}

/// What the effect of a fitting mutation against a sequence reports.
pub open spec fn effect_of<T>(m: VecMutation<T>, s: Seq<T>) -> VecEffectData<T> {
    match m {
        VecMutation::Insert(index, items) => VecEffectData::Insert(index as int, items@),
        VecMutation::Update(index, item) => VecEffectData::Update(index as int, s[index as int], item),
        VecMutation::Remove(start, end) => VecEffectData::Remove(
            start as int,
            end as int,
            s.subrange(start as int, end as int),
        ),
    }
}

/// Whether each item of `b` is a clone of the corresponding item of `a`.
pub open spec fn seq_cloned<T: Clone>(a: Seq<T>, b: Seq<T>) -> bool {
    b.len() == a.len() && forall|i: int| 0 <= i < a.len() ==> cloned::<T>(a[i], #[trigger] b[i])
}

/// How the sequence after [`VecMutation::apply`] relates to the sequence
/// before: items the mutation did not touch are kept exactly, and each item
/// the mutation carried in is a clone of it.
pub open spec fn apply_rel<T: Clone>(m: VecMutation<T>, s: Seq<T>, r: Seq<T>) -> bool {
    if !mutation_applies(m, s) {
        r == s
    } else {
        match m {
            VecMutation::Insert(index, items) => {
                &&& r.len() == s.len() + items@.len()
                &&& r.take(index as int) == s.take(index as int)
                &&& r.skip(index + items@.len()) == s.skip(index as int)
                &&& forall|t: int| 0 <= t < items@.len() ==> cloned::<T>(
                    items@[t],
                    #[trigger] r[index + t],
                )
            },
            VecMutation::Update(index, item) => {
                &&& r.len() == s.len()
                &&& cloned::<T>(item, r[index as int])
                &&& forall|j: int| 0 <= j < s.len() && j != index ==> r[j] == #[trigger] s[j]
            },
            VecMutation::Remove(start, end) => r == s.take(start as int) + s.skip(end as int),
        }
    }
}

/// Applying a mutation to a pointwise clone of a sequence yields a pointwise
/// clone of the mutation applied to the original: replaying a mutation
/// against any copy of the sequence tracks the original.
pub proof fn lemma_apply_rel_cloned<T: Clone>(
    m: VecMutation<T>,
    expected: Seq<T>,
    actual: Seq<T>,
    result: Seq<T>,
)
    requires
        seq_cloned(expected, actual),
        apply_rel(m, actual, result),
    ensures
        seq_cloned(apply_mutation(m, expected), result),
{
    if !mutation_applies(m, actual) {
        assert(!mutation_applies(m, expected));
    } else {
        assert(mutation_applies(m, expected));
        match m {
            VecMutation::Insert(index, items) => {
                let i = index as int;
                let k = items@.len() as int;
                let e2 = apply_mutation(m, expected);
                assert(e2 == expected.take(i) + items@ + expected.skip(i));
                assert forall|w: int| 0 <= w < e2.len() implies cloned::<T>(
                    e2[w],
                    #[trigger] result[w],
                ) by {
                    if w < i {
                        assert(result.take(i)[w] == actual.take(i)[w]);
                        assert(result[w] == actual[w]);
                        assert(e2[w] == expected[w]);
                    } else if w < i + k {
                        assert(cloned::<T>(items@[w - i], result[i + (w - i)]));
                        assert(e2[w] == items@[w - i]);
                    } else {
                        assert(result.skip(i + k)[w - i - k] == actual.skip(i)[w - i - k]);
                        assert(result[w] == actual[w - k]);
                        assert(e2[w] == expected.skip(i)[w - i - k]);
                        assert(e2[w] == expected[w - k]);
                    }
                }
            }
            VecMutation::Update(index, item) => {
                let i = index as int;
                let e2 = apply_mutation(m, expected);
                assert(e2 == expected.update(i, item));
                assert forall|w: int| 0 <= w < e2.len() implies cloned::<T>(
                    e2[w],
                    #[trigger] result[w],
                ) by {
                    if w != i {
                        assert(result[w] == actual[w]);
                    }
                }
            }
            VecMutation::Remove(start, end) => {
                let a = start as int;
                let b = end as int;
                let e2 = apply_mutation(m, expected);
                assert(e2 == expected.take(a) + expected.skip(b));
                assert forall|w: int| 0 <= w < e2.len() implies cloned::<T>(
                    e2[w],
                    #[trigger] result[w],
                ) by {
                    if w < a {
                        assert(result[w] == actual.take(a)[w]);
                        assert(e2[w] == expected.take(a)[w]);
                        assert(result[w] == actual[w]);
                        assert(e2[w] == expected[w]);
                    } else {
                        assert(result[w] == actual.skip(b)[w - a]);
                        assert(e2[w] == expected.skip(b)[w - a]);
                        assert(result[w] == actual[w - a + b]);
                        assert(e2[w] == expected[w - a + b]);
                    }
                }
            }
        }
    }
}

/// The effect reports exactly what the mutation does to the sequence: an
/// insert effect carries the inserted items, found at the reported index in
/// the result; an update effect carries the item previously at the index and
/// its replacement; a remove effect carries exactly the removed items, and
/// none of the items that remain.
pub proof fn lemma_effect_exact<T>(m: VecMutation<T>, s: Seq<T>)
    requires
        mutation_applies(m, s),
    ensures
        match effect_of(m, s) {
            VecEffectData::Insert(index, items) => {
                &&& apply_mutation(m, s) == s.take(index) + items + s.skip(index)
                &&& apply_mutation(m, s).subrange(index, index + items.len()) == items
            },
            VecEffectData::Update(index, from, to) => {
                &&& from == s[index]
                &&& apply_mutation(m, s) == s.update(index, to)
                &&& apply_mutation(m, s)[index] == to
            },
            VecEffectData::Remove(start, end, removed) => {
                &&& removed == s.subrange(start, end)
                &&& s == s.take(start) + removed + s.skip(end)
                &&& apply_mutation(m, s) == s.take(start) + s.skip(end)
            },
        },
{
    match m {
        VecMutation::Insert(index, items) => {
            let i = index as int;
            assert(apply_mutation(m, s).subrange(i, i + items@.len()) =~= items@);
        }
        VecMutation::Update(index, item) => {}
        VecMutation::Remove(start, end) => {
            assert(s =~= s.take(start as int) + s.subrange(start as int, end as int) + s.skip(
                end as int,
            ));
        }
    }
}

impl<T: Clone> VecMutation<T> {
    /// The effects this mutation has against the given base sequence.
    ///
    /// A mutation whose indexes do not fit the base reports no effect.
    pub fn effects(&self, base: &Vec<T>) -> (r: Vec<VecEffect<T>>)
        ensures
            !mutation_applies(*self, base@) ==> r@.len() == 0,
            mutation_applies(*self, base@) ==> r@.len() == 1 && match effect_of(*self, base@) {
                VecEffectData::Insert(index, items) => r@[0] matches VecEffect::Insert(j, v)
                    && j == index && seq_cloned(items, v@),
                VecEffectData::Update(index, from, to) => r@[0] matches VecEffect::Update(j, f, t)
                    && j == index && cloned::<T>(from, f) && cloned::<T>(to, t),
                VecEffectData::Remove(start, end, removed) => r@[0] matches VecEffect::Remove(
                    a,
                    b,
                    v,
                ) && a == start && b == end && seq_cloned(removed, v@),
            },
    {
        let mut r: Vec<VecEffect<T>> = Vec::new();
        match self {
            VecMutation::Insert(index, items) => {
                if *index <= base.len() {
                    r.push(VecEffect::Insert(*index, clone_items(items)));
                }
            }
            VecMutation::Update(index, item) => {
                if *index < base.len() {
                    r.push(VecEffect::Update(*index, base[*index].clone(), item.clone()));
                }
            }
            VecMutation::Remove(start, end) => {
                if *start <= *end && *end <= base.len() {
                    let mut removed: Vec<T> = Vec::new();
                    let mut k: usize = *start;
                    while k < *end
                        invariant
                            *start <= k <= *end <= base@.len(),
                            removed@.len() == k - *start,
                            forall|i: int| 0 <= i < removed@.len() ==> cloned::<T>(
                                base@.subrange(*start as int, *end as int)[i],
                                #[trigger] removed@[i],
                            ),
                        decreases *end - k,
                    {
                        removed.push(base[k].clone());
                        k = k + 1;
                    }
                    r.push(VecEffect::Remove(*start, *end, removed));
                }
            }
        }
        r
    }

    /// Applies this mutation to the given sequence. The items the mutation
    /// carries are cloned in; every item already in the sequence is kept,
    /// moved, or dropped, never copied. A mutation whose indexes do not fit
    /// leaves the sequence untouched.
    pub fn apply(&self, target: &mut Vec<T>)
        ensures
            apply_rel(*self, old(target)@, final(target)@),
    {
        match self {
            VecMutation::Insert(index, items) => {
                if *index <= target.len() {
                    let mut source: Vec<T> = Vec::new();
                    core::mem::swap(target, &mut source);
                    let ghost s = source@;
                    let mut rebuilt: Vec<T> = Vec::new();
                    let mut k: usize = 0;
                    while k < *index
                        invariant
                            k <= *index <= s.len(),
                            source@ == s.skip(k as int),
                            rebuilt@ == s.take(k as int),
                        decreases *index - k,
                    {
                        let item = source.remove(0);
                        proof {
                            assert(s.skip(k as int)[0] == s[k as int]);
                            assert(source@ =~= s.skip(k + 1));
                        }
                        rebuilt.push(item);
                        proof {
                            assert(rebuilt@ =~= s.take(k + 1));
                        }
                        k = k + 1;
                    }
                    let mut j: usize = 0;
                    let item_count = items.len();
                    while j < item_count
                        invariant
                            j <= item_count,
                            item_count == items@.len(),
                            *index <= s.len(),
                            source@ == s.skip(*index as int),
                            rebuilt@.len() == *index + j,
                            rebuilt@.take(*index as int) == s.take(*index as int),
                            forall|t: int| 0 <= t < j ==> cloned::<T>(
                                items@[t],
                                #[trigger] rebuilt@[*index + t],
                            ),
                        decreases item_count - j,
                    {
                        rebuilt.push(items[j].clone());
                        proof {
                            assert(rebuilt@.take(*index as int) =~= s.take(*index as int));
                        }
                        j = j + 1;
                    }
                    let ghost mid = rebuilt@;
                    let mut t: usize = 0;
                    let ghost tail_len = s.len() - *index;
                    while source.len() > 0
                        invariant
                            *index <= s.len(),
                            mid.len() == *index + items@.len(),
                            t <= tail_len,
                            tail_len == s.len() - *index,
                            s.len() <= usize::MAX,
                            source@ == s.skip(*index + t),
                            rebuilt@ == mid + s.subrange(*index as int, *index + t),
                        decreases source@.len(),
                    {
                        proof {
                            assert(s.skip(*index + t).len() == s.len() - *index - t);
                        }
                        let item = source.remove(0);
                        proof {
                            assert(s.skip(*index + t)[0] == s[*index + t]);
                            assert(source@ =~= s.skip(*index + t + 1));
                        }
                        rebuilt.push(item);
                        proof {
                            assert(rebuilt@ =~= mid + s.subrange(*index as int, *index + t + 1));
                        }
                        t = t + 1;
                    }
                    *target = rebuilt;
                    proof {
                        assert(s.skip(*index + t).len() == 0);
                        assert(t == tail_len);
                        assert(target@.take(*index as int) =~= s.take(*index as int)) by {
                            assert(forall|w: int| 0 <= w < *index ==> target@[w] == #[trigger] mid[w]);
                        }
                        assert(target@.skip(*index + items@.len()) =~= s.skip(*index as int));
                        assert(forall|w: int| 0 <= w < items@.len() ==> cloned::<T>(
                            items@[w],
                            #[trigger] target@[*index + w],
                        )) by {
                            assert(forall|w: int| 0 <= w < items@.len() ==> target@[*index + w]
                                == #[trigger] mid[*index + w]);
                        }
                    }
                }
            }
            VecMutation::Update(index, item) => {
                if *index < target.len() {
                    target.set(*index, item.clone());
                }
            }
            VecMutation::Remove(start, end) => {
                if *start <= *end && *end <= target.len() {
                    let mut source: Vec<T> = Vec::new();
                    core::mem::swap(target, &mut source);
                    let ghost s = source@;
                    let mut rebuilt: Vec<T> = Vec::new();
                    let mut k: usize = 0;
                    while k < *start
                        invariant
                            k <= *start <= *end <= s.len(),
                            source@ == s.skip(k as int),
                            rebuilt@ == s.take(k as int),
                        decreases *start - k,
                    {
                        let item = source.remove(0);
                        proof {
                            assert(s.skip(k as int)[0] == s[k as int]);
                            assert(source@ =~= s.skip(k + 1));
                        }
                        rebuilt.push(item);
                        proof {
                            assert(rebuilt@ =~= s.take(k + 1));
                        }
                        k = k + 1;
                    }
                    let mut d: usize = *start;
                    while d < *end
                        invariant
                            *start <= d <= *end <= s.len(),
                            source@ == s.skip(d as int),
                            rebuilt@ == s.take(*start as int),
                        decreases *end - d,
                    {
                        let dropped = source.remove(0);
                        proof {
                            assert(source@ =~= s.skip(d + 1));
                        }
                        d = d + 1;
                    }
                    let mut t: usize = *end;
                    while source.len() > 0
                        invariant
                            *start <= *end <= t <= s.len(),
                            s.len() <= usize::MAX,
                            source@ == s.skip(t as int),
                            rebuilt@ == s.take(*start as int) + s.subrange(*end as int, t as int),
                        decreases source@.len(),
                    {
                        proof {
                            assert(s.skip(t as int).len() == s.len() - t);
                        }
                        let item = source.remove(0);
                        proof {
                            assert(s.skip(t as int)[0] == s[t as int]);
                            assert(source@ =~= s.skip(t + 1));
                        }
                        rebuilt.push(item);
                        proof {
                            assert(rebuilt@ =~= s.take(*start as int) + s.subrange(
                                *end as int,
                                t + 1,
                            ));
                        }
                        t = t + 1;
                    }
                    *target = rebuilt;
                    proof {
                        assert(t == s.len());
                        assert(s.subrange(*end as int, s.len() as int) =~= s.skip(*end as int));
                    }
                }
            }
        }
    }
}

/// Clones every item of a list, in order.
pub(crate) fn clone_items<T: Clone>(items: &Vec<T>) -> (r: Vec<T>)
    ensures
        seq_cloned(items@, r@),
{
    let mut r: Vec<T> = Vec::new();
    let mut k: usize = 0;
    while k < items.len()
        invariant
            k <= items@.len(),
            r@.len() == k,
            forall|i: int| 0 <= i < k ==> cloned::<T>(items@[i], #[trigger] r@[i]),
        decreases items@.len() - k,
    {
        r.push(items[k].clone());
        k = k + 1;
    }
    r
}

} // verus!
