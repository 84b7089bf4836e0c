//! What an observer of the conversation decides about attachments.
//!
//! When messages are inserted, updated or removed, an observer replicating
//! the conversation wants to know which attachments newly appeared (so they
//! can be persisted) and which disappeared (so their persisted copies can
//! be deleted), without diffing the sequences itself. The decisions stand
//! here; performing the persistence is the observer's own business.

use vstd::prelude::*;

use crate::message::{Attachment, Message};
use crate::mutation::{mutation_applies, VecMutation};

verus! {

/// Whether the list holds an attachment with this content.
pub open spec fn contains_attachment(s: Seq<Attachment>, a: Attachment) -> bool {
    exists|i: int| 0 <= i < s.len() && (#[trigger] s[i])@ == a@
}

/// All the attachments carried by a list of messages, in order.
pub open spec fn attachments_of(msgs: Seq<Message>) -> Seq<Attachment>
    decreases msgs.len(),
{
    if msgs.len() == 0 {
        Seq::empty()
    } else {
        attachments_of(msgs.drop_last()) + msgs.last().content.attachments@
    }
}

/// The attachments of `from` that do not occur in `to`, first occurrences
/// only, in order.
pub open spec fn attachments_diff(from: Seq<Attachment>, to: Seq<Attachment>) -> Seq<Attachment>
    decreases from.len(),
{
    if from.len() == 0 {
        Seq::empty()
    } else {
        let rest = attachments_diff(from.drop_last(), to);
        let a = from.last();
        if contains_attachment(to, a) || contains_attachment(from.drop_last(), a) {
            rest
        } else {
            rest.push(a)
        }
    }
}

/// The attachments of `marked` that no message still carries, in order.
pub open spec fn attachments_swept(marked: Seq<Attachment>, present: Seq<Attachment>) -> Seq<
    Attachment,
>
    decreases marked.len(),
{
    if marked.len() == 0 {
        Seq::empty()
    } else {
        let rest = attachments_swept(marked.drop_last(), present);
        if contains_attachment(present, marked.last()) {
            rest
        } else {
            rest.push(marked.last())
        }
    }
}

/// Whether each attachment of `b` carries the same content as the
/// corresponding attachment of `a`.
pub open spec fn attachments_match(a: Seq<Attachment>, b: Seq<Attachment>) -> bool {
    b.len() == a.len() && forall|i: int| 0 <= i < a.len() ==> a[i]@ == (#[trigger] b[i])@
}

/// What one mutation of the message history does to the attachments: which
/// may have appeared and should be considered for persistence, and which
/// may have disappeared and should be considered for deletion.
///
/// An insert reports the attachments of the inserted messages; a removal
/// reports the attachments of the removed messages; an update reports, for
/// each side, the attachments the other side does not carry. A mutation
/// whose indexes do not fit the base reports nothing.
pub fn attachment_changes(mutation: &VecMutation<Message>, base: &Vec<Message>) -> (r: (
    Vec<Attachment>,
    Vec<Attachment>,
))
    ensures
        !mutation_applies(*mutation, base@) ==> r.0@.len() == 0 && r.1@.len() == 0,
        mutation_applies(*mutation, base@) ==> match *mutation {
            VecMutation::Insert(index, messages) => attachments_match(
                attachments_of(messages@),
                r.0@,
            ) && r.1@.len() == 0,
            VecMutation::Update(index, message) => {
                let from = base@[index as int];
                &&& attachments_match(
                    attachments_diff(
                        message.content.attachments@,
                        from.content.attachments@,
                    ),
                    r.0@,
                )
                &&& attachments_match(
                    attachments_diff(
                        from.content.attachments@,
                        message.content.attachments@,
                    ),
                    r.1@,
                )
            },
            VecMutation::Remove(start, end) => r.0@.len() == 0 && attachments_match(
                attachments_of(base@.subrange(start as int, end as int)),
                r.1@,
            ),
        },
{
    match mutation {
        VecMutation::Insert(index, messages) => {
            if *index <= base.len() {
                (collect_attachments(messages), Vec::new())
            } else {
                (Vec::new(), Vec::new())
            }
        }
        VecMutation::Update(index, message) => {
            if *index < base.len() {
                let from = &base[*index];
                let maybe_persist = diff_attachments(
                    &message.content.attachments,
                    &from.content.attachments,
                );
                let maybe_delete = diff_attachments(
                    &from.content.attachments,
                    &message.content.attachments,
                );
                (maybe_persist, maybe_delete)
            } else {
                (Vec::new(), Vec::new())
            }
        }
        VecMutation::Remove(start, end) => {
            if *start <= *end && *end <= base.len() {
                let mut removed: Vec<Attachment> = Vec::new();
                let mut k: usize = *start;
                while k < *end
                    invariant
                        *start <= k <= *end <= base@.len(),
                        attachments_match(
                            attachments_of(base@.subrange(*start as int, k as int)),
                            removed@,
                        ),
                    decreases *end - k,
                {
                    proof {
                        assert(base@.subrange(*start as int, k + 1).drop_last() =~= base@.subrange(
                            *start as int,
                            k as int,
                        ));
                        assert(base@.subrange(*start as int, k + 1).last() == base@[k as int]);
                    }
                    let ghost prev = removed@;
                    push_attachments(&mut removed, &base[k].content.attachments);
                    proof {
                        let prior = attachments_of(base@.subrange(*start as int, k as int));
                        let added = base@[k as int].content.attachments@;
                        let tail = removed@.subrange(prev.len() as int, removed@.len() as int);
                        assert(attachments_match(added, tail)) by {
                            assert(forall|i: int|
                                0 <= i < added.len() ==> (#[trigger] tail[i])
                                    == removed@[prev.len() + i]);
                        }
                        assert(removed@ =~= prev + tail);
                        lemma_match_append(prior, prev, added, tail);
                    }
                    k = k + 1;
                }
                (Vec::new(), removed)
            } else {
                (Vec::new(), Vec::new())
            }
        }
    }
}

/// The attachments of `marked` that no message of the history still
/// carries: their persisted copies have no owner left and can be deleted.
pub fn sweep_attachments(marked: &Vec<Attachment>, messages: &Vec<Message>) -> (r: Vec<Attachment>)
    ensures
        attachments_match(attachments_swept(marked@, attachments_of(messages@)), r@),
{
    let present = collect_attachments(messages);
    proof {
        assert(attachments_match(attachments_of(messages@), present@));
    }
    let mut r: Vec<Attachment> = Vec::new();
    let mut k: usize = 0;
    let n = marked.len();
    while k < n
        invariant
            k <= n,
            n == marked@.len(),
            attachments_match(attachments_of(messages@), present@),
            attachments_match(
                attachments_swept(marked@.take(k as int), attachments_of(messages@)),
                r@,
            ),
        decreases n - k,
    {
        proof {
            assert(marked@.take(k + 1).drop_last() =~= marked@.take(k as int));
            assert(marked@.take(k + 1).last() == marked@[k as int]);
            lemma_contains_same(attachments_of(messages@), present@, marked@[k as int]);
        }
        if !list_contains_attachment(&present, &marked[k]) {
            r.push(marked[k].clone());
        }
        k = k + 1;
    }
    proof {
        assert(marked@.take(n as int) =~= marked@);
    }
    r
}

/// Whether a mutation of the message history touches its first message,
/// from which a conversation's title is derived.
pub fn modifies_first_message(mutation: &VecMutation<Message>, base: &Vec<Message>) -> (r: bool)
    ensures
        r == (mutation_applies(*mutation, base@) && match *mutation {
            VecMutation::Insert(index, messages) => index == 0,
            VecMutation::Update(index, message) => index == 0,
            VecMutation::Remove(start, end) => false,
        }),
{
    match mutation {
        VecMutation::Insert(index, messages) => *index == 0 && *index <= base.len(),
        VecMutation::Update(index, message) => *index == 0 && *index < base.len(),
        VecMutation::Remove(start, end) => false,
    }
}

/// Matching lists stay matching when appended.
proof fn lemma_match_append(
    a1: Seq<Attachment>,
    b1: Seq<Attachment>,
    a2: Seq<Attachment>,
    b2: Seq<Attachment>,
)
    requires
        attachments_match(a1, b1),
        attachments_match(a2, b2),
    ensures
        attachments_match(a1 + a2, b1 + b2),
{
    assert forall|i: int| 0 <= i < (a1 + a2).len() implies (a1 + a2)[i]@ == (#[trigger] (b1
        + b2)[i])@ by {
        if i < a1.len() {
        } else {
            assert((a1 + a2)[i] == a2[i - a1.len()]);
            assert((b1 + b2)[i] == b2[i - a1.len()]);
        }
    }
}

/// Lists with matching content hold the same attachments.
proof fn lemma_contains_same(a: Seq<Attachment>, b: Seq<Attachment>, x: Attachment)
    requires
        attachments_match(a, b),
    ensures
        contains_attachment(a, x) == contains_attachment(b, x),
{
    if contains_attachment(a, x) {
        let i = choose|i: int| 0 <= i < a.len() && (#[trigger] a[i])@ == x@;
        assert(b[i]@ == x@);
    }
    if contains_attachment(b, x) {
        let i = choose|i: int| 0 <= i < b.len() && (#[trigger] b[i])@ == x@;
        assert(a[i]@ == x@);
    }
}

/// All the attachments the given messages carry, in order.
fn collect_attachments(messages: &Vec<Message>) -> (r: Vec<Attachment>)
    ensures
        attachments_match(attachments_of(messages@), r@),
{
    let mut r: Vec<Attachment> = Vec::new();
    let mut k: usize = 0;
    let n = messages.len();
    while k < n
        invariant
            k <= n,
            n == messages@.len(),
            attachments_match(attachments_of(messages@.take(k as int)), r@),
        decreases n - k,
    {
        proof {
            assert(messages@.take(k + 1).drop_last() =~= messages@.take(k as int));
            assert(messages@.take(k + 1).last() == messages@[k as int]);
        }
        let ghost prev = r@;
        push_attachments(&mut r, &messages[k].content.attachments);
        proof {
            let prior = attachments_of(messages@.take(k as int));
            let added = messages@[k as int].content.attachments@;
            let tail = r@.subrange(prev.len() as int, r@.len() as int);
            assert(attachments_match(added, tail)) by {
                assert(forall|i: int|
                    0 <= i < added.len() ==> (#[trigger] tail[i]) == r@[prev.len() + i]);
            }
            assert(r@ =~= prev + tail);
            lemma_match_append(prior, prev, added, tail);
        }
        k = k + 1;
    }
    proof {
        assert(messages@.take(n as int) =~= messages@);
    }
    r
}

/// Appends a copy of each attachment to the accumulator.
fn push_attachments(acc: &mut Vec<Attachment>, attachments: &Vec<Attachment>)
    ensures
        final(acc)@.len() == old(acc)@.len() + attachments@.len(),
        forall|i: int|
            0 <= i < old(acc)@.len() ==> (#[trigger] final(acc)@[i]) == old(acc)@[i],
        forall|i: int|
            0 <= i < attachments@.len() ==> (#[trigger] final(acc)@[old(acc)@.len() + i])@
                == attachments@[i]@,
{
    let mut k: usize = 0;
    let n = attachments.len();
    while k < n
        invariant
            k <= n,
            n == attachments@.len(),
            acc@.len() == old(acc)@.len() + k,
            forall|i: int| 0 <= i < old(acc)@.len() ==> (#[trigger] acc@[i]) == old(acc)@[i],
            forall|i: int|
                0 <= i < k ==> (#[trigger] acc@[old(acc)@.len() + i])@ == attachments@[i]@,
        decreases n - k,
    {
        acc.push(attachments[k].clone());
        k = k + 1;
    }
}

/// The attachments of `from` that do not occur in `to`, first occurrences
/// only, in order.
fn diff_attachments(from: &Vec<Attachment>, to: &Vec<Attachment>) -> (r: Vec<Attachment>)
    ensures
        attachments_match(attachments_diff(from@, to@), r@),
{
    let mut r: Vec<Attachment> = Vec::new();
    let mut k: usize = 0;
    let n = from.len();
    while k < n
        invariant
            k <= n,
            n == from@.len(),
            attachments_match(attachments_diff(from@.take(k as int), to@), r@),
        decreases n - k,
    {
        proof {
            assert(from@.take(k + 1).drop_last() =~= from@.take(k as int));
            assert(from@.take(k + 1).last() == from@[k as int]);
        }
        if !list_contains_attachment(to, &from[k]) && !prefix_contains_attachment(from, k) {
            r.push(from[k].clone());
        }
        k = k + 1;
    }
    proof {
        assert(from@.take(n as int) =~= from@);
    }
    r
}

/// Whether the list holds an attachment with the same content.
fn list_contains_attachment(list: &Vec<Attachment>, a: &Attachment) -> (r: bool)
    ensures
        r == contains_attachment(list@, *a),
{
    let mut k: usize = 0;
    let n = list.len();
    while k < n
        invariant
            k <= n,
            n == list@.len(),
            forall|i: int| 0 <= i < k ==> (#[trigger] list@[i])@ != a@,
        decreases n - k,
    {
        if list[k].eq(a) {
            return true;
        }
        k = k + 1;
    }
    proof {
        if contains_attachment(list@, *a) {
            let i = choose|i: int| 0 <= i < list@.len() && (#[trigger] list@[i])@ == a@;
            assert(false);
        }
    }
    false
}

/// Whether an earlier position of the list holds an attachment with the
/// same content as the one at `at`.
fn prefix_contains_attachment(list: &Vec<Attachment>, at: usize) -> (r: bool)
    requires
        at < list@.len(),
    ensures
        r == contains_attachment(list@.take(at as int), list@[at as int]),
{
    let mut k: usize = 0;
    while k < at
        invariant
            k <= at < list@.len(),
            forall|i: int| 0 <= i < k ==> (#[trigger] list@[i])@ != list@[at as int]@,
        decreases at - k,
    {
        if list[k].eq(&list[at]) {
            proof {
                assert(list@.take(at as int)[k as int]@ == list@[at as int]@);
            }
            return true;
        }
        k = k + 1;
    }
    proof {
        if contains_attachment(list@.take(at as int), list@[at as int]) {
            let i = choose|i: int|
                0 <= i < at && (#[trigger] list@.take(at as int)[i])@ == list@[at as int]@;
            assert(list@[i]@ == list@[at as int]@);
            assert(false);
        }
    }
    false
}

} // verus!
