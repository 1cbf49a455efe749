//! The deletion guard: a finalizer on the source resource that holds the
//! platform back from removing it until its target object is gone.

use vstd::prelude::*;
use vstd::string::StringExecFns;
use crate::crd::RSecret;
use crate::key_order::same_text;
use crate::secret::texts;

verus! {

/// The finalizer that stands for this operator.
pub const FINALIZER: &'static str = "rsecrets.jerry153fish.com/finalizer";

/// The finalizers of a resource; one that names none has none.
pub open spec fn finalizers_of(rsecret: RSecret) -> Seq<Seq<char>> {
    match rsecret.metadata.finalizers {
        Some(list) => texts(list@),
        None => Seq::empty(),
    }
}

/// Whether the operator's finalizer is among `finalizers`.
pub open spec fn is_guarded(finalizers: Seq<Seq<char>>) -> bool {
    finalizers.contains(FINALIZER@)
}

/// The finalizers that guarding leaves: the same where the operator's
/// finalizer is among them, else that finalizer alone.
pub open spec fn guarded(finalizers: Seq<Seq<char>>) -> Seq<Seq<char>> {
    if is_guarded(finalizers) {
        finalizers
    } else {
        seq![FINALIZER@]
    }
}

/// The finalizers that releasing leaves: none.
pub open spec fn released(finalizers: Seq<Seq<char>>) -> Seq<Seq<char>> {
    Seq::empty()
}

/// Guarding leaves the operator's finalizer in place, and guarding again
/// changes nothing.
pub proof fn lemma_guard_idempotent(finalizers: Seq<Seq<char>>)
    ensures
        is_guarded(guarded(finalizers)),
        guarded(guarded(finalizers)) == guarded(finalizers),
        is_guarded(finalizers) ==> guarded(finalizers) == finalizers,
{
    if !is_guarded(finalizers) {
        assert(seq![FINALIZER@][0] == FINALIZER@);
    }
}

/// Releasing leaves no finalizer, and releasing again changes nothing.
pub proof fn lemma_release_idempotent(finalizers: Seq<Seq<char>>)
    ensures
        released(finalizers).len() == 0,
        released(released(finalizers)) == released(finalizers),
{
}

/// Whether the operator's finalizer is among those of `rsecret`.
pub fn has_finalizer(rsecret: &RSecret) -> (r: bool)
    ensures
        r == is_guarded(finalizers_of(*rsecret)),
{
    match &rsecret.metadata.finalizers {
        None => false,
        Some(list) => {
            let mut i: usize = 0;
            while i < list.len()
                invariant
                    i <= list@.len(),
                    rsecret.metadata.finalizers == Some(*list),
                    forall|j: int| 0 <= j < i ==> (#[trigger] texts(list@)[j]) != FINALIZER@,
                decreases list@.len() - i,
            {
                if same_text(list[i].as_str(), FINALIZER) {
                    assert(texts(list@)[i as int] == FINALIZER@);
                    return true;
                }
                i = i + 1;
            }
            false
        },
    }
}

/// The finalizers to write on `rsecret` so that it is guarded: those it has
/// where the operator's finalizer is among them, else that finalizer alone.
pub fn add(rsecret: &RSecret) -> (r: Vec<String>)
    ensures
        texts(r@) == guarded(finalizers_of(*rsecret)),
{
    if has_finalizer(rsecret) {
        match &rsecret.metadata.finalizers {
            Some(list) => {
                let mut copy: Vec<String> = Vec::new();
                let mut i: usize = 0;
                while i < list.len()
                    invariant
                        i <= list@.len(),
                        texts(copy@) == texts(list@).take(i as int),
                    decreases list@.len() - i,
                {
                    let ghost before = texts(copy@);
                    copy.push(list[i].clone());
                    assert(texts(copy@) =~= before.push(list@[i as int]@));
                    assert(texts(list@).take(i + 1) =~= texts(list@).take(i as int).push(
                        list@[i as int]@,
                    ));
                    i = i + 1;
                }
                assert(texts(list@).take(i as int) =~= texts(list@));
                copy
            },
            None => Vec::new(),
        }
    } else {
        let mut list: Vec<String> = Vec::new();
        list.push(String::from_str(FINALIZER));
        assert(texts(list@) =~= seq![FINALIZER@]);
        list
    }
}

/// The finalizers to write on `rsecret` so that it is released: none.
pub fn delete(rsecret: &RSecret) -> (r: Vec<String>)
    ensures
        texts(r@) == released(finalizers_of(*rsecret)),
{
    let list: Vec<String> = Vec::new();
    assert(texts(list@) =~= Seq::empty());
    list
}

} // verus!
