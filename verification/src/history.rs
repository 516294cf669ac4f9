//! Linear undo history over two sequences: what is committed, in drawing
//! order, and what was undone, most recently undone last.

use vstd::prelude::*;

verus! {

/// The two sequences after an undo: the last committed item moves to the
/// end of the undone ones. Nothing changes when nothing is committed.
pub open spec fn after_undo<T>(committed: Seq<T>, undone: Seq<T>) -> (Seq<T>, Seq<T>) {
    if committed.len() > 0 {
        (committed.drop_last(), undone.push(committed.last()))
    } else {
        (committed, undone)
    }
}

/// The two sequences after a redo: the most recently undone item moves
/// back to the end of the committed ones. Nothing changes when nothing was
/// undone.
pub open spec fn after_redo<T>(committed: Seq<T>, undone: Seq<T>) -> (Seq<T>, Seq<T>) {
    if undone.len() > 0 {
        (committed.push(undone.last()), undone.drop_last())
    } else {
        (committed, undone)
    }
}

/// The two sequences after a new item was committed: it becomes the last
/// committed one and everything undone is forgotten.
pub open spec fn after_commit<T>(committed: Seq<T>, undone: Seq<T>, item: T) -> (Seq<T>, Seq<T>) {
    (committed.push(item), Seq::empty())
}

/// An undo followed at once by a redo restores both sequences: the item
/// that was taken off is back, by value, as the last committed one.
pub proof fn lemma_undo_then_redo<T>(committed: Seq<T>, undone: Seq<T>)
    requires
        committed.len() > 0,
    ensures
        ({
            let (c, u) = after_undo(committed, undone);
            after_redo(c, u) == (committed, undone)
        }),
        after_undo(committed, undone).1.last() == committed.last(),
{
    let (c, u) = after_undo(committed, undone);
    let (c2, u2) = after_redo(c, u);
    assert(c2 =~= committed);
    assert(u2 =~= undone);
}

/// A redo followed at once by an undo restores both sequences.
pub proof fn lemma_redo_then_undo<T>(committed: Seq<T>, undone: Seq<T>)
    requires
        undone.len() > 0,
    ensures
        ({
            let (c, u) = after_redo(committed, undone);
            after_undo(c, u) == (committed, undone)
        }),
{
    let (c, u) = after_redo(committed, undone);
    let (c2, u2) = after_undo(c, u);
    assert(c2 =~= committed);
    assert(u2 =~= undone);
}

/// After a commit there is nothing to redo, and the committed items are
/// the earlier ones, in their order, followed by the new one.
pub proof fn lemma_commit_clears_redo<T>(committed: Seq<T>, undone: Seq<T>, item: T)
    ensures
        ({
            let (c, u) = after_commit(committed, undone, item);
            &&& u.len() == 0
            &&& c.len() == committed.len() + 1
            &&& c.last() == item
            &&& c.drop_last() == committed
            &&& after_redo(c, u) == (c, u)
        }),
{
    let (c, u) = after_commit(committed, undone, item);
    assert(c.drop_last() =~= committed);
}

} // verus!
