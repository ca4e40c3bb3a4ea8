//! The snapshot stack: a linear undo/redo log of buffer snapshots plus the
//! live snapshot being edited.

use vstd::prelude::*;

use crate::chars::copy_chars;
use crate::snap::{fresh_snap, snap_eqv, snap_wf, vwf, InputSnap, SnapView};

verus! {

/// The mathematical shadow of the stack: the committed versions, the index of
/// the live one, and the live editable snapshot.
#[verifier::ext_equal]
pub ghost struct StackView {
    pub versions: Seq<SnapView>,
    pub idx: nat,
    pub current: SnapView,
}

/// The snapshot stack. `versions[idx]` is the last committed undo point;
/// `current` is the live snapshot the editor mutates.
pub struct InputSnaps {
    pub versions: Vec<InputSnap>,
    pub idx: usize,
    pub current: InputSnap,
}

impl View for InputSnaps {
    type V = StackView;

    open spec fn view(&self) -> StackView {
        StackView {
            versions: self.versions@.map_values(|s: InputSnap| s@),
            idx: self.idx as nat,
            current: self.current@,
        }
    }
}

/// The history is valid: the live index points at a version and every
/// version is in bounds for its mode.
pub open spec fn stack_ok(m: StackView) -> bool {
    &&& m.idx < m.versions.len()
    &&& forall|i: int| 0 <= i < m.versions.len() ==> vwf(#[trigger] m.versions[i])
}

/// Full well-formedness: a valid history and a well-formed live snapshot.
pub open spec fn stack_wf(m: StackView) -> bool {
    &&& stack_ok(m)
    &&& snap_wf(m.current)
}

/// The stack a reset produces: one fresh snapshot, also live.
pub open spec fn reset_spec(v: Seq<char>) -> StackView {
    StackView { versions: seq![fresh_snap(v)], idx: 0, current: fresh_snap(v) }
}

/// The stack after a tag: any redo tail is discarded, a copy of the live
/// snapshot is committed, and the live index advances onto it.
pub open spec fn tag_spec(m: StackView) -> StackView {
    StackView {
        versions: m.versions.take(m.idx + 1 as int).push(m.current),
        idx: m.idx + 1,
        current: m.current,
    }
}

/// The stack after an undo, with whether anything happened: if a previous
/// version exists the live index moves back onto it and its snapshot becomes
/// live; at the start of history nothing changes.
pub open spec fn undo_spec(m: StackView) -> (StackView, bool) {
    if m.idx > 0 {
        (
            StackView {
                versions: m.versions,
                idx: (m.idx - 1) as nat,
                current: m.versions[m.idx - 1],
            },
            true,
        )
    } else {
        (m, false)
    }
}

/// The stack after a redo, symmetric to `undo_spec`.
pub open spec fn redo_spec(m: StackView) -> (StackView, bool) {
    if m.idx + 1 < m.versions.len() {
        (
            StackView {
                versions: m.versions,
                idx: m.idx + 1,
                current: m.versions[m.idx + 1 as int],
            },
            true,
        )
    } else {
        (m, false)
    }
}

impl InputSnaps {
    /// A stack holding one empty snapshot.
    pub fn new() -> (r: InputSnaps)
        ensures
            r@ =~~= reset_spec(Seq::<char>::empty()),
            stack_wf(r@),
    {
        let first = InputSnap::new(Vec::new());
        let live = first.duplicate();
        let mut versions: Vec<InputSnap> = Vec::new();
        versions.push(first);
        let r = InputSnaps { versions, idx: 0, current: live };
        proof {
            assert(r@.versions =~= seq![fresh_snap(Seq::<char>::empty())]);
            assert(r@ =~~= reset_spec(Seq::<char>::empty()));
            crate::chars::lemma_width_empty(Seq::<char>::empty(), 0);
        }
        r
    }

    /// Discards all history and restarts it from the given text.
    pub fn reset(&mut self, value: Vec<char>)
        ensures
            final(self)@ =~~= reset_spec(value@),
            stack_wf(final(self)@),
    {
        let first = InputSnap::new(value);
        let live = first.duplicate();
        let mut versions: Vec<InputSnap> = Vec::new();
        versions.push(first);
        self.versions = versions;
        self.idx = 0;
        self.current = live;
        proof {
            assert(self@.versions =~= seq![fresh_snap(self.current.value@)]);
            assert(self@ =~~= reset_spec(self.current.value@));
            crate::chars::lemma_width_empty(self.current.value@, 0);
        }
    }

    /// Commits the live snapshot as a new undo point, truncating any redo
    /// tail beyond the live index.
    pub fn tag(&mut self)
        requires
            stack_ok(old(self)@),
            vwf(old(self)@.current),
        ensures
            final(self)@ =~~= tag_spec(old(self)@),
            stack_ok(final(self)@),
    {
        let cur = self.current.duplicate();
        let n = self.versions.len();
        proof {
            assert(self@.versions.len() == self.versions@.len());
            assert(self.idx < n);
        }
        self.versions.truncate(self.idx + 1);
        self.versions.push(cur);
        self.idx = self.idx + 1;
        proof {
            assert(self@.versions =~= tag_spec(old(self)@).versions);
            assert(self@ =~~= tag_spec(old(self)@));
        }
    }

    /// Moves the live index back one version if one exists; the restored
    /// snapshot becomes live. Returns whether anything happened.
    pub fn undo(&mut self) -> (r: bool)
        requires
            stack_ok(old(self)@),
        ensures
            (final(self)@, r) == undo_spec(old(self)@),
            final(self)@.idx < final(self)@.versions.len(),
            forall|i: int|
                0 <= i < final(self)@.versions.len() ==> vwf(#[trigger] final(self)@.versions[i]),
            r ==> vwf(final(self)@.current),
    {
        if self.idx == 0 {
            proof {
                assert(self@ =~~= old(self)@);
            }
            return false;
        }
        self.idx = self.idx - 1;
        self.current = self.versions[self.idx].duplicate();
        proof {
            assert(self@ =~~= undo_spec(old(self)@).0);
        }
        true
    }

    /// Moves the live index forward one version if one exists; symmetric to
    /// `undo`.
    pub fn redo(&mut self) -> (r: bool)
        requires
            stack_ok(old(self)@),
        ensures
            (final(self)@, r) == redo_spec(old(self)@),
            final(self)@.idx < final(self)@.versions.len(),
            forall|i: int|
                0 <= i < final(self)@.versions.len() ==> vwf(#[trigger] final(self)@.versions[i]),
            r ==> vwf(final(self)@.current),
    {
        if self.idx >= self.versions.len() - 1 {
            proof {
                assert(self@ =~~= old(self)@);
            }
            return false;
        }
        self.idx = self.idx + 1;
        self.current = self.versions[self.idx].duplicate();
        proof {
            assert(self@ =~~= redo_spec(old(self)@).0);
        }
        true
    }

    /// Read access to the live snapshot.
    pub fn current(&self) -> (r: &InputSnap)
        ensures
            r@ == self@.current,
    {
        &self.current
    }
}

/// Law: undoing right after tagging makes the previously committed snapshot
/// live again — the exact prior undo point — and redoing right after that
/// undo makes the snapshot that was live before the undo live again.
pub proof fn lemma_tag_undo_redo(m: StackView)
    requires
        m.idx < m.versions.len(),
    ensures
        undo_spec(tag_spec(m)).1,
        snap_eqv(undo_spec(tag_spec(m)).0.current, m.versions[m.idx as int]),
        redo_spec(undo_spec(tag_spec(m)).0).1,
        snap_eqv(redo_spec(undo_spec(tag_spec(m)).0).0.current, m.current),
{
    let t = tag_spec(m);
    assert(t.versions[m.idx as int] == m.versions.take(m.idx + 1 as int)[m.idx as int]);
    assert(t.versions[t.idx as int] == m.current);
}

/// Law: after a reset and a tag, however the live snapshot is edited, one
/// undo returns to the snapshot current right after the reset.
pub proof fn lemma_reset_tag_edit_undo(v: Seq<char>, edited: SnapView)
    ensures
        ({
            let committed = tag_spec(reset_spec(v));
            let live = StackView { current: edited, ..committed };
            undo_spec(live).1 && snap_eqv(undo_spec(live).0.current, fresh_snap(v))
        }),
{
    let m0 = reset_spec(v);
    let t = tag_spec(m0);
    assert(t.versions[0] == m0.versions.take(1)[0]);
}

} // verus!
