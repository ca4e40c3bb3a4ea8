//! The modal editor: mode transitions, pending operators, motions, text
//! mutation, undo/redo and the viewport, with render-geometry queries.
//!
//! Clipboard access stays with the host: a yank stages its text in `yanked`
//! for the host to write out, and `paste` takes the clipboard text as an
//! argument.

use vstd::prelude::*;

use crate::chars::{
    char_kind, chars_of, copy_range, fit_back, fit_backward, fit_forward, fit_fwd, kind_of,
    lemma_width_empty, lemma_width_range_split, remove_range, seq_width, string_of, width_between,
    width_range, width_reaches, CharKind, BOX_WIDTH, WIN_LIMIT,
};
use crate::snap::{
    delta_of, snap_eqv, snap_wf, top_cursor, vwf, InputMode, InputOp, SnapView,
};
use crate::snaps::{
    redo_spec, reset_spec, stack_ok, tag_spec, undo_spec, InputSnaps, StackView,
};

verus! {

/// Where the widget is anchored on screen.
#[derive(Clone, Copy, Debug, PartialEq, Eq, Structural)]
pub enum Position {
    Coords(u16, u16),
}

/// A rectangle of screen cells.
#[derive(Clone, Copy, Debug, PartialEq, Eq, Structural)]
pub struct Rect {
    pub x: u16,
    pub y: u16,
    pub width: u16,
    pub height: u16,
}

/// What a `show` call arms the widget with.
pub struct InputOpt {
    pub title: String,
    pub value: String,
    pub position: Position,
}

/// The coordinates a position denotes.
pub open spec fn coords_of(p: Position) -> (u16, u16) {
    match p {
        Position::Coords(x, y) => (x, y),
    }
}

/// The visible input widget: the snapshot stack plus display state.
pub struct Input {
    pub snaps: InputSnaps,
    pub title: Vec<char>,
    pub position: (u16, u16),
    pub visible: bool,
    pub yanked: Option<Vec<char>>,
}

/// The mathematical shadow of the widget.
#[verifier::ext_equal]
pub ghost struct InputView {
    pub stack: StackView,
    pub title: Seq<char>,
    pub position: (u16, u16),
    pub visible: bool,
    pub yanked: Option<Seq<char>>,
}

impl View for Input {
    type V = InputView;

    open spec fn view(&self) -> InputView {
        InputView {
            stack: self.snaps@,
            title: self.title@,
            position: self.position,
            visible: self.visible,
            yanked: match self.yanked {
                Some(v) => Some(v@),
                None => None,
            },
        }
    }
}

/// The widget invariant: a valid history, a well-formed live snapshot, and an
/// anchor far enough from the numeric edge for the geometry arithmetic.
pub open spec fn inv(m: InputView) -> bool {
    &&& stack_ok(m.stack)
    &&& snap_wf(m.stack.current)
    &&& m.position.0 <= u16::MAX - 60
    &&& m.position.1 <= u16::MAX - 5
}

impl Input {
    /// Whether the widget satisfies its invariant.
    pub open spec fn wf(&self) -> bool {
        inv(self@)
    }
}

/// The live snapshot of a widget view.
pub open spec fn cur_of(m: InputView) -> SnapView {
    m.stack.current
}

/// The view with the live snapshot replaced.
pub open spec fn with_current(m: InputView, s: SnapView) -> InputView {
    InputView { stack: StackView { current: s, ..m.stack }, ..m }
}

/// The selection anchor, when set.
pub open spec fn anchor_of(s: SnapView) -> nat {
    match s.start {
        Some(a) => a,
        None => 0,
    }
}

/// The cursor clamped to the highest slot the mode admits.
pub open spec fn reclamped(s: SnapView) -> nat {
    if s.cursor <= top_cursor(s.mode, s.value.len()) {
        s.cursor
    } else {
        top_cursor(s.mode, s.value.len())
    }
}

/// The character range `[lo, hi)` a pending operator covers: anchor to
/// target, ordered, one past the upper end when the motion is boundary-counting, and
/// clipped to the text.
pub open spec fn op_range(s: SnapView, target: nat, incl: bool) -> (nat, nat) {
    let anchor = anchor_of(s);
    let lo = if anchor <= target {
        anchor
    } else {
        target
    };
    let hi0 = if anchor <= target {
        target
    } else {
        anchor
    };
    let hi1: int = if incl {
        hi0 + 1int
    } else {
        hi0 as int
    };
    let hi = if hi1 <= s.value.len() {
        hi1 as nat
    } else {
        s.value.len()
    };
    let lo2 = if lo <= hi {
        lo
    } else {
        hi
    };
    (lo2, hi)
}

/// Resolving the pending operator at `target`: a plain cursor move when none
/// is pending; a deletion of the range, switching mode, for `Delete`; a copy
/// of the range, staged for the host clipboard, for `Yank`. The operator and
/// anchor are consumed and the cursor is re-clamped.
pub open spec fn resolved_snap(s: SnapView, target: nat, incl: bool) -> (
    SnapView,
    Option<Seq<char>>,
) {
    match s.op {
        InputOp::Noop => {
            let s1 = SnapView { cursor: target, ..s };
            (SnapView { cursor: reclamped(s1), ..s1 }, None)
        },
        InputOp::Delete(ins) => {
            let r = op_range(s, target, incl);
            let v2 = s.value.subrange(0, r.0 as int) + s.value.subrange(
                r.1 as int,
                s.value.len() as int,
            );
            let m2 = if ins {
                InputMode::Insert
            } else {
                InputMode::Normal
            };
            let s1 = SnapView {
                value: v2,
                mode: m2,
                cursor: r.0,
                op: InputOp::Noop,
                start: None,
                ..s
            };
            (SnapView { cursor: reclamped(s1), ..s1 }, None)
        },
        InputOp::Yank => {
            let r = op_range(s, target, incl);
            let s1 = SnapView { op: InputOp::Noop, start: None, ..s };
            (
                SnapView { cursor: reclamped(s1), ..s1 },
                Some(s.value.subrange(r.0 as int, r.1 as int)),
            )
        },
    }
}

/// The full operator resolution: the live snapshot is rewritten, a yank is
/// staged, and, when an operator was pending and the snapshot changed, the
/// result is committed as a new undo point. Returns whether the snapshot
/// changed.
pub open spec fn after_resolve(m: InputView, target: nat, incl: bool) -> (InputView, bool) {
    let s = cur_of(m);
    let sy = resolved_snap(s, target, incl);
    let changed = !snap_eqv(sy.0, s);
    let st1 = StackView { current: sy.0, ..m.stack };
    let st2 = if changed && !(s.op is Noop) {
        tag_spec(st1)
    } else {
        st1
    };
    let yk = if sy.1 is Some {
        sy.1
    } else {
        m.yanked
    };
    (InputView { stack: st2, yanked: yk, ..m }, changed)
}

/// The viewport offset after a move: snapped back to the cursor when the
/// cursor went left of it, zero for empty text, and otherwise recomputed by a
/// backward scan whenever the window up to the cursor reaches the budget.
pub open spec fn recomputed(s: SnapView) -> SnapView {
    if s.cursor < s.offset {
        SnapView { offset: s.cursor, ..s }
    } else if s.value.len() == 0 {
        SnapView { offset: 0, ..s }
    } else {
        let end = s.cursor + delta_of(s.mode);
        if width_range(s.value, s.offset as int, end as int) >= WIN_LIMIT {
            SnapView {
                offset: (end - fit_back(s.value, end as int, WIN_LIMIT as int)) as nat,
                ..s
            }
        } else {
            s
        }
    }
}

/// One motion: resolve any pending operator at the target, then recompute
/// the viewport offset.
pub open spec fn do_move(m: InputView, target: nat, incl: bool) -> (InputView, bool) {
    let mb = after_resolve(m, target, incl);
    (with_current(mb.0, recomputed(cur_of(mb.0))), mb.1)
}

/// The absolute target of a relative step: saturating at zero going left,
/// clipped to the character count going right.
pub open spec fn step_target(s: SnapView, step: int) -> nat {
    if step <= 0 {
        if s.cursor + step >= 0 {
            (s.cursor + step) as nat
        } else {
            0
        }
    } else {
        if s.cursor + step <= s.value.len() {
            (s.cursor + step) as nat
        } else {
            s.value.len()
        }
    }
}

/// Escape: in Normal mode the pending operator and anchor are dropped; in
/// Insert mode the editor enters Normal mode and the cursor steps one left.
/// Either way the result is committed as an undo point.
pub open spec fn escaped(m: InputView) -> InputView {
    let s = cur_of(m);
    let m1 = if s.mode is Normal {
        with_current(m, SnapView { op: InputOp::Noop, start: None, ..s })
    } else {
        let s1 = SnapView { mode: InputMode::Normal, ..s };
        do_move(with_current(m, s1), step_target(s1, -1), false).0
    };
    InputView { stack: tag_spec(m1.stack), ..m1 }
}

/// Entering Insert mode: refused while an operator is pending; with `append`
/// the cursor also advances one slot.
pub open spec fn inserted_mode(m: InputView, append: bool) -> (InputView, bool) {
    let s = cur_of(m);
    if !(s.op is Noop) {
        (m, false)
    } else {
        let m1 = with_current(m, SnapView { mode: InputMode::Insert, ..s });
        if append {
            (do_move(m1, step_target(cur_of(m1), 1), false).0, true)
        } else {
            (m1, true)
        }
    }
}

/// Visual: the cursor becomes the selection anchor, then escape.
pub open spec fn visual_spec(m: InputView) -> InputView {
    let s = cur_of(m);
    escaped(with_current(m, SnapView { start: Some(s.cursor), ..s }))
}

/// Undo at the editor: step the stack back if possible, refit the viewport of
/// the restored snapshot, then escape.
pub open spec fn undone(m: InputView) -> (InputView, bool) {
    let sb = undo_spec(m.stack);
    if sb.1 {
        let m1 = InputView { stack: sb.0, ..m };
        let m2 = with_current(m1, recomputed(clipped_offset(cur_of(m1))));
        (escaped(m2), true)
    } else {
        (m, false)
    }
}

/// Redo at the editor: step the stack forward if possible and refit the
/// viewport of the restored snapshot.
pub open spec fn redone(m: InputView) -> (InputView, bool) {
    let sb = redo_spec(m.stack);
    if sb.1 {
        let m1 = InputView { stack: sb.0, ..m };
        (with_current(m1, recomputed(clipped_offset(cur_of(m1)))), true)
    } else {
        (m, false)
    }
}

/// A restored snapshot may carry a viewport offset beyond its cursor; clip it
/// before refitting.
pub open spec fn clipped_offset(s: SnapView) -> SnapView {
    if s.offset <= s.cursor {
        s
    } else {
        SnapView { offset: s.cursor, ..s }
    }
}

/// Typing one character: insert it at the cursor, then step right.
pub open spec fn typed(m: InputView, c: char) -> (InputView, bool) {
    let s = cur_of(m);
    let s1 = SnapView { value: s.value.insert(s.cursor as int, c), ..s };
    do_move(with_current(m, s1), step_target(s1, 1), false)
}

/// Backspace: nothing at the start of the text; otherwise the character
/// before the cursor is removed and the cursor steps left.
pub open spec fn backspaced(m: InputView) -> (InputView, bool) {
    let s = cur_of(m);
    if s.cursor < 1 {
        (m, false)
    } else {
        let s1 = SnapView { value: s.value.remove(s.cursor - 1), ..s };
        do_move(with_current(m, s1), step_target(s1, -1), false)
    }
}

/// The delete operator. With no operator pending: against an existing anchor
/// it applies at once (boundary-counting range); otherwise it arms the operator and
/// anchors at the cursor. A second bare delete clears the whole text,
/// entering the mode `ins` names, and commits an undo point. A pending yank
/// refuses it.
pub open spec fn delete_spec(m: InputView, ins: bool) -> (InputView, bool) {
    let s = cur_of(m);
    match s.op {
        InputOp::Noop => {
            if s.start is Some {
                let m1 = with_current(m, SnapView { op: InputOp::Delete(ins), ..s });
                let mb = after_resolve(m1, cur_of(m1).cursor, true);
                if mb.1 {
                    (do_move(mb.0, step_target(cur_of(mb.0), 0), false).0, true)
                } else {
                    (mb.0, false)
                }
            } else {
                (
                    with_current(
                        m,
                        SnapView { op: InputOp::Delete(ins), start: Some(s.cursor), ..s },
                    ),
                    false,
                )
            }
        },
        InputOp::Delete(_) => {
            let s2 = SnapView {
                value: Seq::<char>::empty(),
                cursor: 0,
                offset: 0,
                mode: if ins {
                    InputMode::Insert
                } else {
                    InputMode::Normal
                },
                op: InputOp::Noop,
                start: None,
            };
            let m1 = with_current(m, s2);
            (InputView { stack: tag_spec(m1.stack), ..m1 }, true)
        },
        InputOp::Yank => (m, false),
    }
}

/// The yank operator. With no operator pending it mirrors delete: apply
/// against an anchor, or arm and anchor. A second bare yank selects the whole
/// text — anchor at zero, cursor at the end — leaving the operator pending
/// and committing nothing. A pending delete refuses it.
pub open spec fn yank_spec(m: InputView) -> (InputView, bool) {
    let s = cur_of(m);
    match s.op {
        InputOp::Noop => {
            if s.start is Some {
                let m1 = with_current(m, SnapView { op: InputOp::Yank, ..s });
                let mb = after_resolve(m1, cur_of(m1).cursor, true);
                if mb.1 {
                    (do_move(mb.0, step_target(cur_of(mb.0), 0), false).0, true)
                } else {
                    (mb.0, false)
                }
            } else {
                (
                    with_current(m, SnapView { op: InputOp::Yank, start: Some(s.cursor), ..s }),
                    false,
                )
            }
        },
        InputOp::Yank => {
            let s2 = SnapView {
                start: Some(0nat),
                cursor: top_cursor(s.mode, s.value.len()),
                ..s
            };
            (with_current(m, recomputed(s2)), false)
        },
        InputOp::Delete(_) => (m, false),
    }
}

/// A motion taken only while an operator is pending.
pub open spec fn move_oper(m: InputView, step: int) -> (InputView, bool) {
    if cur_of(m).op is Noop {
        (m, false)
    } else {
        do_move(m, step_target(cur_of(m), step), false)
    }
}

/// The word-forward scan: from offset `i` past the cursor, with `prev` the
/// kind before it, the signed distance the motion travels. With `end` it
/// stops on the last character of the next run; a pending operator widens an
/// end-motion by one to make it boundary-counting.
pub open spec fn fwd_scan(
    s: Seq<char>,
    cursor: nat,
    i: nat,
    prev: CharKind,
    end: bool,
    pending: bool,
) -> nat
    decreases s.len() - cursor - i,
{
    if cursor + i >= s.len() {
        s.len()
    } else {
        let c = kind_of(s[(cursor + i) as int]);
        let b = if end {
            prev != CharKind::Space && prev != c && i != 1
        } else {
            c != CharKind::Space && c != prev
        };
        if b {
            if pending {
                i
            } else if end {
                (i - 1) as nat
            } else {
                i
            }
        } else {
            fwd_scan(s, cursor, i + 1, c, end, pending)
        }
    }
}

/// The word-forward motion.
pub open spec fn forward_spec(m: InputView, end: bool) -> (InputView, bool) {
    let s = cur_of(m);
    if s.value.len() == 0 || s.cursor >= s.value.len() {
        do_move(m, step_target(s, 0), false)
    } else {
        let step = fwd_scan(
            s.value,
            s.cursor,
            1,
            kind_of(s.value[s.cursor as int]),
            end,
            !(s.op is Noop),
        );
        do_move(m, step_target(s, step as int), false)
    }
}

/// The word-back scan over the text before the cursor, reversed: `Some(step)`
/// is the distance back to the start of the previous word; `None` means the
/// scan ran onto leading spaces and the motion does nothing.
pub open spec fn bwd_scan(s: Seq<char>, cursor: nat, i: nat, prev: CharKind) -> Option<nat>
    decreases cursor - i,
{
    if i >= cursor {
        if prev != CharKind::Space {
            Some(s.len())
        } else {
            None
        }
    } else {
        let c = kind_of(s[cursor - 1 - i]);
        if prev != CharKind::Space && prev != c {
            Some(i)
        } else {
            bwd_scan(s, cursor, i + 1, c)
        }
    }
}

/// The word-back motion.
pub open spec fn backward_spec(m: InputView) -> (InputView, bool) {
    let s = cur_of(m);
    if s.cursor == 0 {
        do_move(m, step_target(s, 0), false)
    } else {
        match bwd_scan(s.value, s.cursor, 1, kind_of(s.value[s.cursor - 1])) {
            Some(step) => do_move(m, step_target(s, -(step as int)), false),
            None => (m, false),
        }
    }
}

/// Typing a whole sequence, character by character.
pub open spec fn typed_all(m: InputView, cs: Seq<char>) -> InputView
    decreases cs.len(),
{
    if cs.len() == 0 {
        m
    } else {
        typed_all(typed(m, cs[0]).0, cs.subrange(1, cs.len() as int))
    }
}

/// Paste: an existing selection is first deleted (replace-on-paste); empty
/// clipboard text is a no-op; otherwise the editor enters Insert mode (after
/// the cursor unless `before`), types every character, and escapes.
pub open spec fn pasted(m: InputView, before: bool, clip: Seq<char>) -> (InputView, bool) {
    let s = cur_of(m);
    let m1 = if s.start is Some {
        do_move(with_current(m, SnapView { op: InputOp::Delete(false), ..s }), s.cursor, true).0
    } else {
        m
    };
    if clip.len() == 0 {
        (m1, false)
    } else {
        let m2 = inserted_mode(m1, !before).0;
        let m3 = typed_all(m2, clip);
        (escaped(m3), true)
    }
}

/// What `show` arms: fresh history over the given text, title and anchor
/// set, widget visible.
pub open spec fn show_spec(m: InputView, title: Seq<char>, value: Seq<char>, pos: (u16, u16)) -> InputView {
    InputView { stack: reset_spec(value), title, position: pos, visible: true, yanked: m.yanked }
}

/// The fixed-size box the widget draws in.
pub open spec fn area_spec(m: InputView) -> Rect {
    Rect { x: m.position.0, y: (m.position.1 + 2) as u16, width: BOX_WIDTH as u16, height: 3 }
}

/// The characters of the visible window.
pub open spec fn window_of(s: SnapView) -> Seq<char> {
    s.value.subrange(
        s.offset as int,
        s.offset + fit_fwd(s.value, s.offset as int, WIN_LIMIT as int),
    )
}

/// The screen cell of the cursor.
pub open spec fn cursor_spec(m: InputView) -> (u16, u16) {
    let s = cur_of(m);
    (
        (m.position.0 + 1 + width_range(s.value, s.offset as int, s.cursor as int)) as u16,
        (m.position.1 + 3) as u16,
    )
}

/// The rectangle covering the visible part of the selection, if an anchor is
/// set.
pub open spec fn selected_spec(m: InputView) -> Option<Rect> {
    let s = cur_of(m);
    match s.start {
        None => None,
        Some(st0) => {
            let st = if st0 <= s.value.len() {
                st0
            } else {
                s.value.len()
            };
            let a = if st < s.cursor {
                st
            } else {
                s.cursor + 1
            };
            let b = if st < s.cursor {
                s.cursor
            } else {
                st + 1
            };
            let ws = s.offset;
            let we = s.offset + fit_fwd(s.value, s.offset as int, WIN_LIMIT as int);
            let a1: int = if a >= ws {
                a as int
            } else {
                ws as int
            };
            let a2 = if a1 <= we {
                a1
            } else {
                we
            };
            let b1: int = if b <= we {
                b as int
            } else {
                we as int
            };
            let b2 = if b1 >= a2 {
                b1
            } else {
                a2
            };
            Some(
                Rect {
                    x: (m.position.0 + 1 + width_range(s.value, s.offset as int, a2 as int)) as u16,
                    y: (m.position.1 + 3) as u16,
                    width: width_range(s.value, a2 as int, b2 as int) as u16,
                    height: 1,
                },
            )
        },
    }
}

impl Input {
    /// The executable form of `op_range`.
    fn range_exec(&self, target: usize, incl: bool) -> (r: (usize, usize))
        requires
            self@.stack.current.start is Some,
            target <= self@.stack.current.value.len(),
        ensures
            r.0 as nat == op_range(self@.stack.current, target as nat, incl).0,
            r.1 as nat == op_range(self@.stack.current, target as nat, incl).1,
            r.0 <= r.1 <= self@.stack.current.value.len(),
    {
        let len = self.snaps.current.value.len();
        let anchor = match self.snaps.current.start {
            Some(a) => a,
            None => 0,
        };
        let (lo, hi0) = if anchor <= target {
            (anchor, target)
        } else {
            (target, anchor)
        };
        let hi = if incl {
            if hi0 >= len {
                len
            } else {
                hi0 + 1
            }
        } else {
            if hi0 <= len {
                hi0
            } else {
                len
            }
        };
        let lo2 = if lo <= hi {
            lo
        } else {
            hi
        };
        (lo2, hi)
    }

    /// Resolves the pending operator at `target`, as `after_resolve` says:
    /// mutates the live snapshot, stages a yank, and commits an undo point
    /// when an operator was consumed and something changed.
    fn resolve(&mut self, target: usize, incl: bool) -> (r: bool)
        requires
            stack_ok(old(self)@.stack),
            !(old(self)@.stack.current.op is Noop) ==> old(self)@.stack.current.start is Some,
            target <= old(self)@.stack.current.value.len(),
        ensures
            final(self)@ =~~= after_resolve(old(self)@, target as nat, incl).0,
            r == after_resolve(old(self)@, target as nat, incl).1,
            stack_ok(final(self)@.stack),
            vwf(final(self)@.stack.current),
    {
        let old_snap = self.snaps.current.duplicate();
        let was_pending = match self.snaps.current.op {
            InputOp::Noop => false,
            InputOp::Delete(_) => true,
            InputOp::Yank => true,
        };
        match self.snaps.current.op {
            InputOp::Noop => {
                self.snaps.current.cursor = target;
            },
            InputOp::Delete(ins) => {
                let (a, b) = self.range_exec(target, incl);
                let nv = remove_range(&self.snaps.current.value, a, b);
                self.snaps.current.value = nv;
                self.snaps.current.mode = if ins {
                    InputMode::Insert
                } else {
                    InputMode::Normal
                };
                self.snaps.current.cursor = a;
                self.snaps.current.op = InputOp::Noop;
                self.snaps.current.start = None;
            },
            InputOp::Yank => {
                let (a, b) = self.range_exec(target, incl);
                let y = copy_range(&self.snaps.current.value, a, b);
                self.yanked = Some(y);
                self.snaps.current.op = InputOp::Noop;
                self.snaps.current.start = None;
            },
        }
        let count = self.snaps.current.value.len();
        let delta = self.snaps.current.mode.delta();
        let top = if count >= delta {
            count - delta
        } else {
            0
        };
        if self.snaps.current.cursor > top {
            self.snaps.current.cursor = top;
        }
        proof {
            assert(self.snaps.current@ =~~= resolved_snap(
                old(self)@.stack.current,
                target as nat,
                incl,
            ).0);
        }
        let changed = !self.snaps.current.equals(&old_snap);
        if changed && was_pending {
            self.snaps.tag();
        }
        proof {
            assert(self@ =~~= after_resolve(old(self)@, target as nat, incl).0);
        }
        changed
    }

    /// Recomputes the viewport offset, as `recomputed` says.
    fn recompute(&mut self)
        requires
            vwf(old(self)@.stack.current),
        ensures
            final(self)@ =~~= with_current(old(self)@, recomputed(old(self)@.stack.current)),
            snap_wf(final(self)@.stack.current),
    {
        let c = self.snaps.current.cursor;
        if c < self.snaps.current.offset {
            self.snaps.current.offset = c;
            proof {
                lemma_width_empty(self.snaps.current.value@, c as int);
            }
        } else if self.snaps.current.value.len() == 0 {
            self.snaps.current.offset = 0;
            proof {
                lemma_width_empty(self.snaps.current.value@, 0);
            }
        } else {
            let delta = self.snaps.current.mode.delta();
            proof {
                assert(c + delta <= self.snaps.current.value@.len());
            }
            let end = c + delta;
            let off = self.snaps.current.offset;
            if width_reaches(&self.snaps.current.value, off, end, WIN_LIMIT) {
                let fit = fit_backward(&self.snaps.current.value, end);
                self.snaps.current.offset = end - fit;
                proof {
                    lemma_width_range_split(
                        self.snaps.current.value@,
                        end - fit,
                        c as int,
                        end as int,
                    );
                }
            } else {
                proof {
                    lemma_width_range_split(
                        self.snaps.current.value@,
                        off as int,
                        c as int,
                        end as int,
                    );
                }
            }
        }
    }

    /// One motion to an absolute target: operator resolution, then the
    /// viewport refit.
    fn move_to(&mut self, target: usize, incl: bool) -> (r: bool)
        requires
            stack_ok(old(self)@.stack),
            !(old(self)@.stack.current.op is Noop) ==> old(self)@.stack.current.start is Some,
            target <= old(self)@.stack.current.value.len(),
            old(self)@.position.0 <= u16::MAX - 60,
            old(self)@.position.1 <= u16::MAX - 5,
        ensures
            final(self)@ =~~= do_move(old(self)@, target as nat, incl).0,
            r == do_move(old(self)@, target as nat, incl).1,
            inv(final(self)@),
    {
        let r = self.resolve(target, incl);
        self.recompute();
        r
    }

    /// Moves the cursor by a signed step, feeding the target through the
    /// pending-operator resolver, then refits the viewport.
    pub fn move_(&mut self, step: isize) -> (r: bool)
        requires
            old(self).wf(),
            step > isize::MIN,
        ensures
            final(self)@ =~~= do_move(
                old(self)@,
                step_target(old(self)@.stack.current, step as int),
                false,
            ).0,
            r == do_move(old(self)@, step_target(old(self)@.stack.current, step as int), false).1,
            inv(final(self)@),
    {
        let c = self.snaps.current.cursor;
        let len = self.snaps.current.value.len();
        proof {
            assert(c <= len);
        }
        let t: usize = if step <= 0 {
            let m = (-step) as usize;
            if c >= m {
                c - m
            } else {
                0
            }
        } else {
            let m = step as usize;
            if m <= len - c {
                c + m
            } else {
                len
            }
        };
        proof {
            assert(t as nat == step_target(old(self)@.stack.current, step as int));
        }
        self.move_to(t, false)
    }

    /// A motion taken only while an operator is pending.
    pub fn move_in_operating(&mut self, step: isize) -> (r: bool)
        requires
            old(self).wf(),
            step > isize::MIN,
        ensures
            final(self)@ =~~= move_oper(old(self)@, step as int).0,
            r == move_oper(old(self)@, step as int).1,
            inv(final(self)@),
    {
        match self.snaps.current.op {
            InputOp::Noop => false,
            _ => self.move_(step),
        }
    }
}

impl Input {
    /// Escape, as `escaped` says: cancels pending operator state in Normal
    /// mode, or drops from Insert to Normal stepping the cursor one left;
    /// commits an undo point either way.
    pub fn escape(&mut self) -> (r: bool)
        requires
            old(self).wf(),
        ensures
            final(self)@ =~~= escaped(old(self)@),
            inv(final(self)@),
            r == true,
    {
        match self.snaps.current.mode {
            InputMode::Normal => {
                self.snaps.current.op = InputOp::Noop;
                self.snaps.current.start = None;
            },
            InputMode::Insert => {
                self.snaps.current.mode = InputMode::Normal;
                let c = self.snaps.current.cursor;
                let t = if c >= 1 {
                    c - 1
                } else {
                    0
                };
                proof {
                    assert(t as nat == step_target(self.snaps.current@, -1));
                }
                self.move_to(t, false);
            },
        }
        self.snaps.tag();
        proof {
            assert(self@ =~~= escaped(old(self)@));
        }
        true
    }

    /// Enters Insert mode, as `inserted_mode` says: refused while an operator
    /// is pending; with `append` the cursor advances one slot first.
    pub fn insert(&mut self, append: bool) -> (r: bool)
        requires
            old(self).wf(),
        ensures
            final(self)@ =~~= inserted_mode(old(self)@, append).0,
            r == inserted_mode(old(self)@, append).1,
            inv(final(self)@),
    {
        match self.snaps.current.op {
            InputOp::Noop => {},
            _ => {
                return false;
            },
        }
        self.snaps.current.mode = InputMode::Insert;
        if append {
            let c = self.snaps.current.cursor;
            let len = self.snaps.current.value.len();
            let t = if c >= len {
                len
            } else {
                c + 1
            };
            proof {
                assert(t as nat == step_target(self.snaps.current@, 1));
            }
            self.move_to(t, false);
        }
        proof {
            assert(self@ =~~= inserted_mode(old(self)@, append).0);
        }
        true
    }

    /// Marks the cursor as the selection anchor, then escapes.
    pub fn visual(&mut self) -> (r: bool)
        requires
            old(self).wf(),
        ensures
            final(self)@ =~~= visual_spec(old(self)@),
            inv(final(self)@),
            r == true,
    {
        let c = self.snaps.current.cursor;
        self.snaps.current.start = Some(c);
        self.escape()
    }

    /// Undo, as `undone` says: steps the history back if possible, refits
    /// the restored snapshot's viewport, and escapes.
    pub fn undo(&mut self) -> (r: bool)
        requires
            old(self).wf(),
        ensures
            final(self)@ =~~= undone(old(self)@).0,
            r == undone(old(self)@).1,
            inv(final(self)@),
    {
        if !self.snaps.undo() {
            proof {
                assert(self@ =~~= old(self)@);
            }
            return false;
        }
        if self.snaps.current.offset > self.snaps.current.cursor {
            let c = self.snaps.current.cursor;
            self.snaps.current.offset = c;
        }
        proof {
            assert(self.snaps.current@ =~~= clipped_offset(
                undo_spec(old(self)@.stack).0.current,
            ));
        }
        self.recompute();
        self.escape();
        proof {
            assert(self@ =~~= undone(old(self)@).0);
        }
        true
    }

    /// Redo, as `redone` says: steps the history forward if possible and
    /// refits the restored snapshot's viewport.
    pub fn redo(&mut self) -> (r: bool)
        requires
            old(self).wf(),
        ensures
            final(self)@ =~~= redone(old(self)@).0,
            r == redone(old(self)@).1,
            inv(final(self)@),
    {
        if !self.snaps.redo() {
            proof {
                assert(self@ =~~= old(self)@);
            }
            return false;
        }
        if self.snaps.current.offset > self.snaps.current.cursor {
            let c = self.snaps.current.cursor;
            self.snaps.current.offset = c;
        }
        proof {
            assert(self.snaps.current@ =~~= clipped_offset(
                redo_spec(old(self)@.stack).0.current,
            ));
        }
        self.recompute();
        proof {
            assert(self@ =~~= redone(old(self)@).0);
        }
        true
    }

    /// Types one character at the cursor, as `typed` says, then steps right.
    pub fn type_(&mut self, c: char) -> (r: bool)
        requires
            old(self).wf(),
            old(self)@.stack.current.value.len() < usize::MAX,
        ensures
            final(self)@ =~~= typed(old(self)@, c).0,
            r == typed(old(self)@, c).1,
            inv(final(self)@),
    {
        let cur = self.snaps.current.cursor;
        self.snaps.current.value.insert(cur, c);
        let t = cur + 1;
        proof {
            assert(t as nat == step_target(self.snaps.current@, 1));
        }
        self.move_to(t, false)
    }

    /// Backspace, as `backspaced` says: a no-op at the start of the text,
    /// otherwise removes the character before the cursor and steps left.
    pub fn backspace(&mut self) -> (r: bool)
        requires
            old(self).wf(),
        ensures
            final(self)@ =~~= backspaced(old(self)@).0,
            r == backspaced(old(self)@).1,
            inv(final(self)@),
    {
        let cur = self.snaps.current.cursor;
        if cur < 1 {
            return false;
        }
        self.snaps.current.value.remove(cur - 1);
        let t = cur - 1;
        proof {
            assert(t as nat == step_target(self.snaps.current@, -1));
        }
        self.move_to(t, false)
    }
}

/// Typing a sequence extends one character at a time.
pub proof fn lemma_typed_all_snoc(m: InputView, cs: Seq<char>, c: char)
    ensures
        typed_all(m, cs.push(c)) =~~= typed(typed_all(m, cs), c).0,
    decreases cs.len(),
{
    if cs.len() == 0 {
        assert(cs.push(c)[0] == c);
        let e = cs.push(c).subrange(1, cs.push(c).len() as int);
        assert(e =~= Seq::<char>::empty());
        assert(typed_all(m, cs.push(c)) =~~= typed_all(typed(m, c).0, e));
        assert(typed_all(typed(m, c).0, e) =~~= typed(m, c).0);
        assert(typed_all(m, cs) =~~= m);
    } else {
        assert(cs.push(c)[0] == cs[0]);
        assert(cs.push(c).subrange(1, cs.push(c).len() as int) =~= cs.subrange(
            1,
            cs.len() as int,
        ).push(c));
        let tail = cs.subrange(1, cs.len() as int);
        lemma_typed_all_snoc(typed(m, cs[0]).0, tail, c);
        assert(typed_all(m, cs.push(c)) =~~= typed_all(typed(m, cs[0]).0, tail.push(c)));
        assert(typed_all(m, cs) =~~= typed_all(typed(m, cs[0]).0, tail));
    }
}

impl Input {
    /// The delete operator, as `delete_spec` says: applies at once against an
    /// anchor, arms otherwise, and on a second bare press clears the whole
    /// text and commits an undo point.
    #[verifier::rlimit(100)]
    pub fn delete(&mut self, insert: bool) -> (r: bool)
        requires
            old(self).wf(),
        ensures
            final(self)@ =~~= delete_spec(old(self)@, insert).0,
            r == delete_spec(old(self)@, insert).1,
            inv(final(self)@),
    {
        match self.snaps.current.op {
            InputOp::Noop => {
                if self.snaps.current.start.is_some() {
                    self.snaps.current.op = InputOp::Delete(insert);
                    let t = self.snaps.current.cursor;
                    let b = self.resolve(t, true);
                    if b {
                        let t2 = self.snaps.current.cursor;
                        proof {
                            assert(t2 as nat == step_target(self.snaps.current@, 0));
                        }
                        self.move_to(t2, false);
                        proof {
                            assert(self@ =~~= delete_spec(old(self)@, insert).0);
                        }
                        true
                    } else {
                        self.recompute();
                        proof {
                            assert(self@ =~~= delete_spec(old(self)@, insert).0);
                        }
                        false
                    }
                } else {
                    let c = self.snaps.current.cursor;
                    self.snaps.current.op = InputOp::Delete(insert);
                    self.snaps.current.start = Some(c);
                    proof {
                        assert(self@ =~~= delete_spec(old(self)@, insert).0);
                    }
                    false
                }
            },
            InputOp::Delete(_) => {
                self.snaps.current.value = Vec::new();
                self.snaps.current.cursor = 0;
                self.snaps.current.offset = 0;
                self.snaps.current.mode = if insert {
                    InputMode::Insert
                } else {
                    InputMode::Normal
                };
                self.snaps.current.op = InputOp::Noop;
                self.snaps.current.start = None;
                proof {
                    lemma_width_empty(self.snaps.current.value@, 0);
                }
                self.snaps.tag();
                proof {
                    assert(self@ =~~= delete_spec(old(self)@, insert).0);
                }
                true
            },
            InputOp::Yank => false,
        }
    }

    /// The yank operator, as `yank_spec` says: applies at once against an
    /// anchor, arms otherwise, and on a second bare press selects the whole
    /// text without committing anything.
    #[verifier::rlimit(100)]
    pub fn yank(&mut self) -> (r: bool)
        requires
            old(self).wf(),
        ensures
            final(self)@ =~~= yank_spec(old(self)@).0,
            r == yank_spec(old(self)@).1,
            inv(final(self)@),
    {
        match self.snaps.current.op {
            InputOp::Noop => {
                if self.snaps.current.start.is_some() {
                    self.snaps.current.op = InputOp::Yank;
                    let t = self.snaps.current.cursor;
                    let b = self.resolve(t, true);
                    if b {
                        let t2 = self.snaps.current.cursor;
                        proof {
                            assert(t2 as nat == step_target(self.snaps.current@, 0));
                        }
                        self.move_to(t2, false);
                        proof {
                            assert(self@ =~~= yank_spec(old(self)@).0);
                        }
                        true
                    } else {
                        self.recompute();
                        proof {
                            assert(self@ =~~= yank_spec(old(self)@).0);
                        }
                        false
                    }
                } else {
                    let c = self.snaps.current.cursor;
                    self.snaps.current.op = InputOp::Yank;
                    self.snaps.current.start = Some(c);
                    proof {
                        assert(self@ =~~= yank_spec(old(self)@).0);
                    }
                    false
                }
            },
            InputOp::Yank => {
                self.snaps.current.start = Some(0);
                let count = self.snaps.current.value.len();
                let delta = self.snaps.current.mode.delta();
                let top = if count >= delta {
                    count - delta
                } else {
                    0
                };
                self.snaps.current.cursor = top;
                self.recompute();
                proof {
                    assert(self@ =~~= yank_spec(old(self)@).0);
                }
                false
            },
            InputOp::Delete(_) => false,
        }
    }

    /// Paste, as `pasted` says: deletes an existing selection first, treats
    /// empty clipboard text as a no-op, and otherwise enters Insert mode,
    /// types every clipboard character, and escapes.
    #[verifier::rlimit(100)]
    pub fn paste(&mut self, before: bool, clip: &Vec<char>) -> (r: bool)
        requires
            old(self).wf(),
            old(self)@.stack.current.value.len() + clip@.len() < usize::MAX,
        ensures
            final(self)@ =~~= pasted(old(self)@, before, clip@).0,
            r == pasted(old(self)@, before, clip@).1,
            inv(final(self)@),
    {
        if self.snaps.current.start.is_some() {
            self.snaps.current.op = InputOp::Delete(false);
            let t = self.snaps.current.cursor;
            self.move_to(t, true);
        }
        let ghost m1 = self@;
        proof {
            assert(m1 =~~= ({
                let s = cur_of(old(self)@);
                if s.start is Some {
                    do_move(
                        with_current(old(self)@, SnapView { op: InputOp::Delete(false), ..s }),
                        s.cursor,
                        true,
                    ).0
                } else {
                    old(self)@
                }
            }));
        }
        if clip.len() == 0 {
            proof {
                assert(self@ =~~= pasted(old(self)@, before, clip@).0);
            }
            return false;
        }
        self.insert(!before);
        let ghost m2 = self@;
        let n = clip.len();
        let mut k: usize = 0;
        proof {
            assert(clip@.take(0int) =~= Seq::<char>::empty());
            assert(typed_all(m2, clip@.take(0int)) =~~= m2);
        }
        while k < n
            invariant
                k <= n == clip@.len(),
                inv(self@),
                self@ =~~= typed_all(m2, clip@.take(k as int)),
                self@.stack.current.value.len() <= m2.stack.current.value.len() + k,
                m2.stack.current.value.len() + n < usize::MAX,
            decreases n - k,
        {
            proof {
                assert(clip@.take(k + 1) =~= clip@.take(k as int).push(clip@[k as int]));
                lemma_typed_all_snoc(m2, clip@.take(k as int), clip@[k as int]);
            }
            self.type_(clip[k]);
            k = k + 1;
        }
        proof {
            assert(clip@.take(n as int) =~= clip@);
        }
        self.escape();
        proof {
            assert(self@ =~~= pasted(old(self)@, before, clip@).0);
        }
        true
    }
}

impl Input {
    /// The word-back motion, as `backward_spec` says.
    pub fn backward(&mut self) -> (r: bool)
        requires
            old(self).wf(),
        ensures
            final(self)@ =~~= backward_spec(old(self)@).0,
            r == backward_spec(old(self)@).1,
            inv(final(self)@),
    {
        let c = self.snaps.current.cursor;
        let len = self.snaps.current.value.len();
        proof {
            assert(c <= len);
        }
        if c == 0 {
            proof {
                assert(c as nat == step_target(self.snaps.current@, 0));
            }
            let b = self.move_to(c, false);
            proof {
                assert(self@ =~~= backward_spec(old(self)@).0);
            }
            return b;
        }
        let k0 = self.snaps.current.kind_at(c - 1);
        let ghost s = self.snaps.current.value@;
        let mut prev = k0;
        let mut i: usize = 1;
        let mut found = false;
        let mut step: usize = 0;
        loop
            invariant_except_break
                !found,
                step == 0,
            invariant
                inv(self@),
                self@ =~~= old(self)@,
                1 <= i <= c,
                c == self@.stack.current.cursor,
                s == self@.stack.current.value,
                c <= len == s.len(),
                1 <= c,
                k0 == kind_of(s[c - 1]),
                bwd_scan(s, c as nat, i as nat, prev) == bwd_scan(s, c as nat, 1, k0),
            ensures
                self@ =~~= old(self)@,
                found ==> bwd_scan(s, c as nat, 1, k0) == Some(step as nat) && 1 <= step < c,
                !found ==> i >= c && bwd_scan(s, c as nat, 1, k0) == (
                    if prev != CharKind::Space {
                        Some(s.len())
                    } else {
                        None::<nat>
                    }
                ),
            decreases c - i,
        {
            if i >= c {
                break;
            }
            let k = char_kind(self.snaps.current.value[c - 1 - i]);
            if prev != CharKind::Space && prev != k {
                found = true;
                step = i;
                proof {
                    assert(bwd_scan(s, c as nat, i as nat, prev) == Some(i as nat));
                }
                break;
            }
            proof {
                assert(bwd_scan(s, c as nat, i as nat, prev) == bwd_scan(
                    s,
                    c as nat,
                    (i + 1) as nat,
                    kind_of(s[c - 1 - i]),
                ));
            }
            prev = k;
            i = i + 1;
        }
        if found {
            let t = c - step;
            proof {
                assert(t as nat == step_target(old(self)@.stack.current, -(step as int)));
            }
            let b = self.move_to(t, false);
            proof {
                assert(self@ =~~= backward_spec(old(self)@).0);
            }
            return b;
        }
        if prev != CharKind::Space {
            proof {
                assert(0nat == step_target(old(self)@.stack.current, -(s.len() as int)));
            }
            let b = self.move_to(0, false);
            proof {
                assert(self@ =~~= backward_spec(old(self)@).0);
            }
            return b;
        }
        proof {
            assert(self@ =~~= backward_spec(old(self)@).0);
        }
        false
    }

    /// The word-forward motion, as `forward_spec` says: to the start of the
    /// next word, or with `end` to the last character of the next run; a
    /// pending operator widens an end-motion by one.
    pub fn forward(&mut self, end: bool) -> (r: bool)
        requires
            old(self).wf(),
        ensures
            final(self)@ =~~= forward_spec(old(self)@, end).0,
            r == forward_spec(old(self)@, end).1,
            inv(final(self)@),
    {
        let c = self.snaps.current.cursor;
        let len = self.snaps.current.value.len();
        proof {
            assert(c <= len);
        }
        if len == 0 || c >= len {
            proof {
                assert(c as nat == step_target(self.snaps.current@, 0));
            }
            let b = self.move_to(c, false);
            proof {
                assert(self@ =~~= forward_spec(old(self)@, end).0);
            }
            return b;
        }
        let pending = match self.snaps.current.op {
            InputOp::Noop => false,
            InputOp::Delete(_) => true,
            InputOp::Yank => true,
        };
        let k0 = self.snaps.current.kind_at(c);
        let ghost s = self.snaps.current.value@;
        let mut prev = k0;
        let mut i: usize = 1;
        let mut step: usize = len;
        loop
            invariant_except_break
                step == len,
            invariant
                inv(self@),
                self@ =~~= old(self)@,
                1 <= i,
                c + i <= len,
                c == self@.stack.current.cursor,
                s == self@.stack.current.value,
                c < len == s.len(),
                k0 == kind_of(s[c as int]),
                pending == !(self@.stack.current.op is Noop),
                fwd_scan(s, c as nat, i as nat, prev, end, pending) == fwd_scan(
                    s,
                    c as nat,
                    1,
                    k0,
                    end,
                    pending,
                ),
            ensures
                self@ =~~= old(self)@,
                fwd_scan(s, c as nat, 1, k0, end, pending) == step as nat,
                1 <= step <= len,
            decreases len - c - i,
        {
            if i >= len - c {
                proof {
                    assert(fwd_scan(s, c as nat, i as nat, prev, end, pending) == s.len());
                }
                break;
            }
            let k = char_kind(self.snaps.current.value[c + i]);
            let b = if end {
                prev != CharKind::Space && prev != k && i != 1
            } else {
                k != CharKind::Space && k != prev
            };
            if b {
                step = if pending {
                    i
                } else if end {
                    i - 1
                } else {
                    i
                };
                proof {
                    assert(fwd_scan(s, c as nat, i as nat, prev, end, pending) == step as nat);
                }
                break;
            }
            proof {
                assert(fwd_scan(s, c as nat, i as nat, prev, end, pending) == fwd_scan(
                    s,
                    c as nat,
                    (i + 1) as nat,
                    kind_of(s[c + i]),
                    end,
                    pending,
                ));
            }
            prev = k;
            i = i + 1;
        }
        let t = if step >= len - c {
            len
        } else {
            c + step
        };
        proof {
            assert(t as nat == step_target(old(self)@.stack.current, step as int));
        }
        let b = self.move_to(t, false);
        proof {
            assert(self@ =~~= forward_spec(old(self)@, end).0);
        }
        b
    }
}

impl Input {
    /// A hidden widget over empty text.
    pub fn new() -> (r: Input)
        ensures
            inv(r@),
            r@.stack =~~= reset_spec(Seq::<char>::empty()),
            r@.title == Seq::<char>::empty(),
            r@.position == (0u16, 0u16),
            r@.visible == false,
            r@.yanked is None,
    {
        Input {
            snaps: InputSnaps::new(),
            title: Vec::new(),
            position: (0, 0),
            visible: false,
            yanked: None,
        }
    }

    /// Arms the widget, as `show_spec` says: fresh history over the given
    /// text, title and anchor stored, widget visible. The host closes any
    /// completion channel of a previous `show` itself.
    pub fn show(&mut self, opt: InputOpt)
        requires
            coords_of(opt.position).0 <= u16::MAX - 60,
            coords_of(opt.position).1 <= u16::MAX - 5,
        ensures
            final(self)@ =~~= show_spec(
                old(self)@,
                opt.title@,
                opt.value@,
                coords_of(opt.position),
            ),
            inv(final(self)@),
    {
        let v = chars_of(opt.value.as_str());
        self.snaps.reset(v);
        self.title = chars_of(opt.title.as_str());
        let (x, y) = match opt.position {
            Position::Coords(x, y) => (x, y),
        };
        self.position = (x, y);
        self.visible = true;
    }

    /// Hides the widget. The host sends the submitted value, or the
    /// cancellation, on its completion channel.
    pub fn close(&mut self, submit: bool) -> (r: bool)
        ensures
            final(self)@ =~~= (InputView { visible: false, ..old(self)@ }),
            r == true,
            inv(old(self)@) ==> inv(final(self)@),
    {
        let _ = submit;
        self.visible = false;
        true
    }

    /// The display label.
    pub fn title(&self) -> (r: String)
        ensures
            r@ == self@.title,
    {
        string_of(&self.title)
    }

    /// The full text of the live snapshot.
    pub fn text(&self) -> (r: String)
        ensures
            r@ == self@.stack.current.value,
    {
        string_of(&self.snaps.current.value)
    }

    /// The editing mode of the live snapshot.
    pub fn mode(&self) -> (r: InputMode)
        ensures
            r == self@.stack.current.mode,
    {
        self.snaps.current.mode
    }

    /// The currently visible windowed slice of the text. Its display width
    /// always stays strictly under the box width minus the margin.
    pub fn value(&self) -> (r: String)
        requires
            self.wf(),
        ensures
            r@ == window_of(self@.stack.current),
            seq_width(r@) < WIN_LIMIT,
    {
        let off = self.snaps.current.offset;
        proof {
            assert(off <= self.snaps.current.value@.len());
        }
        let len = self.snaps.current.value.len();
        let fit = fit_forward(&self.snaps.current.value, off);
        proof {
            assert(off + fit <= len);
        }
        let w = copy_range(&self.snaps.current.value, off, off + fit);
        string_of(&w)
    }

    /// The fixed-size box the widget draws in.
    pub fn area(&self) -> (r: Rect)
        requires
            self.wf(),
        ensures
            r == area_spec(self@),
    {
        Rect { x: self.position.0, y: self.position.1 + 2, width: BOX_WIDTH as u16, height: 3 }
    }

    /// The screen cell of the cursor.
    pub fn cursor(&self) -> (r: (u16, u16))
        requires
            self.wf(),
        ensures
            r == cursor_spec(self@),
    {
        let off = self.snaps.current.offset;
        let c = self.snaps.current.cursor;
        let w = width_between(&self.snaps.current.value, off, c);
        let area = self.area();
        (area.x + (w as u16) + 1, area.y + 1)
    }

    /// The rectangle covering the visible part of the selection, if an
    /// anchor is set.
    pub fn selected(&self) -> (r: Option<Rect>)
        requires
            self.wf(),
            self@.stack.current.value.len() < usize::MAX,
        ensures
            r == selected_spec(self@),
    {
        let st0 = match self.snaps.current.start {
            Some(a) => a,
            None => {
                return None;
            },
        };
        let len = self.snaps.current.value.len();
        let c = self.snaps.current.cursor;
        let off = self.snaps.current.offset;
        let st = if st0 <= len {
            st0
        } else {
            len
        };
        let (a, b) = if st < c {
            (st, c)
        } else {
            (c + 1, st + 1)
        };
        let fit = fit_forward(&self.snaps.current.value, off);
        let we = off + fit;
        let a1 = if a >= off {
            a
        } else {
            off
        };
        let a2 = if a1 <= we {
            a1
        } else {
            we
        };
        let b1 = if b <= we {
            b
        } else {
            we
        };
        let b2 = if b1 >= a2 {
            b1
        } else {
            a2
        };
        proof {
            lemma_width_range_split(self.snaps.current.value@, off as int, a2 as int, we as int);
            lemma_width_range_split(self.snaps.current.value@, a2 as int, b2 as int, we as int);
        }
        let wx = width_between(&self.snaps.current.value, off, a2);
        let ww = width_between(&self.snaps.current.value, a2, b2);
        Some(
            Rect {
                x: self.position.0 + 1 + (wx as u16),
                y: self.position.1 + 3,
                width: ww as u16,
                height: 1,
            },
        )
    }
}

/// One frame of render data for the host.
pub struct RenderInfo {
    pub area: Rect,
    pub cursor: (u16, u16),
    pub window: String,
    pub selected: Option<Rect>,
    pub mode: InputMode,
    pub title: String,
}

impl Input {
    /// Collects every render query into one frame.
    pub fn render(&self) -> (r: RenderInfo)
        requires
            self.wf(),
            self@.stack.current.value.len() < usize::MAX,
        ensures
            r.area == area_spec(self@),
            r.cursor == cursor_spec(self@),
            r.window@ == window_of(self@.stack.current),
            r.selected == selected_spec(self@),
            r.mode == self@.stack.current.mode,
            r.title@ == self@.title,
    {
        RenderInfo {
            area: self.area(),
            cursor: self.cursor(),
            window: self.value(),
            selected: self.selected(),
            mode: self.mode(),
            title: self.title(),
        }
    }
}

/// One host input event, resolved to an editor call.
pub enum InputEvent {
    Show(InputOpt),
    Close(bool),
    Escape,
    Insert(bool),
    Visual,
    Undo,
    Redo,
    Move(isize),
    MoveInOp(isize),
    Backward,
    Forward(bool),
    Type(char),
    Backspace,
    Delete(bool),
    Yank,
    Paste(bool, Vec<char>),
    Render,
}

/// Drives a fresh editor through a sequence of events. An event whose
/// machine-size limits fail its check is skipped rather than refused. The
/// editor and the last rendered frame, if any, come back.
pub fn run_events(events: &Vec<InputEvent>) -> (r: (Input, Option<RenderInfo>))
    ensures
        inv(r.0@),
{
    let mut ed = Input::new();
    let mut frame: Option<RenderInfo> = None;
    let n = events.len();
    let mut k: usize = 0;
    while k < n
        invariant
            inv(ed@),
            k <= n == events@.len(),
        decreases n - k,
    {
        match &events[k] {
            InputEvent::Show(opt) => {
                let (x, y) = match opt.position {
                    Position::Coords(x, y) => (x, y),
                };
                if x <= u16::MAX - 60 && y <= u16::MAX - 5 {
                    ed.show(
                        InputOpt {
                            title: opt.title.clone(),
                            value: opt.value.clone(),
                            position: opt.position,
                        },
                    );
                }
            },
            InputEvent::Close(submit) => {
                ed.close(*submit);
            },
            InputEvent::Escape => {
                ed.escape();
            },
            InputEvent::Insert(append) => {
                ed.insert(*append);
            },
            InputEvent::Visual => {
                ed.visual();
            },
            InputEvent::Undo => {
                ed.undo();
            },
            InputEvent::Redo => {
                ed.redo();
            },
            InputEvent::Move(step) => {
                if *step > isize::MIN {
                    ed.move_(*step);
                }
            },
            InputEvent::MoveInOp(step) => {
                if *step > isize::MIN {
                    ed.move_in_operating(*step);
                }
            },
            InputEvent::Backward => {
                ed.backward();
            },
            InputEvent::Forward(end) => {
                ed.forward(*end);
            },
            InputEvent::Type(c) => {
                if ed.snaps.current.value.len() < usize::MAX {
                    ed.type_(*c);
                }
            },
            InputEvent::Backspace => {
                ed.backspace();
            },
            InputEvent::Delete(ins) => {
                ed.delete(*ins);
            },
            InputEvent::Yank => {
                ed.yank();
            },
            InputEvent::Paste(before, clip) => {
                let len = ed.snaps.current.value.len();
                if clip.len() < usize::MAX - len {
                    ed.paste(*before, clip);
                }
            },
            InputEvent::Render => {
                if ed.snaps.current.value.len() < usize::MAX {
                    frame = Some(ed.render());
                }
            },
        }
        k = k + 1;
    }
    (ed, frame)
}

/// Law: under the invariant the cursor never passes the character count and
/// the viewport offset never passes the cursor. Every mutating method keeps
/// the invariant, so this holds after any call sequence.
pub proof fn lemma_cursor_in_bounds(m: InputView)
    requires
        inv(m),
    ensures
        m.stack.current.cursor <= m.stack.current.value.len(),
        m.stack.current.offset <= m.stack.current.cursor,
{
}

/// Law: arming a delete with no anchor set and resolving it with any motion
/// commits the deletion; one undo of the stack then makes the snapshot
/// committed before the delete live again — at an undo point, text and
/// cursor exactly as they were.
pub proof fn lemma_delete_undo_round_trip(m: InputView, ins: bool, target: nat)
    requires
        inv(m),
        m.stack.current.op is Noop,
        m.stack.current.start is None,
        snap_eqv(m.stack.current, m.stack.versions[m.stack.idx as int]),
        target <= m.stack.current.value.len(),
    ensures
        ({
            let armed = delete_spec(m, ins).0;
            let moved = do_move(armed, target, false).0;
            undo_spec(moved.stack).1 && snap_eqv(
                undo_spec(moved.stack).0.current,
                m.stack.current,
            )
        }),
{
    let armed = delete_spec(m, ins).0;
    let s1 = cur_of(armed);
    let rs = resolved_snap(s1, target, false);
    assert(rs.0.op is Noop);
    assert(!snap_eqv(rs.0, s1));
    let moved = do_move(armed, target, false).0;
    assert(moved.stack.versions == m.stack.versions.take(m.stack.idx + 1 as int).push(rs.0));
    assert(moved.stack.idx == m.stack.idx + 1);
    assert(undo_spec(moved.stack).0.current == m.stack.versions.take(m.stack.idx + 1 as int)[
        m.stack.idx as int
    ]);
    assert(m.stack.versions.take(m.stack.idx + 1 as int)[m.stack.idx as int]
        == m.stack.versions[m.stack.idx as int]);
}

} // verus!
