//! One snapshot of the edit buffer: text, cursor, viewport offset, mode,
//! pending operator and selection anchor.

use vstd::prelude::*;

use crate::chars::{
    char_kind, chars_eq, copy_chars, kind_of, seq_width, width_range, CharKind, WIN_LIMIT,
};

verus! {

/// The editing mode: in `Normal` mode the cursor rests on a character, in
/// `Insert` mode it rests between characters.
#[derive(Clone, Copy, Debug, PartialEq, Eq, Structural)]
pub enum InputMode {
    Normal,
    Insert,
}

/// The pending operator: `Noop` when none is pending, `Delete` (remembering
/// whether to re-enter insert mode) or `Yank`, awaiting a motion that
/// delimits their range.
#[derive(Clone, Copy, Debug, PartialEq, Eq, Structural)]
pub enum InputOp {
    Noop,
    Delete(bool),
    Yank,
}

/// How many slots past the end of the text the cursor may not occupy: one in
/// `Normal` mode, where the cursor sits on the last character, zero in
/// `Insert` mode.
pub open spec fn delta_of(m: InputMode) -> nat {
    if m is Insert {
        0
    } else {
        1
    }
}

impl InputMode {
    /// The cursor-clamping adjustment of this mode.
    pub fn delta(&self) -> (r: usize)
        ensures
            r == delta_of(*self),
    {
        match self {
            InputMode::Insert => 0,
            InputMode::Normal => 1,
        }
    }
}

/// The mathematical shadow of a snapshot.
#[verifier::ext_equal]
pub ghost struct SnapView {
    pub value: Seq<char>,
    pub cursor: nat,
    pub offset: nat,
    pub mode: InputMode,
    pub op: InputOp,
    pub start: Option<nat>,
}

/// One snapshot of the buffer.
pub struct InputSnap {
    pub value: Vec<char>,
    pub cursor: usize,
    pub offset: usize,
    pub mode: InputMode,
    pub op: InputOp,
    pub start: Option<usize>,
}

impl View for InputSnap {
    type V = SnapView;

    open spec fn view(&self) -> SnapView {
        SnapView {
            value: self.value@,
            cursor: self.cursor as nat,
            offset: self.offset as nat,
            mode: self.mode,
            op: self.op,
            start: match self.start {
                Some(i) => Some(i as nat),
                None => None,
            },
        }
    }
}

/// The highest cursor position the mode admits: the character count less the
/// mode's adjustment, floored at zero.
pub open spec fn top_cursor(m: InputMode, count: nat) -> nat {
    if count >= delta_of(m) {
        (count - delta_of(m)) as nat
    } else {
        0
    }
}

/// What every snapshot stored in the history satisfies: the cursor is in
/// bounds for its mode, and a pending operator always has an anchor.
pub open spec fn vwf(s: SnapView) -> bool {
    &&& s.cursor <= top_cursor(s.mode, s.value.len())
    &&& !(s.op is Noop) ==> s.start is Some
}

/// Well-formedness of the live snapshot: in addition, the viewport starts at
/// or before the cursor and the text between them fits the window budget.
pub open spec fn snap_wf(s: SnapView) -> bool {
    &&& vwf(s)
    &&& s.offset <= s.cursor
    &&& width_range(s.value, s.offset as int, s.cursor as int) < WIN_LIMIT
}

/// The snapshot a reset produces: the given text, cursor and offset at zero,
/// insert mode, no operator, no anchor.
pub open spec fn fresh_snap(v: Seq<char>) -> SnapView {
    SnapView {
        value: v,
        cursor: 0,
        offset: 0,
        mode: InputMode::Insert,
        op: InputOp::Noop,
        start: None,
    }
}

/// Value equality of two snapshot views, field by field.
pub open spec fn snap_eqv(a: SnapView, b: SnapView) -> bool {
    &&& a.value =~= b.value
    &&& a.cursor == b.cursor
    &&& a.offset == b.offset
    &&& a.mode == b.mode
    &&& a.op == b.op
    &&& a.start == b.start
}

impl InputSnap {
    /// A fresh snapshot holding the given text.
    pub fn new(value: Vec<char>) -> (r: InputSnap)
        ensures
            r@ =~~= fresh_snap(value@),
    {
        InputSnap {
            value,
            cursor: 0,
            offset: 0,
            mode: InputMode::Insert,
            op: InputOp::Noop,
            start: None,
        }
    }

    /// A deep copy of this snapshot.
    pub fn duplicate(&self) -> (r: InputSnap)
        ensures
            r@ =~~= self@,
    {
        InputSnap {
            value: copy_chars(&self.value),
            cursor: self.cursor,
            offset: self.offset,
            mode: self.mode,
            op: self.op,
            start: match self.start {
                Some(i) => Some(i),
                None => None,
            },
        }
    }

    /// Whether this snapshot equals another in every field.
    pub fn equals(&self, other: &InputSnap) -> (r: bool)
        ensures
            r == snap_eqv(self@, other@),
    {
        let starts_eq = match (self.start, other.start) {
            (Some(a), Some(b)) => a == b,
            (None, None) => true,
            _ => false,
        };
        starts_eq && self.cursor == other.cursor && self.offset == other.offset && self.mode
            == other.mode && self.op == other.op && chars_eq(&self.value, &other.value)
    }

    /// The kind of the character at index `i`.
    pub fn kind_at(&self, i: usize) -> (r: CharKind)
        requires
            i < self@.value.len(),
        ensures
            r == kind_of(self@.value[i as int]),
    {
        char_kind(self.value[i])
    }
}

} // verus!
