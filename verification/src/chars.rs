//! Character classification for word motions, display-column arithmetic for
//! the viewport, and the bridges between `String` and `Vec<char>`.

use vstd::prelude::*;

verus! {

/// Columns the input box spans on screen.
pub const BOX_WIDTH: usize = 50;

/// Columns of the box kept free as a margin.
pub const BOX_MARGIN: usize = 2;

/// Column budget for the visible window of text: the box width minus the margin.
pub const WIN_LIMIT: usize = BOX_WIDTH - BOX_MARGIN;

/// Classification of a character for word-boundary scanning.
#[derive(Clone, Copy, Debug, PartialEq, Eq, Structural)]
pub enum CharKind {
    Space,
    Punct,
    Word,
}

/// Whether the character has the Unicode `White_Space` property.
pub uninterp spec fn is_space_char(c: char) -> bool;

/// Whether the character is alphanumeric in the Unicode sense.
pub uninterp spec fn is_word_char(c: char) -> bool;

/// The display columns the character occupies in a terminal.
pub uninterp spec fn char_cols(c: char) -> nat;

/// Relies on char::is_whitespace: the `White_Space` property, a function of
/// the character alone.
#[verifier::external_body]
fn is_space_exec(c: char) -> (r: bool)
    ensures
        r == is_space_char(c),
{
    c.is_whitespace()
}

/// Relies on char::is_alphanumeric: the `Alphabetic` / `Number` properties, a
/// function of the character alone.
#[verifier::external_body]
fn is_word_exec(c: char) -> (r: bool)
    ensures
        r == is_word_char(c),
{
    c.is_alphanumeric()
}

/// Relies on unicode_width::UnicodeWidthChar::width: display columns of one
/// character, a function of the character alone; the crate's tables assign
/// every character a width between 0 and 3 (control characters report
/// `None`, rendered here as 0).
#[verifier::external_body]
pub fn char_width(c: char) -> (r: usize)
    ensures
        r == char_cols(c),
        r <= 3,
{
    unicode_width::UnicodeWidthChar::width(c).unwrap_or(0)
}

/// The kind used by word motions: spaces separate words, and runs of word
/// characters or of punctuation each form one word.
pub open spec fn kind_of(c: char) -> CharKind {
    if is_space_char(c) {
        CharKind::Space
    } else if is_word_char(c) || c == '_' {
        CharKind::Word
    } else {
        CharKind::Punct
    }
}

/// Classifies one character for word-boundary scanning.
pub fn char_kind(c: char) -> (r: CharKind)
    ensures
        r == kind_of(c),
{
    if is_space_exec(c) {
        CharKind::Space
    } else if is_word_exec(c) || c == '_' {
        CharKind::Word
    } else {
        CharKind::Punct
    }
}

/// Total display columns of a sequence of characters.
pub open spec fn seq_width(s: Seq<char>) -> nat
    decreases s.len(),
{
    if s.len() == 0 {
        0
    } else {
        char_cols(s[0]) + seq_width(s.subrange(1, s.len() as int))
    }
}

/// Display columns of the slice `[i, j)` of `s`.
pub open spec fn width_range(s: Seq<char>, i: int, j: int) -> nat {
    seq_width(s.subrange(i, j))
}

/// The width of a sequence splits at any interior point.
pub proof fn lemma_width_split(s: Seq<char>, i: int)
    requires
        0 <= i <= s.len(),
    ensures
        seq_width(s) == seq_width(s.subrange(0, i)) + seq_width(s.subrange(i, s.len() as int)),
    decreases i,
{
    if i == 0 {
        assert(s.subrange(0, 0) =~= Seq::<char>::empty());
        assert(s.subrange(0, s.len() as int) =~= s);
    } else {
        let t = s.subrange(1, s.len() as int);
        lemma_width_split(t, i - 1);
        assert(s.subrange(0, i).subrange(1, i) =~= t.subrange(0, i - 1));
        assert(s.subrange(0, i)[0] == s[0]);
        assert(seq_width(s.subrange(0, i)) == char_cols(s[0]) + seq_width(t.subrange(0, i - 1)));
        assert(s.subrange(i, s.len() as int) =~= t.subrange(i - 1, t.len() as int));
    }
}

/// The width of an inner slice splits at any point within it.
pub proof fn lemma_width_range_split(s: Seq<char>, i: int, j: int, k: int)
    requires
        0 <= i <= j <= k <= s.len(),
    ensures
        width_range(s, i, k) == width_range(s, i, j) + width_range(s, j, k),
{
    let t = s.subrange(i, k);
    lemma_width_split(t, j - i);
    assert(t.subrange(0, j - i) =~= s.subrange(i, j));
    assert(t.subrange(j - i, t.len() as int) =~= s.subrange(j, k));
}

/// An empty slice has width zero.
pub proof fn lemma_width_empty(s: Seq<char>, i: int)
    requires
        0 <= i <= s.len(),
    ensures
        width_range(s, i, i) == 0,
{
    assert(s.subrange(i, i) =~= Seq::<char>::empty());
}

/// A one-character slice has the width of that character.
pub proof fn lemma_width_one(s: Seq<char>, i: int)
    requires
        0 <= i < s.len(),
    ensures
        width_range(s, i, i + 1) == char_cols(s[i]),
{
    let t = s.subrange(i, i + 1);
    assert(t[0] == s[i]);
    assert(t.subrange(1, 1) =~= Seq::<char>::empty());
    assert(seq_width(t) == char_cols(t[0]) + seq_width(t.subrange(1, 1)));
}

/// Sums the display columns of `v[i..j]`; the caller knows the total stays
/// under the window budget, so the sum cannot overflow.
pub fn width_between(v: &Vec<char>, i: usize, j: usize) -> (r: usize)
    requires
        i <= j <= v@.len(),
        width_range(v@, i as int, j as int) < WIN_LIMIT,
    ensures
        r == width_range(v@, i as int, j as int),
{
    let mut k: usize = i;
    let mut acc: usize = 0;
    proof {
        lemma_width_empty(v@, i as int);
    }
    while k < j
        invariant
            i <= k <= j <= v@.len(),
            width_range(v@, i as int, j as int) < WIN_LIMIT,
            acc == width_range(v@, i as int, k as int),
        decreases j - k,
    {
        proof {
            lemma_width_range_split(v@, i as int, k as int, j as int);
            lemma_width_one(v@, k as int);
            lemma_width_range_split(v@, k as int, k + 1, j as int);
            lemma_width_range_split(v@, i as int, k as int, k + 1);
        }
        let w = char_width(v[k]);
        acc = acc + w;
        k = k + 1;
    }
    acc
}

/// Whether the display width of `v[i..j]` reaches `limit`.
pub fn width_reaches(v: &Vec<char>, i: usize, j: usize, limit: usize) -> (r: bool)
    requires
        i <= j <= v@.len(),
        limit <= WIN_LIMIT,
    ensures
        r == (width_range(v@, i as int, j as int) >= limit),
{
    if limit == 0 {
        return true;
    }
    let mut k: usize = i;
    let mut acc: usize = 0;
    proof {
        lemma_width_empty(v@, i as int);
    }
    while k < j
        invariant
            i <= k <= j <= v@.len(),
            1 <= limit <= WIN_LIMIT,
            acc == width_range(v@, i as int, k as int),
            acc < limit,
        decreases j - k,
    {
        proof {
            lemma_width_one(v@, k as int);
            lemma_width_range_split(v@, i as int, k as int, k + 1);
            lemma_width_range_split(v@, i as int, k + 1, j as int);
        }
        let w = char_width(v[k]);
        if acc + w >= limit {
            return true;
        }
        acc = acc + w;
        k = k + 1;
    }
    false
}

/// The number of characters a greedy scan leftward from `end` fits into
/// `budget` display columns, taking a character only while the running total
/// stays strictly below the budget.
pub open spec fn fit_back(s: Seq<char>, end: int, budget: int) -> int
    decreases end,
{
    if end <= 0 {
        0
    } else if char_cols(s[end - 1]) < budget {
        1 + fit_back(s, end - 1, budget - char_cols(s[end - 1]))
    } else {
        0
    }
}

/// The number of characters a greedy scan rightward from `start` fits into
/// `budget` display columns, taking a character only while the running total
/// stays strictly below the budget.
pub open spec fn fit_fwd(s: Seq<char>, start: int, budget: int) -> int
    decreases s.len() - start,
{
    if start < 0 || start >= s.len() {
        0
    } else if char_cols(s[start]) < budget {
        1 + fit_fwd(s, start + 1, budget - char_cols(s[start]))
    } else {
        0
    }
}

/// Greedily fits characters leftward from `end` into the window budget.
pub fn fit_backward(v: &Vec<char>, end: usize) -> (r: usize)
    requires
        end <= v@.len(),
    ensures
        r == fit_back(v@, end as int, WIN_LIMIT as int),
        r <= end,
        end > 0 ==> r >= 1,
        width_range(v@, end - r, end as int) < WIN_LIMIT,
{
    let mut j: usize = end;
    let mut budget: usize = WIN_LIMIT;
    proof {
        lemma_width_empty(v@, end as int);
    }
    loop
        invariant
            j <= end <= v@.len(),
            1 <= budget <= WIN_LIMIT,
            fit_back(v@, end as int, WIN_LIMIT as int) == (end - j) + fit_back(
                v@,
                j as int,
                budget as int,
            ),
            budget + width_range(v@, j as int, end as int) == WIN_LIMIT,
        ensures
            j <= end,
            fit_back(v@, end as int, WIN_LIMIT as int) == end - j,
            width_range(v@, j as int, end as int) < WIN_LIMIT,
            end > 0 ==> j < end,
        decreases j,
    {
        if j == 0 {
            assert(fit_back(v@, 0, budget as int) == 0);
            break;
        }
        let w = char_width(v[j - 1]);
        if w >= budget {
            assert(fit_back(v@, j as int, budget as int) == 0);
            proof {
                if j == end {
                    lemma_width_empty(v@, end as int);
                }
            }
            break;
        }
        proof {
            lemma_width_one(v@, j - 1);
            lemma_width_range_split(v@, j - 1, j as int, end as int);
            assert(fit_back(v@, j as int, budget as int) == 1 + fit_back(
                v@,
                j - 1,
                budget - char_cols(v@[j - 1]),
            ));
        }
        budget = budget - w;
        j = j - 1;
    }
    end - j
}

/// Greedily fits characters rightward from `start` into the window budget.
pub fn fit_forward(v: &Vec<char>, start: usize) -> (r: usize)
    requires
        start <= v@.len(),
    ensures
        r == fit_fwd(v@, start as int, WIN_LIMIT as int),
        start + r <= v@.len(),
        width_range(v@, start as int, start + r) < WIN_LIMIT,
{
    let n = v.len();
    let mut j: usize = start;
    let mut budget: usize = WIN_LIMIT;
    proof {
        lemma_width_empty(v@, start as int);
    }
    loop
        invariant
            start <= j <= n == v@.len(),
            1 <= budget <= WIN_LIMIT,
            fit_fwd(v@, start as int, WIN_LIMIT as int) == (j - start) + fit_fwd(
                v@,
                j as int,
                budget as int,
            ),
            budget + width_range(v@, start as int, j as int) == WIN_LIMIT,
        ensures
            start <= j <= v@.len(),
            fit_fwd(v@, start as int, WIN_LIMIT as int) == j - start,
            width_range(v@, start as int, j as int) < WIN_LIMIT,
        decreases n - j,
    {
        if j == n {
            assert(fit_fwd(v@, j as int, budget as int) == 0);
            break;
        }
        let w = char_width(v[j]);
        if w >= budget {
            assert(fit_fwd(v@, j as int, budget as int) == 0);
            break;
        }
        proof {
            lemma_width_one(v@, j as int);
            lemma_width_range_split(v@, start as int, j as int, j + 1);
            assert(fit_fwd(v@, j as int, budget as int) == 1 + fit_fwd(
                v@,
                j + 1,
                budget - char_cols(v@[j as int]),
            ));
        }
        budget = budget - w;
        j = j + 1;
    }
    j - start
}

/// Relies on str::chars (collected with Iterator::collect): the characters of
/// the string, in order.
#[verifier::external_body]
pub fn chars_of(s: &str) -> (v: Vec<char>)
    ensures
        v@ == s@,
{
    s.chars().collect()
}

/// Relies on String's FromIterator (through Iterator::collect): concatenating
/// the characters, in order.
#[verifier::external_body]
pub fn string_of(v: &Vec<char>) -> (s: String)
    ensures
        s@ == v@,
{
    v.iter().collect()
}

/// Copies the characters of `v[a..b]` into a fresh vector.
pub fn copy_range(v: &Vec<char>, a: usize, b: usize) -> (r: Vec<char>)
    requires
        a <= b <= v@.len(),
    ensures
        r@ == v@.subrange(a as int, b as int),
{
    let mut r: Vec<char> = Vec::new();
    let mut k: usize = a;
    while k < b
        invariant
            a <= k <= b <= v@.len(),
            r@ =~= v@.subrange(a as int, k as int),
        decreases b - k,
    {
        r.push(v[k]);
        proof {
            assert(r@ =~= v@.subrange(a as int, k + 1));
        }
        k = k + 1;
    }
    proof {
        assert(r@ =~= v@.subrange(a as int, b as int));
    }
    r
}

/// The characters of `v` with the slice `[a, b)` removed.
pub fn remove_range(v: &Vec<char>, a: usize, b: usize) -> (r: Vec<char>)
    requires
        a <= b <= v@.len(),
    ensures
        r@ == v@.subrange(0, a as int) + v@.subrange(b as int, v@.len() as int),
{
    let mut r = copy_range(v, 0, a);
    let n = v.len();
    let mut k: usize = b;
    proof {
        assert(r@ =~= v@.subrange(0, a as int) + v@.subrange(b as int, b as int));
    }
    while k < n
        invariant
            b <= k <= n == v@.len(),
            a <= b,
            r@ =~= v@.subrange(0, a as int) + v@.subrange(b as int, k as int),
        decreases n - k,
    {
        r.push(v[k]);
        proof {
            assert(r@ =~= v@.subrange(0, a as int) + v@.subrange(b as int, k + 1));
        }
        k = k + 1;
    }
    r
}

/// Copies a vector of characters.
pub fn copy_chars(v: &Vec<char>) -> (r: Vec<char>)
    ensures
        r@ == v@,
{
    let r = copy_range(v, 0, v.len());
    proof {
        assert(v@.subrange(0, v@.len() as int) =~= v@);
    }
    r
}

/// Whether two character vectors hold the same characters.
pub fn chars_eq(a: &Vec<char>, b: &Vec<char>) -> (r: bool)
    ensures
        r == (a@ =~= b@),
{
    if a.len() != b.len() {
        return false;
    }
    let n = a.len();
    let mut k: usize = 0;
    while k < n
        invariant
            k <= n == a@.len(),
            b@.len() == n,
            forall|i: int| 0 <= i < k ==> a@[i] == b@[i],
        decreases n - k,
    {
        if a[k] != b[k] {
            return false;
        }
        k = k + 1;
    }
    true
}

} // verus!
