//! A bounded ring of byte lines with a cursor and a visible window.
use vstd::prelude::*;
use vstd::arithmetic::div_mod::{
    lemma_add_mod_noop_right,
    lemma_fundamental_div_mod,
    lemma_mod_add_multiples_vanish,
    lemma_mod_multiples_vanish,
    lemma_mod_pos_bound,
    lemma_small_mod,
};

use crate::state::Config;

verus! {

/// Largest number of lines a store can hold: capacities come from a `u16`.
pub const MAX_CAPACITY: usize = 65535;

/// `x` reduced once by `m`: equal to `x % m` whenever `0 <= x < 2 * m`.
pub open spec fn wrap(x: int, m: int) -> int {
    if x < m {
        x
    } else {
        x - m
    }
}

proof fn lemma_mod_once(x: int, m: int)
    requires
        0 <= x < 2 * m,
    ensures
        x % m == wrap(x, m),
{
    if x < m {
        lemma_small_mod(x as nat, m as nat);
    } else {
        lemma_mod_add_multiples_vanish(x - m, m);
        lemma_small_mod((x - m) as nat, m as nat);
    }
}

/// What a line store holds, in logical order, with its capacity, its
/// visible window `[start, end)` and its cursor line.
pub struct LinesView {
    pub lines: Seq<Seq<u8>>,
    pub max: nat,
    pub start: nat,
    pub end: nat,
    pub cur: nat,
}

impl LinesView {
    /// The line at logical index `i`, for `i <= lines.len()`: the index one
    /// past the last line wraps round to the first.
    pub open spec fn row(self, i: int) -> Seq<u8> {
        self.lines[wrap(i, self.lines.len() as int)]
    }

    /// The window and cursor invariant that every cursor move re-establishes.
    pub open spec fn window_ok(self) -> bool {
        &&& 1 <= self.lines.len() <= MAX_CAPACITY
        &&& self.max <= MAX_CAPACITY
        &&& self.start <= self.cur < self.end <= self.lines.len() + 1
        &&& self.cur <= self.lines.len()
    }
}

/// The lines after adding `t`: appended while below capacity, otherwise the
/// oldest line is dropped first.
pub open spec fn added(lines: Seq<Seq<u8>>, max: nat, t: Seq<u8>) -> Seq<Seq<u8>> {
    if lines.len() < max {
        lines.push(t)
    } else {
        lines.drop_first().push(t)
    }
}

/// `line` with byte `b` written at column `col`: over the byte there, or
/// appended at the end.
pub open spec fn put_byte(line: Seq<u8>, col: nat, b: u8) -> Seq<u8> {
    if col < line.len() {
        line.update(col as int, b)
    } else {
        line.push(b)
    }
}

/// First index from `s` on that is not an empty row before the cursor `c`.
pub open spec fn trim_front(v: LinesView, s: nat, c: nat) -> nat
    decreases c - s,
{
    if s < c && v.row(s as int).len() == 0 {
        trim_front(v, s + 1, c)
    } else {
        s
    }
}

/// The window end after dropping empty rows at its bottom, never reaching
/// the cursor row `c`.
pub open spec fn trim_back(v: LinesView, e: nat, c: nat) -> nat
    decreases e,
{
    if c + 1 < e && v.row(e - 1).len() == 0 {
        trim_back(v, (e - 1) as nat, c)
    } else {
        e
    }
}

/// Where a request to move the cursor to `c` lands: clamped to the length.
pub open spec fn clamped(v: LinesView, c: int) -> nat {
    if c < v.lines.len() {
        c as nat
    } else {
        v.lines.len()
    }
}

/// Window start after moving the cursor to `c` (already clamped).
pub open spec fn moved_start(v: LinesView, c: nat) -> nat {
    trim_front(v, if c < v.start { c } else { v.start }, c)
}

/// Window end after moving the cursor to `c` (already clamped).
pub open spec fn moved_end(v: LinesView, c: nat) -> nat {
    trim_back(v, if c >= v.end { c + 1 } else { v.end }, c)
}

/// What must be redrawn after a cursor move.
#[derive(PartialEq, Eq, Structural, Clone, Copy, Debug)]
pub enum Dirty {
    /// The window moved: everything is redrawn.
    Full,
    /// Only these two rows changed: the old and the new cursor row.
    Partial(usize, usize),
}

/// The dirty signal owed for moving the cursor of `v` to `c` (clamped).
pub open spec fn dirty_after(v: LinesView, c: nat) -> Dirty {
    if moved_start(v, c) == v.start && moved_end(v, c) == v.end {
        Dirty::Partial(v.cur as usize, c as usize)
    } else {
        Dirty::Full
    }
}

/// The lines after adding each of `items` in turn.
pub open spec fn added_all(lines: Seq<Seq<u8>>, max: nat, items: Seq<Seq<u8>>) -> Seq<Seq<u8>>
    decreases items.len(),
{
    if items.len() == 0 {
        lines
    } else {
        added(added_all(lines, max, items.drop_last()), max, items.last())
    }
}

/// However many lines are added, a store that starts within its capacity
/// stays within it.
pub proof fn lemma_capacity_kept(lines: Seq<Seq<u8>>, max: nat, items: Seq<Seq<u8>>)
    requires
        1 <= lines.len() <= max,
    ensures
        1 <= added_all(lines, max, items).len() <= max,
    decreases items.len(),
{
    if items.len() > 0 {
        lemma_capacity_kept(lines, max, items.drop_last());
    }
}

/// Adding to a full store keeps its length, drops the oldest line, shifts
/// the others one place towards the front and puts the new line last.
pub proof fn lemma_full_add_evicts_oldest(lines: Seq<Seq<u8>>, max: nat, t: Seq<u8>)
    requires
        1 <= max,
        lines.len() == max,
    ensures
        added(lines, max, t).len() == max,
        forall|i: int| 0 <= i < max - 1 ==> #[trigger] added(lines, max, t)[i] == lines[i + 1],
        added(lines, max, t)[max - 1] == t,
{
}

/// Trimming moves the window start forward but never past the cursor, and
/// the window end back but never onto or above the cursor row.
pub proof fn lemma_trim_stays(v: LinesView, s: nat, e: nat, c: nat)
    requires
        s <= c < e,
    ensures
        s <= trim_front(v, s, c) <= c,
        c < trim_back(v, e, c) <= e,
    decreases c - s + e,
{
    if s < c && v.row(s as int).len() == 0 {
        lemma_trim_stays(v, s + 1, e, c);
    }
    if c + 1 < e && v.row(e - 1).len() == 0 {
        lemma_trim_stays(v, s, (e - 1) as nat, c);
    }
}

/// After a cursor move the window holds the (clamped) cursor and stays
/// within one past the end of the store; when the cursor lands on a line
/// and the window ended within the store, it still does.
pub proof fn lemma_window_contains(v: LinesView, c: nat)
    requires
        v.window_ok(),
    ensures
        moved_start(v, clamped(v, c as int)) <= clamped(v, c as int) < moved_end(v, clamped(v, c as int)),
        moved_end(v, clamped(v, c as int)) <= v.lines.len() + 1,
        c < v.lines.len() && v.end <= v.lines.len() ==> moved_end(v, clamped(v, c as int))
            <= v.lines.len(),
{
    let k = clamped(v, c as int);
    let s0: nat = if k < v.start { k } else { v.start };
    let e0: nat = if k >= v.end { (k + 1) as nat } else { v.end };
    assert(e0 <= v.lines.len() + 1);
    lemma_trim_stays(v, s0, e0, k);
    assert(moved_end(v, k) == trim_back(v, e0, k));
}

/// A cursor move that leaves the window as it was marks exactly the old
/// and the new cursor rows; one that changes it asks for a full redraw.
pub proof fn lemma_dirty_signal(v: LinesView, c: nat)
    ensures
        moved_start(v, c) == v.start && moved_end(v, c) == v.end ==> dirty_after(v, c)
            == Dirty::Partial(v.cur as usize, c as usize),
        !(moved_start(v, c) == v.start && moved_end(v, c) == v.end) ==> dirty_after(v, c)
            == Dirty::Full,
{
}

/// How an added line found its place.
#[derive(PartialEq, Eq, Structural, Clone, Copy, Debug)]
pub enum AddOutcome {
    /// The store was below capacity and grew by one line.
    Grew,
    /// The store was full: the oldest line was overwritten.
    Rotated,
}

/// A bounded store of byte lines kept in a rotating vector.
pub struct QueueView {
    vec: Vec<Vec<u8>>,
    ofs: usize,
    max: usize,
    start: usize,
    end: usize,
    cur: usize,
}

impl View for QueueView {
    type V = LinesView;

    closed spec fn view(&self) -> LinesView {
        LinesView {
            lines: Seq::new(
                self.vec@.len(),
                |i: int| self.vec@[wrap(i + self.ofs, self.vec@.len() as int)]@,
            ),
            max: self.max as nat,
            start: self.start as nat,
            end: self.end as nat,
            cur: self.cur as nat,
        }
    }
}

impl QueueView {
    /// Well-formedness: the rotation offset addresses a slot and the
    /// window invariant holds.
    pub open spec fn wf(&self) -> bool {
        &&& self.slots_ok()
        &&& self@.window_ok()
    }

    /// The rotation offset addresses a slot.
    pub closed spec fn slots_ok(&self) -> bool {
        self.ofs < self.vec@.len()
    }

    proof fn lemma_row(&self, i: int)
        requires
            self.wf(),
            0 <= i <= self.vec@.len(),
        ensures
            self@.row(i) == self.vec@[wrap(
                wrap(i, self.vec@.len() as int) + self.ofs,
                self.vec@.len() as int,
            )]@,
    {
    }

    /// An empty store holding one empty line, with room for `n_lines`.
    pub fn new(n_lines: u16) -> (r: QueueView)
        ensures
            r.wf(),
            r@.lines == seq![Seq::<u8>::empty()],
            r@.max == n_lines as nat,
            r@.start == 0,
            r@.end == 1,
            r@.cur == 0,
    {
        let r = QueueView {
            vec: vec![Vec::new()],
            ofs: 0,
            max: n_lines as usize,
            start: 0,
            end: 1,
            cur: 0,
        };
        assert(r@.lines =~= seq![Seq::<u8>::empty()]);
        r
    }

    /// Physical slot of logical index `i`; the index one past the end
    /// wraps round to the first line.
    fn slot(&self, i: usize) -> (k: usize)
        requires
            self.wf(),
            i <= self.vec@.len(),
        ensures
            k == wrap(wrap(i as int, self.vec@.len() as int) + self.ofs, self.vec@.len() as int),
            k < self.vec@.len(),
    {
        let len = self.vec.len();
        let j = if i < len {
            i
        } else {
            i - len
        };
        if j < len - self.ofs {
            j + self.ofs
        } else {
            j - (len - self.ofs)
        }
    }

    /// The line at logical index `i`.
    pub fn index(&self, i: usize) -> (r: &Vec<u8>)
        requires
            self.wf(),
            i < self@.lines.len(),
        ensures
            r@ == self@.lines[i as int],
    {
        let k = self.slot(i);
        &self.vec[k]
    }

    /// The line at logical index `i`, where `i` may be one past the last
    /// line, which wraps round to the first.
    pub fn row(&self, i: usize) -> (r: &Vec<u8>)
        requires
            self.wf(),
            i <= self@.lines.len(),
        ensures
            r@ == self@.row(i as int),
    {
        proof {
            self.lemma_row(i as int);
        }
        let k = self.slot(i);
        &self.vec[k]
    }

    fn row_is_empty(&self, i: usize) -> (r: bool)
        requires
            self.wf(),
            i <= self.vec@.len(),
        ensures
            r == (self@.row(i as int).len() == 0),
    {
        proof {
            self.lemma_row(i as int);
        }
        let k = self.slot(i);
        self.vec[k].len() == 0
    }

    /// Moves the cursor to line `cur`, clamped to the length, widens the
    /// window to hold it, trims empty rows at both window edges (never
    /// across the cursor) and tells what must be redrawn.
    pub fn set_cur(&mut self, cur: usize) -> (d: Dirty)
        requires
            old(self).wf(),
        ensures
            final(self).wf(),
            final(self)@.lines == old(self)@.lines,
            final(self)@.max == old(self)@.max,
            final(self)@.cur == clamped(old(self)@, cur as int),
            final(self)@.start == moved_start(old(self)@, clamped(old(self)@, cur as int)),
            final(self)@.end == moved_end(old(self)@, clamped(old(self)@, cur as int)),
            d == dirty_after(old(self)@, clamped(old(self)@, cur as int)),
    {
        let ghost v = self@;
        let old_cur = self.cur;
        let len = self.vec.len();
        self.cur = if cur < len {
            cur
        } else {
            len
        };
        let ghost c = self.cur as nat;
        let old_start = self.start;
        let old_end = self.end;
        if self.cur >= self.end {
            self.end = self.cur + 1;
        }
        if self.cur < self.start {
            self.start = self.cur;
        }
        assert(self@.lines == v.lines);
        while self.start < self.cur && self.row_is_empty(self.start)
            invariant
                self.wf(),
                self@.lines == v.lines,
                self.vec@.len() == v.lines.len(),
                self@.max == v.max,
                self.cur == c,
                self.end == old_end || self.end == c + 1,
                self.end == (if c >= v.end { c + 1 } else { v.end }),
                trim_front(v, self.start as nat, c) == moved_start(v, c),
            decreases self.cur - self.start,
        {
            self.start = self.start + 1;
        }
        while self.cur < self.end - 1 && self.row_is_empty(self.end - 1)
            invariant
                self.wf(),
                self@.lines == v.lines,
                self.vec@.len() == v.lines.len(),
                self@.max == v.max,
                self.cur == c,
                self.start == moved_start(v, c),
                trim_back(v, self.end as nat, c) == moved_end(v, c),
            decreases self.end,
        {
            self.end = self.end - 1;
        }
        if old_start != self.start || old_end != self.end {
            Dirty::Full
        } else {
            Dirty::Partial(old_cur, self.cur)
        }
    }

    /// Adds `t` as the newest line: appended while below capacity, else
    /// written over the oldest line, which leaves.
    pub fn add(&mut self, t: Vec<u8>) -> (r: AddOutcome)
        requires
            old(self).wf(),
        ensures
            final(self).wf(),
            final(self)@.lines == added(old(self)@.lines, old(self)@.max, t@),
            r == (if old(self)@.lines.len() < old(self)@.max {
                AddOutcome::Grew
            } else {
                AddOutcome::Rotated
            }),
            final(self)@.max == old(self)@.max,
            final(self)@.start == old(self)@.start,
            final(self)@.end == old(self)@.end,
            final(self)@.cur == old(self)@.cur,
    {
        let ghost v = self@;
        let ghost t_view = t@;
        let len = self.vec.len();
        if len < self.max {
            if self.ofs == 0 {
                self.vec.push(t);
            } else {
                self.vec.insert(self.ofs, t);
                self.ofs = self.ofs + 1;
            }
            assert(self@.lines =~= v.lines.push(t_view));
            AddOutcome::Grew
        } else {
            let k = self.ofs;
            self.vec.set(k, t);
            self.ofs = if k + 1 < len {
                k + 1
            } else {
                0
            };
            assert(self@.lines =~= v.lines.drop_first().push(t_view));
            AddOutcome::Rotated
        }
    }

    /// Rotates the logical order forward by `n` positions.
    pub fn inc_ofs(&mut self, n: usize)
        requires
            old(self).wf(),
        ensures
            final(self).wf(),
            final(self)@.lines == Seq::new(
                old(self)@.lines.len(),
                |i: int| old(self)@.lines[(i + n) % (old(self)@.lines.len() as int)],
            ),
            final(self)@.max == old(self)@.max,
            final(self)@.start == old(self)@.start,
            final(self)@.end == old(self)@.end,
            final(self)@.cur == old(self)@.cur,
    {
        let ghost v = self@;
        let len = self.vec.len();
        let r = n % len;
        proof {
            lemma_mod_pos_bound(n as int, len as int);
        }
        self.ofs = if self.ofs < len - r {
            self.ofs + r
        } else {
            self.ofs - (len - r)
        };
        assert forall|i: int| 0 <= i < len implies #[trigger] self@.lines[i] == v.lines[(i + n) % (
        len as int)] by {
            lemma_add_mod_noop_right(i, n as int, len as int);
            lemma_mod_once(i + r, len as int);
        }
        assert(self@.lines =~= Seq::new(len as nat, |i: int| v.lines[(i + n) % (len as int)]));
    }

    /// Rotates the logical order backward by `n` positions.
    pub fn dec_ofs(&mut self, n: usize)
        requires
            old(self).wf(),
        ensures
            final(self).wf(),
            final(self)@.lines == Seq::new(
                old(self)@.lines.len(),
                |i: int| old(self)@.lines[(i - n) % (old(self)@.lines.len() as int)],
            ),
            final(self)@.max == old(self)@.max,
            final(self)@.start == old(self)@.start,
            final(self)@.end == old(self)@.end,
            final(self)@.cur == old(self)@.cur,
    {
        let ghost v = self@;
        let len = self.vec.len();
        let r = n % len;
        proof {
            lemma_mod_pos_bound(n as int, len as int);
        }
        self.ofs = if self.ofs >= r {
            self.ofs - r
        } else {
            self.ofs + (len - r)
        };
        assert forall|i: int| 0 <= i < len implies #[trigger] self@.lines[i] == v.lines[(i - n) % (
        len as int)] by {
            let q = n as int / len as int;
            lemma_fundamental_div_mod(n as int, len as int);
            assert(i - n == (len as int) * (-q - 1) + (i + len - r)) by (nonlinear_arith)
                requires
                    n as int == (len as int) * q + r,
            ;
            lemma_mod_multiples_vanish(-q - 1, i + len - r, len as int);
            lemma_mod_once(i + len - r, len as int);
        }
        assert(self@.lines =~= Seq::new(len as nat, |i: int| v.lines[(i - n) % (len as int)]));
    }

    /// Number of lines held.
    pub fn len(&self) -> (r: usize)
        requires
            self.wf(),
        ensures
            r == self@.lines.len(),
    {
        self.vec.len()
    }

    /// Number of rows in the visible window.
    pub fn vis_len(&self) -> (r: usize)
        requires
            self.wf(),
        ensures
            r == self@.end - self@.start,
    {
        self.end - self.start
    }

    /// The cursor line.
    pub fn cur(&self) -> (r: usize)
        ensures
            r == self@.cur,
    {
        self.cur
    }

    /// First row of the visible window.
    pub fn start(&self) -> (r: usize)
        ensures
            r == self@.start,
    {
        self.start
    }

    /// End (exclusive) of the visible window.
    pub fn end(&self) -> (r: usize)
        ensures
            r == self@.end,
    {
        self.end
    }

    /// The cursor line's content.
    pub fn get(&self) -> (r: &Vec<u8>)
        requires
            self.wf(),
        ensures
            r@ == self@.row(self@.cur as int),
    {
        proof {
            self.lemma_row(self.cur as int);
        }
        let k = self.slot(self.cur);
        &self.vec[k]
    }

    /// Writes byte `b` into the cursor line at column `col`: over the byte
    /// there, or appended when `col` is the line's length.
    pub fn put(&mut self, col: usize, b: u8)
        requires
            old(self).wf(),
            old(self)@.cur < old(self)@.lines.len(),
            col <= old(self)@.lines[old(self)@.cur as int].len(),
        ensures
            final(self).wf(),
            final(self)@ == (LinesView {
                lines: old(self)@.lines.update(
                    old(self)@.cur as int,
                    put_byte(old(self)@.lines[old(self)@.cur as int], col as nat, b),
                ),
                ..old(self)@
            }),
            final(self)@.lines[old(self)@.cur as int].len() <= usize::MAX,
    {
        let ghost v = self@;
        let k = self.slot(self.cur);
        let mut line: Vec<u8> = Vec::new();
        std::mem::swap(&mut line, &mut self.vec[k]);
        if col < line.len() {
            line.set(col, b);
        } else {
            line.push(b);
        }
        // the line's length is known to fit in a usize
        assert(line@.len() == line.len());
        self.vec.set(k, line);
        assert(self@.lines =~= v.lines.update(v.cur as int, put_byte(v.lines[v.cur as int], col as nat, b)));
    }

    /// Takes the capacity for later `add` calls from `config`; lines
    /// already held stay.
    pub fn update_max_lines(&mut self, config: &Config)
        requires
            old(self).wf(),
        ensures
            final(self).wf(),
            final(self)@ == (LinesView { max: config.n_lines as nat, ..old(self)@ }),
    {
        self.max = config.n_lines as usize;
    }

    /// Capacity used by later `add` calls.
    pub fn max(&self) -> (r: usize)
        ensures
            r == self@.max,
    {
        self.max
    }
}

} // verus!
