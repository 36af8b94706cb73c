//! Session state: configuration, the scrollback with its cursor column, the
//! output appender, and a byte snapshot of the buffer.
use vstd::prelude::*;

use crate::line_store::{
    added,
    dirty_after,
    moved_end,
    moved_start,
    put_byte,
    Dirty,
    LinesView,
    QueueView,
};

verus! {

/// Where the window is anchored on the screen.
pub struct WindowPosition {
    pub right: bool,
    pub bottom: bool,
    pub x_offset: u16,
    pub y_offset: u16,
}

impl WindowPosition {
    /// Top-left pixel position of a `width` by `height` window on a screen
    /// of `screen_width` by `screen_height` pixels: the offsets count from
    /// the right or bottom edge where the position says so.
    pub fn get_xy(&self, width: u16, height: u16, screen_width: u16, screen_height: u16) -> (r: (
        i32,
        i32,
    ))
        ensures
            r.0 == (if self.right {
                screen_width - self.x_offset - width
            } else {
                self.x_offset as int
            }),
            r.1 == (if self.bottom {
                screen_height - self.y_offset - height
            } else {
                self.y_offset as int
            }),
    {
        let x: i32 = if self.right {
            screen_width as i32 - self.x_offset as i32 - width as i32
        } else {
            self.x_offset as i32
        };
        let y: i32 = if self.bottom {
            screen_height as i32 - self.y_offset as i32 - height as i32
        } else {
            self.y_offset as i32
        };
        (x, y)
    }
}

/// Session settings: window size in character cells, placement, colours.
pub struct Config {
    pub dark: bool,
    pub line_width: u16,
    pub n_lines: u16,
    pub pos: WindowPosition,
    pub last_line_border: bool,
}

impl Config {
    /// The default settings.
    pub open spec fn spec_default() -> Config {
        Config {
            dark: false,
            line_width: 50,
            n_lines: 24,
            pos: WindowPosition { right: false, bottom: true, x_offset: 0, y_offset: 44 },
            last_line_border: true,
        }
    }

    /// The default settings: light, 50 columns by 24 rows, anchored at the
    /// bottom left 44 pixels up, with a border above the last row.
    pub fn new() -> (r: Config)
        ensures
            r == Config::spec_default(),
    {
        let pos = WindowPosition { right: false, bottom: true, x_offset: 0, y_offset: 44 };
        Config { dark: false, line_width: 50, n_lines: 24, pos: pos, last_line_border: true }
    }
}

/// Decimal digits of `n`, most significant first, in ASCII.
pub open spec fn decimal(n: nat) -> Seq<u8>
    decreases n,
{
    if n < 10 {
        seq![(48 + n) as u8]
    } else {
        decimal(n / 10).push((48 + n % 10) as u8)
    }
}

/// Rows `0..n` of `v`, each followed by a newline but for the store's last
/// line.
pub open spec fn rows_text(v: LinesView, n: nat) -> Seq<u8>
    decreases n,
{
    if n == 0 {
        Seq::empty()
    } else {
        let i = (n - 1) as nat;
        rows_text(v, i) + v.row(i as int) + if i + 1 == v.lines.len() {
            Seq::empty()
        } else {
            seq![10u8]
        }
    }
}

/// A byte image of a session: a sizing code carrying the capacity
/// (`ESC [ max ; 73 ~`), the visible rows from the top of the store, and a
/// cursor-positioning code with one-based row and column (`ESC [ r ; c H`).
pub open spec fn snapshot(s: StateView) -> Seq<u8> {
    seq![27u8, 91u8] + decimal(s.lines.max) + seq![59u8, 55u8, 51u8, 126u8] + rows_text(
        s.lines,
        s.lines.end,
    ) + seq![27u8, 91u8] + decimal(s.lines.cur + 1) + seq![59u8] + decimal(s.col + 1) + seq![
        72u8,
    ]
}

/// Appends the decimal digits of `n` to `out`.
fn push_decimal(out: &mut Vec<u8>, n: u128)
    ensures
        final(out)@ == old(out)@ + decimal(n as nat),
    decreases n,
{
    if n >= 10 {
        push_decimal(out, n / 10);
    }
    out.push((48 + n % 10) as u8);
    proof {
        reveal_with_fuel(decimal, 2);
        if n >= 10 {
            assert(old(out)@ + decimal(n as nat) =~= old(out)@ + decimal((n / 10) as nat) + seq![
                (48 + n % 10) as u8,
            ]);
        }
    }
}

/// Appends `tail` to `out`.
fn push_all(out: &mut Vec<u8>, tail: &[u8])
    ensures
        final(out)@ == old(out)@ + tail@,
{
    let mut i: usize = 0;
    while i < tail.len()
        invariant
            0 <= i <= tail@.len(),
            out@ == old(out)@ + tail@.subrange(0, i as int),
        decreases tail@.len() - i,
    {
        out.push(tail[i]);
        i = i + 1;
        assert(out@ =~= old(out)@ + tail@.subrange(0, i as int));
    }
    assert(tail@.subrange(0, i as int) =~= tail@);
}

/// Capacity of the scrollback of a session made by `State::new`.
pub const SCROLLBACK_LINES: u16 = 5;

/// What a session holds: its scrollback, the cursor column, and the rows
/// waiting to be redrawn (`None`: everything).
pub struct StateView {
    pub lines: LinesView,
    pub col: nat,
    pub redraw: Option<Seq<usize>>,
}

/// Pending redraw after dirty signal `d`: a full redraw absorbs any rows.
pub open spec fn record(redraw: Option<Seq<usize>>, d: Dirty) -> Option<Seq<usize>> {
    match d {
        Dirty::Full => None,
        Dirty::Partial(a, b) => match redraw {
            Some(rows) => Some(rows.push(a).push(b)),
            None => None,
        },
    }
}

/// Moves the cursor of `s` to line `c` and records what must be redrawn.
pub open spec fn moved(s: StateView, c: nat) -> StateView {
    StateView {
        lines: LinesView {
            start: moved_start(s.lines, c),
            end: moved_end(s.lines, c),
            cur: c,
            ..s.lines
        },
        col: s.col,
        redraw: record(s.redraw, dirty_after(s.lines, c)),
    }
}

/// The session after one byte of output: a newline adds a fresh line and
/// moves the cursor to its start; any other byte is written at the cursor.
pub open spec fn feed(s: StateView, b: u8) -> StateView {
    if b == 10 {
        let grown = StateView {
            lines: LinesView {
                lines: added(s.lines.lines, s.lines.max, Seq::empty()),
                ..s.lines
            },
            ..s
        };
        let m = moved(grown, (grown.lines.lines.len() - 1) as nat);
        StateView { col: 0, ..m }
    } else {
        let c = s.lines.cur as int;
        StateView {
            lines: LinesView {
                lines: s.lines.lines.update(c, put_byte(s.lines.lines[c], s.col, b)),
                ..s.lines
            },
            col: s.col + 1,
            redraw: s.redraw,
        }
    }
}

/// The session after the bytes of `data`, one by one.
pub open spec fn feed_all(s: StateView, data: Seq<u8>) -> StateView
    decreases data.len(),
{
    if data.len() == 0 {
        s
    } else {
        feed(feed_all(s, data.drop_last()), data.last())
    }
}

/// The session after writing `data`: the bytes are fed in, then the cursor
/// row is marked for redraw.
pub open spec fn written(s: StateView, data: Seq<u8>) -> StateView {
    if data.len() == 0 {
        s
    } else {
        let f = feed_all(s, data);
        moved(f, f.lines.cur)
    }
}

/// A terminal session's buffer.
pub struct State {
    config: Config,
    lines: QueueView,
    col: usize,
    redraw_lines: Option<Vec<usize>>,
}

impl View for State {
    type V = StateView;

    closed spec fn view(&self) -> StateView {
        StateView {
            lines: self.lines@,
            col: self.col as nat,
            redraw: match self.redraw_lines {
                Some(rows) => Some(rows@),
                None => None,
            },
        }
    }
}

/// Well-formedness of a session's picture: the cursor stands on the last
/// line, and its column at most at that line's end.
pub open spec fn session_ok(s: StateView) -> bool {
    &&& s.lines.window_ok()
    &&& s.lines.cur + 1 == s.lines.lines.len()
    &&& s.col <= s.lines.lines[s.lines.cur as int].len()
}

impl State {
    /// The configuration, for contracts.
    pub closed spec fn settings(&self) -> Config {
        self.config
    }

    /// The session's configuration.
    pub fn config(&self) -> (r: &Config)
        ensures
            *r == self.settings(),
    {
        &self.config
    }

    /// Well-formedness: the store's and the session's invariants.
    pub closed spec fn wf(&self) -> bool {
        &&& self.lines.wf()
        &&& session_ok(self@)
    }

    /// A session with the default configuration and a scrollback of
    /// `SCROLLBACK_LINES` lines.
    pub fn new() -> (r: State)
        ensures
            r.wf(),
            r@.lines.lines == seq![Seq::<u8>::empty()],
            r@.lines.max == SCROLLBACK_LINES as nat,
            r@.lines.start == 0,
            r@.lines.end == 1,
            r@.lines.cur == 0,
            r@.col == 0,
            r@.redraw.is_none(),
            r.settings() == Config::spec_default(),
    {
        State::with_capacity(SCROLLBACK_LINES)
    }

    /// A session with the default configuration and a scrollback of
    /// `n_lines` lines.
    pub fn with_capacity(n_lines: u16) -> (r: State)
        ensures
            r.wf(),
            r@.lines.lines == seq![Seq::<u8>::empty()],
            r@.lines.max == n_lines as nat,
            r@.lines.start == 0,
            r@.lines.end == 1,
            r@.lines.cur == 0,
            r@.col == 0,
            r@.redraw.is_none(),
            r.settings() == Config::spec_default(),
    {
        State { config: Config::new(), lines: QueueView::new(n_lines), col: 0, redraw_lines: None }
    }

    fn record(&mut self, d: Dirty)
        ensures
            final(self).settings() == old(self).settings(),
            final(self).lines == old(self).lines,
            final(self).col == old(self).col,
            final(self)@.redraw == record(old(self)@.redraw, d),
    {
        match d {
            Dirty::Full => {
                self.redraw_lines = None;
            },
            Dirty::Partial(a, b) => {
                match &mut self.redraw_lines {
                    Some(rows) => {
                        rows.push(a);
                        rows.push(b);
                    },
                    None => {},
                }
            },
        }
    }

    fn feed_byte(&mut self, b: u8)
        requires
            old(self).wf(),
        ensures
            final(self).wf(),
            final(self)@ == feed(old(self)@, b),
            final(self).settings() == old(self).settings(),
    {
        if b == 10 {
            self.lines.add(Vec::new());
            let last = self.lines.len() - 1;
            let d = self.lines.set_cur(last);
            self.col = 0;
            self.record(d);
        } else {
            self.lines.put(self.col, b);
            self.col = self.col + 1;
        }
    }

    /// Appends the child's output `data` to the buffer and returns how many
    /// bytes were taken (all of them).
    pub fn write(&mut self, data: &[u8]) -> (n: usize)
        requires
            old(self).wf(),
        ensures
            final(self).wf(),
            final(self)@ == written(old(self)@, data@),
            final(self).settings() == old(self).settings(),
            n == data@.len(),
    {
        let ghost s0 = self@;
        let mut i: usize = 0;
        while i < data.len()
            invariant
                self.wf(),
                0 <= i <= data@.len(),
                self@ == feed_all(s0, data@.subrange(0, i as int)),
                self.settings() == old(self).settings(),
            decreases data@.len() - i,
        {
            proof {
                assert(data@.subrange(0, i + 1).drop_last() =~= data@.subrange(0, i as int));
            }
            self.feed_byte(data[i]);
            i = i + 1;
        }
        assert(data@.subrange(0, i as int) =~= data@);
        if data.len() > 0 {
            let c = self.lines.cur();
            let d = self.lines.set_cur(c);
            self.record(d);
        }
        data.len()
    }

    /// Appends all of `data` to the buffer.
    pub fn write_all(&mut self, data: &[u8])
        requires
            old(self).wf(),
        ensures
            final(self).wf(),
            final(self)@ == written(old(self)@, data@),
            final(self).settings() == old(self).settings(),
    {
        self.write(data);
    }

    /// The scrollback.
    pub fn lines(&self) -> (r: &QueueView)
        requires
            self.wf(),
        ensures
            r.wf(),
            r@ == self@.lines,
    {
        &self.lines
    }

    /// The cursor column.
    pub fn col(&self) -> (r: usize)
        ensures
            r == self@.col,
    {
        self.col
    }

    /// Hands out the rows waiting to be redrawn (`None`: everything) and
    /// starts a new, empty list.
    pub fn take_redraw(&mut self) -> (r: Option<Vec<usize>>)
        requires
            old(self).wf(),
        ensures
            final(self).wf(),
            final(self)@ == (StateView { redraw: Some(Seq::empty()), ..old(self)@ }),
            final(self).settings() == old(self).settings(),
            r.is_some() == old(self)@.redraw.is_some(),
            r.is_some() ==> r.unwrap()@ == old(self)@.redraw.unwrap(),
    {
        let mut r = Some(Vec::new());
        std::mem::swap(&mut r, &mut self.redraw_lines);
        r
    }

    /// Takes the scrollback capacity from the configuration.
    pub fn update_max_lines(&mut self)
        requires
            old(self).wf(),
        ensures
            final(self).wf(),
            final(self)@ == (StateView {
                lines: LinesView { max: old(self).settings().n_lines as nat, ..old(self)@.lines },
                ..old(self)@
            }),
            final(self).settings() == old(self).settings(),
    {
        self.lines.update_max_lines(&self.config);
    }
}

/// A byte stream over a snapshot of a session.
pub struct Reader {
    bytes: Vec<u8>,
    pos: usize,
}

impl View for Reader {
    type V = Seq<u8>;

    /// The bytes not yet read.
    closed spec fn view(&self) -> Seq<u8> {
        self.bytes@.subrange(self.pos as int, self.bytes@.len() as int)
    }
}

impl Reader {
    /// Well-formedness: the read position lies within the bytes.
    pub closed spec fn wf(&self) -> bool {
        self.pos <= self.bytes@.len()
    }

    /// A reader over the snapshot of `state`.
    pub fn from(state: &State) -> (r: Reader)
        requires
            state.wf(),
        ensures
            r.wf(),
            r@ == snapshot(state@),
    {
        let lines = state.lines();
        let ghost v = lines@;
        let mut bytes: Vec<u8> = Vec::new();
        bytes.push(27);
        bytes.push(91);
        push_decimal(&mut bytes, lines.max() as u128);
        bytes.push(59);
        bytes.push(55);
        bytes.push(51);
        bytes.push(126);
        let ghost head = bytes@;
        let len = lines.len();
        let end = lines.end();
        let mut i: usize = 0;
        while i < end
            invariant
                lines.wf(),
                lines@ == v,
                len == v.lines.len(),
                end == v.end,
                0 <= i <= end,
                bytes@ == head + rows_text(v, i as nat),
            decreases end - i,
        {
            let line = lines.row(i);
            push_all(&mut bytes, line.as_slice());
            if i + 1 != len {
                bytes.push(10);
            }
            i = i + 1;
            assert(bytes@ =~= head + rows_text(v, i as nat));
        }
        bytes.push(27);
        bytes.push(91);
        push_decimal(&mut bytes, lines.cur() as u128 + 1);
        bytes.push(59);
        push_decimal(&mut bytes, state.col() as u128 + 1);
        bytes.push(72);
        let r = Reader { bytes, pos: 0 };
        assert(r@ =~= snapshot(state@));
        r
    }

    /// Copies the next bytes into `buf`, as many as fit, and returns how
    /// many; 0 once everything was read.
    pub fn read(&mut self, buf: &mut [u8]) -> (n: usize)
        requires
            old(self).wf(),
        ensures
            final(self).wf(),
            n == (if old(buf)@.len() < old(self)@.len() {
                old(buf)@.len()
            } else {
                old(self)@.len()
            }),
            final(buf)@ == old(self)@.subrange(0, n as int) + old(buf)@.subrange(
                n as int,
                old(buf)@.len() as int,
            ),
            final(self)@ == old(self)@.subrange(n as int, old(self)@.len() as int),
    {
        let rest = self.bytes.len() - self.pos;
        let n = if buf.len() < rest {
            buf.len()
        } else {
            rest
        };
        let pos = self.pos;
        let total = self.bytes.len();
        let mut i: usize = 0;
        while i < n
            invariant
                self.wf(),
                pos == self.pos,
                total == self.bytes@.len(),
                pos + n <= self.bytes@.len(),
                self.bytes == old(self).bytes,
                self.pos == old(self).pos,
                n <= old(buf)@.len(),
                buf@.len() == old(buf)@.len(),
                0 <= i <= n,
                buf@ == old(self)@.subrange(0, i as int) + old(buf)@.subrange(
                    i as int,
                    old(buf)@.len() as int,
                ),
            decreases n - i,
        {
            let k = pos + i;
            buf[i] = self.bytes[k];
            i = i + 1;
            assert(buf@ =~= old(self)@.subrange(0, i as int) + old(buf)@.subrange(
                i as int,
                old(buf)@.len() as int,
            ));
        }
        self.pos = self.pos + n;
        assert(self@ =~= old(self)@.subrange(n as int, old(self)@.len() as int));
        n
    }

    /// Appends every byte not yet read to `out` and returns how many.
    pub fn read_to_end(&mut self, out: &mut Vec<u8>) -> (n: usize)
        requires
            old(self).wf(),
        ensures
            final(self).wf(),
            final(out)@ == old(out)@ + old(self)@,
            final(self)@.len() == 0,
            n == old(self)@.len(),
    {
        let n = self.bytes.len() - self.pos;
        let mut i: usize = self.pos;
        while i < self.bytes.len()
            invariant
                self.wf(),
                self.bytes == old(self).bytes,
                self.pos == old(self).pos,
                self.pos <= i <= self.bytes@.len(),
                out@ == old(out)@ + self.bytes@.subrange(self.pos as int, i as int),
            decreases self.bytes@.len() - i,
        {
            out.push(self.bytes[i]);
            i = i + 1;
            assert(out@ =~= old(out)@ + self.bytes@.subrange(self.pos as int, i as int));
        }
        self.pos = self.bytes.len();
        assert(self@ =~= Seq::<u8>::empty());
        n
    }
}

} // verus!
