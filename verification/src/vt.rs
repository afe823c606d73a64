use crate::cell::Cell;
use crate::dirty_lines::{lemma_lists_some_iff_marked, lists_marked};
use crate::line::Line;
use crate::parser::{
    lemma_escape_starts_over, lemma_feed_str_joined, lemma_feed_str_push, lemma_mode_1049_sequence,
    mode_1049_sequence, Event, Parser, ParserState,
};
use crate::terminal::{lemma_handled_events_apply, Terminal};
use crate::terminal_model::{
    lemma_alternate_round_trip, lemma_apply_all_joined, lemma_apply_all_one,
    lemma_hard_reset_is_a_new_terminal, primary_buffer, BufferType, TerminalModel,
};
use vstd::prelude::*;

verus! {

/// A virtual terminal: a parser and the terminal that its events act on.
#[derive(Debug)]
pub struct Vt {
    parser: Parser,
    terminal: Terminal,
}

/// What a virtual terminal shows at one moment: the cells of its rows, and
/// the cursor if it is visible.
#[derive(Debug)]
pub struct Frame {
    pub lines: Vec<Vec<Cell>>,
    pub cursor: Option<(usize, usize)>,
}

/// The value of a virtual terminal.
pub struct VtModel {
    pub parser: ParserState,
    pub terminal: TerminalModel,
}

impl VtModel {
    /// A virtual terminal of the given size before any input.
    pub open spec fn new(cols: int, rows: int) -> VtModel {
        VtModel { parser: ParserState::initial(), terminal: TerminalModel::new(cols, rows) }
    }

    /// What holds of a virtual terminal between feeds: what holds of its
    /// parser and its terminal, and no row is marked as changed.
    pub open spec fn wf(self) -> bool {
        &&& self.parser.wf()
        &&& self.terminal.wf()
        &&& self.terminal.dirty == crate::dirty_lines::clean(self.terminal.rows as nat)
    }

    /// The terminal after the events of `input`, with the rows that they
    /// changed still marked.
    pub open spec fn fed_terminal(self, input: Seq<char>) -> TerminalModel {
        self.terminal.apply_all(self.parser.feed_str_events(input))
    }

    /// The virtual terminal after `input`: the parser has read it, the
    /// terminal has acted on its events, and no row is marked as changed.
    pub open spec fn feed_str(self, input: Seq<char>) -> VtModel {
        VtModel {
            parser: self.parser.feed_str(input),
            terminal: self.fed_terminal(input).drained(),
        }
    }

    /// The virtual terminal with a screen `cols` wide and `rows` high, and
    /// no row marked as changed.
    pub open spec fn resize(self, cols: int, rows: int) -> VtModel {
        VtModel { terminal: self.terminal.resize(cols, rows).drained(), ..self }
    }

    /// The cursor as it is shown: its column and row, if it is visible.
    pub open spec fn cursor(self) -> Option<(usize, usize)> {
        if self.terminal.cursor_visible {
            Some((self.terminal.cursor_col as usize, self.terminal.cursor_row as usize))
        } else {
            None
        }
    }

    /// Whether `frame` shows this virtual terminal.
    pub open spec fn shown_by(self, frame: Frame) -> bool {
        &&& frame.cursor == self.cursor()
        &&& frame.lines@.len() == self.terminal.rows
        &&& forall|row: int|
            0 <= row < frame.lines@.len() ==> (#[trigger] frame.lines@[row])@
                == self.terminal.buffer.row(row).cells
    }

    /// For each row, whether `input` changes it.
    pub open spec fn changes(self, input: Seq<char>) -> Seq<bool> {
        self.fed_terminal(input).dirty
    }
}

impl Vt {
    /// The value of this virtual terminal.
    pub closed spec fn model(&self) -> VtModel {
        VtModel { parser: self.parser@, terminal: self.terminal.model() }
    }

    /// What holds of a virtual terminal between feeds.
    pub open spec fn wf(&self) -> bool {
        self.model().wf()
    }

    pub fn new(size: (usize, usize)) -> (r: Self)
        requires
            size.0 >= 1,
            size.1 >= 1,
        ensures
            r.wf(),
            r.model() == VtModel::new(size.0 as int, size.1 as int),
    {
        Vt { parser: Parser::default(), terminal: Terminal::new(size) }
    }

    /// Feeds `s` to the terminal and returns the rows that it changed, in
    /// increasing order.
    pub fn feed_str(&mut self, s: &str) -> (rows: Vec<usize>)
        requires
            old(self).wf(),
        ensures
            final(self).wf(),
            final(self).model() == old(self).model().feed_str(s@),
            lists_marked(
                rows@,
                old(self).model().changes(s@),
                old(self).model().changes(s@).len() as int,
            ),
    {
        let ghost before = self.terminal;
        self.parser.feed_str(s, &mut self.terminal);
        proof {
            lemma_handled_events_apply(
                before,
                old(self).parser@.feed_str_events(s@),
                self.terminal,
            );
        }
        self.terminal.changes()
    }

    /// Makes the screen `cols` wide and `rows` high and returns the rows
    /// that this changed, in increasing order.
    pub fn resize(&mut self, cols: usize, rows: usize) -> (changed: Vec<usize>)
        requires
            old(self).wf(),
            cols >= 1,
            rows >= 1,
        ensures
            final(self).wf(),
            final(self).model() == old(self).model().resize(cols as int, rows as int),
            lists_marked(
                changed@,
                old(self).model().terminal.resize(cols as int, rows as int).dirty,
                old(self).model().terminal.resize(cols as int, rows as int).dirty.len() as int,
            ),
    {
        self.terminal.resize(cols, rows);
        self.terminal.changes()
    }

    pub fn cursor(&self) -> (r: Option<(usize, usize)>)
        ensures
            r == self.model().cursor(),
            self.wf() ==> match r {
                Some((col, row)) => col <= self.model().terminal.cols && row
                    < self.model().terminal.rows,
                None => true,
            },
    {
        self.terminal.cursor()
    }

    /// What the virtual terminal shows now.
    pub fn frame(&self) -> (frame: Frame)
        requires
            self.wf(),
        ensures
            self.model().shown_by(frame),
    {
        let view = self.terminal.view();
        let mut lines: Vec<Vec<Cell>> = Vec::new();
        let mut row: usize = 0;
        while row < view.len()
            invariant
                row <= view@.len(),
                lines@.len() == row,
                forall|r: int| 0 <= r < row ==> (#[trigger] lines@[r])@ == view@[r]@.cells,
            decreases view@.len() - row,
        {
            let line = &view[row];
            let mut cells: Vec<Cell> = Vec::new();
            let mut col: usize = 0;
            while col < line.cells.len()
                invariant
                    col <= line.cells@.len(),
                    cells@ == line.cells@.take(col as int),
                decreases line.cells@.len() - col,
            {
                cells.push(line.cells[col]);
                assert(line.cells@.take(col + 1) =~= line.cells@.take(col as int).push(
                    line.cells@[col as int],
                ));
                col = col + 1;
            }
            assert(line.cells@.take(line.cells@.len() as int) =~= line.cells@);
            lines.push(cells);
            row = row + 1;
        }
        Frame { lines, cursor: self.terminal.cursor() }
    }

    /// Feeds `s` to the terminal and returns what it shows afterwards, if
    /// that is new: if a row has changed, or if the cursor is not where
    /// `previous` says it was shown last.
    pub fn feed_frame(&mut self, s: &str, previous: Option<(usize, usize)>) -> (frame: Option<
        Frame,
    >)
        requires
            old(self).wf(),
        ensures
            final(self).wf(),
            final(self).model() == old(self).model().feed_str(s@),
            frame is Some <==> old(self).model().changes(s@).contains(true)
                || final(self).model().cursor() != previous,
            frame is Some ==> final(self).model().shown_by(frame->0),
    {
        let changed = self.feed_str(s);
        proof {
            lemma_lists_some_iff_marked(changed@, old(self).model().changes(s@));
        }
        let cursor = self.cursor();
        let moved = match (cursor, previous) {
            (Some(now), Some(then)) => now.0 != then.0 || now.1 != then.1,
            (None, None) => false,
            _ => true,
        };
        if changed.len() > 0 || moved {
            Some(self.frame())
        } else {
            None
        }
    }

    pub fn view(&self) -> (r: &[Line])
        requires
            self.wf(),
        ensures
            r@.len() == self.model().terminal.rows,
            forall|i: int|
                0 <= i < r@.len() ==> (#[trigger] r@[i])@ == self.model().terminal.buffer.row(i),
            forall|i: int|
                0 <= i < r@.len() ==> (#[trigger] r@[i])@.width() == self.model().terminal.cols,
            !r@[r@.len() - 1]@.wrapped,
    {
        self.terminal.view()
    }
}

/// Feeding nothing changes nothing, and marks no row as changed.
pub proof fn lemma_feeding_nothing_is_a_no_op(v: VtModel)
    requires
        v.wf(),
    ensures
        v.feed_str(Seq::empty()) == v,
        v.changes(Seq::empty()) == crate::dirty_lines::clean(v.terminal.rows as nat),
{
    assert(v.fed_terminal(Seq::empty()) == v.terminal);
    assert(v.terminal.drained().dirty =~= v.terminal.dirty);
}

/// The characters of a hard reset: escape, then `c`.
pub open spec fn hard_reset_sequence() -> Seq<char> {
    seq!['\u{1b}', 'c']
}

/// Whatever state a virtual terminal is in, a hard reset makes it a new
/// virtual terminal of the same size.
pub proof fn lemma_hard_reset_starts_afresh(v: VtModel)
    requires
        v.wf(),
    ensures
        v.feed_str(hard_reset_sequence()) == VtModel::new(v.terminal.cols, v.terminal.rows),
{
    let start = Seq::<char>::empty();
    let escape = start.push('\u{1b}');
    assert(escape.push('c') =~= hard_reset_sequence());
    lemma_feed_str_push(v.parser, start, '\u{1b}');
    lemma_feed_str_push(v.parser, escape, 'c');
    lemma_escape_starts_over(v.parser);
    let escaped = v.parser.feed_str(escape);
    assert(escaped == v.parser.feed('\u{1b}'));
    assert(escaped.feed('c') =~= ParserState::initial());
    let reset = Event::EscDispatch('c', Seq::empty());
    assert(escaped.feed_events('c') =~= seq![reset]);
    let events = v.parser.feed_str_events(hard_reset_sequence());
    assert(events =~= seq![reset]);
    assert(events.drop_last() =~= Seq::<Event>::empty());
    assert(events.last() == reset);
    assert(v.terminal.apply_all(events.drop_last()) == v.terminal);
    assert(v.fed_terminal(hard_reset_sequence()) == v.terminal.esc_dispatch('c', Seq::empty()));
    assert(v.terminal.esc_dispatch('c', Seq::empty()) == v.terminal.hard_reset()) by {
        reveal(TerminalModel::esc_dispatch);
    }
    lemma_hard_reset_is_a_new_terminal(v.terminal);
}

/// After a hard reset, any input leaves a virtual terminal in the state in
/// which it leaves a new one of the same size.
pub proof fn lemma_input_after_hard_reset(v: VtModel, input: Seq<char>)
    requires
        v.wf(),
    ensures
        v.feed_str(hard_reset_sequence()).feed_str(input) == VtModel::new(
            v.terminal.cols,
            v.terminal.rows,
        ).feed_str(input),
{
    lemma_hard_reset_starts_afresh(v);
}

/// Switching to the alternate screen with mode 1049 and back again, from
/// whatever state, leaves the primary screen shown with its contents as they
/// were.
pub proof fn lemma_alternate_screen_round_trip(v: VtModel)
    requires
        v.wf(),
    ensures
        ({
            let back = v.feed_str(mode_1049_sequence('h') + mode_1049_sequence('l'));
            &&& back.terminal.active_buffer_type == BufferType::Primary
            &&& back.terminal.buffer == primary_buffer(v.terminal)
        }),
{
    let on = mode_1049_sequence('h');
    let off = mode_1049_sequence('l');
    let switch_on = Event::CsiDispatch('h', seq!['?'], seq![1049u16]);
    let switch_off = Event::CsiDispatch('l', seq!['?'], seq![1049u16]);
    lemma_feed_str_joined(v.parser, on, off);
    lemma_mode_1049_sequence(v.parser, 'h');
    lemma_mode_1049_sequence(v.parser.feed_str(on), 'l');
    lemma_apply_all_joined(v.terminal, seq![switch_on], seq![switch_off]);
    lemma_apply_all_one(v.terminal, switch_on);
    lemma_apply_all_one(v.terminal.apply(switch_on), switch_off);
    lemma_alternate_round_trip(v.terminal);
}

} // verus!
