use crate::buffer::{
    lemma_blank_is_wf, lemma_erase_keeps_wf, lemma_fill_keeps_wf, lemma_resize_keeps_wf,
    lemma_row_steps_keep_wf, lemma_scroll_keeps_wf, EraseMode,
};
use crate::cell::Cell;
use crate::parser::{Event, ParserState};
use crate::pen::Pen;
use crate::tabs::{
    lemma_split_exists, lemma_with_stop, lemma_without_stop, stop_after, stop_before, with_stop,
    without_stop,
};
use crate::terminal_model::{param, BufferType, TerminalModel};
use crate::vt::VtModel;
use vstd::prelude::*;

verus! {

// The lemmas of this file say of one step of the terminal each that it
// keeps what holds of a terminal between events.

/// A new terminal is as a terminal is between events.
pub proof fn lemma_new_is_wf(cols: int, rows: int)
    requires
        1 <= cols <= usize::MAX,
        1 <= rows <= usize::MAX,
    ensures
        TerminalModel::new(cols, rows).wf(),
{
    let t = TerminalModel::new(cols, rows);
    lemma_blank_is_wf(cols as nat, rows as nat, Pen::default_pen());
    assert forall|i: int| 0 <= i < t.tabs.len() implies (#[trigger] t.tabs[i]) < cols by {
        assert(8 * (i + 1) <= 8 * ((cols - 1) / 8) <= cols - 1);
    }
}

proof fn lemma_move_cursor_to_col(t: TerminalModel, col: int)
    requires
        t.wf(),
        col >= 0,
    ensures
        t.move_cursor_to_col(col).wf(),
{
    reveal(TerminalModel::move_cursor_to_col);
}

proof fn lemma_move_cursor_to_rel_col(t: TerminalModel, rel_col: int)
    requires
        t.wf(),
    ensures
        t.move_cursor_to_rel_col(rel_col).wf(),
{
    reveal(TerminalModel::move_cursor_to_rel_col);
}

proof fn lemma_move_cursor_to_row(t: TerminalModel, row: int)
    requires
        t.wf(),
        row >= 0,
    ensures
        t.move_cursor_to_row(row).wf(),
{
    reveal(TerminalModel::move_cursor_to_row);
}

proof fn lemma_move_cursor_home(t: TerminalModel)
    requires
        t.wf(),
    ensures
        t.move_cursor_home().wf(),
{
    reveal(TerminalModel::move_cursor_home);
}

proof fn lemma_cursor_down(t: TerminalModel, n: int)
    requires
        t.wf(),
        n >= 0,
    ensures
        t.cursor_down(n).wf(),
{
    reveal(TerminalModel::cursor_down);
}

proof fn lemma_cursor_up(t: TerminalModel, n: int)
    requires
        t.wf(),
        n >= 0,
    ensures
        t.cursor_up(n).wf(),
{
    reveal(TerminalModel::cursor_up);
}

proof fn lemma_scroll_up_in_region(t: TerminalModel, n: int)
    requires
        t.wf_open(),
        n >= 0,
    ensures
        t.scroll_up_in_region(n).wf_open(),
        t.wf() || t.bottom_margin == t.rows - 1 ==> t.scroll_up_in_region(n).wf(),
{
    reveal(TerminalModel::scroll_up_in_region);
    lemma_scroll_keeps_wf(t.buffer, t.top_margin, t.bottom_margin + 1, n, t.pen);
}

proof fn lemma_scroll_down_in_region(t: TerminalModel, n: int)
    requires
        t.wf(),
        n >= 0,
    ensures
        t.scroll_down_in_region(n).wf(),
{
    reveal(TerminalModel::scroll_down_in_region);
    lemma_scroll_keeps_wf(t.buffer, t.top_margin, t.bottom_margin + 1, n, t.pen);
}

proof fn lemma_set_tab(t: TerminalModel)
    requires
        t.wf(),
    ensures
        t.set_tab().wf(),
{
    reveal(TerminalModel::set_tab);
    if 0 < t.cursor_col < t.cols {
        let pos = t.cursor_col as usize;
        let stops = with_stop(t.tabs, pos);
        lemma_with_stop(t.tabs, pos);
        assert forall|i: int| 0 <= i < stops.len() implies (#[trigger] stops[i]) < t.cols by {
            assert(stops.contains(stops[i]));
            if t.tabs.contains(stops[i]) {
                let k = choose|k: int| 0 <= k < t.tabs.len() && t.tabs[k] == stops[i];
                assert(t.tabs[k] < t.cols);
            }
        }
    }
}

proof fn lemma_clear_tab(t: TerminalModel)
    requires
        t.wf(),
    ensures
        t.clear_tab().wf(),
{
    reveal(TerminalModel::clear_tab);
    let pos = t.cursor_col as usize;
    let stops = without_stop(t.tabs, pos);
    lemma_without_stop(t.tabs, pos);
    assert forall|i: int| 0 <= i < stops.len() implies (#[trigger] stops[i]) < t.cols by {
        let stop = stops[i];
        assert(stops.contains(stop));
        assert(t.tabs.contains(stop));
        let k = choose|k: int| 0 <= k < t.tabs.len() && t.tabs[k] == stop;
        assert(t.tabs[k] < t.cols);
    }
}

proof fn lemma_clear_all_tabs(t: TerminalModel)
    requires
        t.wf(),
    ensures
        t.clear_all_tabs().wf(),
{
    reveal(TerminalModel::clear_all_tabs);
}

proof fn lemma_save_cursor(t: TerminalModel)
    requires
        t.wf(),
    ensures
        t.save_cursor().wf(),
{
    reveal(TerminalModel::save_cursor);
}

proof fn lemma_restore_cursor(t: TerminalModel)
    requires
        t.wf(),
    ensures
        t.restore_cursor().wf(),
{
    reveal(TerminalModel::restore_cursor);
}

proof fn lemma_soft_reset(t: TerminalModel)
    requires
        t.wf(),
    ensures
        t.soft_reset().wf(),
{
    reveal(TerminalModel::soft_reset);
}

proof fn lemma_hard_reset(t: TerminalModel)
    requires
        t.wf(),
    ensures
        t.hard_reset().wf(),
{
    reveal(TerminalModel::hard_reset);
    lemma_new_is_wf(t.cols, t.rows);
}

proof fn lemma_erase(t: TerminalModel, mode: EraseMode)
    requires
        t.wf(),
    ensures
        t.erase(mode).wf(),
{
    reveal(TerminalModel::erase);
    lemma_erase_keeps_wf(t.buffer, t.cursor_col, t.cursor_row, mode, t.pen);
}

proof fn lemma_insert_blanks(t: TerminalModel, n: int)
    requires
        t.wf(),
        n >= 0,
    ensures
        t.insert_blanks(n).wf(),
{
    reveal(TerminalModel::insert_blanks);
    lemma_row_steps_keep_wf(t.buffer, t.cursor_col, t.cursor_row, n, Cell::blank_of(t.pen), t.pen);
}

proof fn lemma_insert_lines(t: TerminalModel, n: int)
    requires
        t.wf(),
        n >= 0,
    ensures
        t.insert_lines(n).wf(),
{
    reveal(TerminalModel::insert_lines);
    lemma_scroll_keeps_wf(t.buffer, t.lines_below().0, t.lines_below().1, n, t.pen);
}

proof fn lemma_delete_lines(t: TerminalModel, n: int)
    requires
        t.wf(),
        n >= 0,
    ensures
        t.delete_lines(n).wf(),
{
    reveal(TerminalModel::delete_lines);
    lemma_scroll_keeps_wf(t.buffer, t.lines_below().0, t.lines_below().1, n, t.pen);
}

proof fn lemma_align(t: TerminalModel)
    requires
        t.wf(),
    ensures
        t.align().wf(),
{
    reveal(TerminalModel::align);
    lemma_fill_keeps_wf(t.buffer, Cell { ch: 'E', pen: Pen::default_pen() });
}

proof fn lemma_put(t: TerminalModel, cell: Cell)
    requires
        t.wf(),
    ensures
        t.put(cell).wf(),
{
    if t.cursor_col + 1 >= t.cols {
        lemma_row_steps_keep_wf(t.buffer, t.cols - 1, t.cursor_row, 1, cell, t.pen);
    } else {
        lemma_row_steps_keep_wf(t.buffer, t.cursor_col, t.cursor_row, 1, cell, t.pen);
    }
}

proof fn lemma_linefeed(t: TerminalModel)
    requires
        t.wf(),
    ensures
        t.linefeed().wf(),
{
    reveal(TerminalModel::linefeed);
    lemma_scroll_up_in_region(t, 1);
}

proof fn lemma_reverse_index(t: TerminalModel)
    requires
        t.wf(),
    ensures
        t.reverse_index().wf(),
{
    reveal(TerminalModel::reverse_index);
    lemma_scroll_down_in_region(t, 1);
}

proof fn lemma_move_cursor_to_next_tab(t: TerminalModel, n: int)
    requires
        t.wf(),
    ensures
        t.move_cursor_to_next_tab(n).wf(),
{
    reveal(TerminalModel::move_cursor_to_next_tab);
    lemma_move_cursor_to_col(
        t,
        match stop_after(t.tabs, t.cursor_col as usize, n as usize) {
            Some(tab) => tab as int,
            None => t.cols - 1,
        },
    );
}

proof fn lemma_move_cursor_to_prev_tab(t: TerminalModel, n: int)
    requires
        t.wf(),
    ensures
        t.move_cursor_to_prev_tab(n).wf(),
{
    reveal(TerminalModel::move_cursor_to_prev_tab);
    lemma_move_cursor_to_col(
        t,
        match stop_before(t.tabs, t.cursor_col as usize, n as usize) {
            Some(tab) => tab as int,
            None => 0,
        },
    );
}

proof fn lemma_switch_to_alternate_buffer(t: TerminalModel, save_cursor: bool)
    requires
        t.wf(),
    ensures
        t.switch_to_alternate_buffer(save_cursor).wf(),
{
    reveal(TerminalModel::switch_to_alternate_buffer);
    lemma_save_cursor(t);
    lemma_blank_is_wf(t.cols as nat, t.rows as nat, t.pen);
}

proof fn lemma_switch_to_primary_buffer(t: TerminalModel, restore_cursor: bool)
    requires
        t.wf(),
    ensures
        t.switch_to_primary_buffer(restore_cursor).wf(),
{
    reveal(TerminalModel::switch_to_primary_buffer);
    if t.active_buffer_type == BufferType::Alternate {
        lemma_restore_cursor(
            TerminalModel {
                active_buffer_type: BufferType::Primary,
                saved_ctx: t.alternate_saved_ctx,
                alternate_saved_ctx: t.saved_ctx,
                buffer: t.other_buffer,
                other_buffer: t.buffer,
                dirty: crate::dirty_lines::all_dirty(t.rows as nat),
                ..t
            },
        );
    } else {
        lemma_restore_cursor(t);
    }
}

proof fn lemma_delete_chars(t: TerminalModel, n: int)
    requires
        t.wf(),
        n >= 0,
    ensures
        t.delete_chars(n).wf(),
{
    reveal(TerminalModel::delete_chars);
    lemma_move_cursor_to_col(t, t.cols - 1);
    let at = if t.cursor_col >= t.cols {
        t.move_cursor_to_col(t.cols - 1)
    } else {
        t
    };
    reveal(TerminalModel::move_cursor_to_col);
    lemma_row_steps_keep_wf(at.buffer, at.cursor_col, at.cursor_row, n, Cell::blank_of(at.pen), at.pen);
}

proof fn lemma_set_margins(t: TerminalModel, params: Seq<u16>)
    requires
        t.wf(),
    ensures
        t.set_margins(params).wf(),
{
    reveal(TerminalModel::set_margins);
    let top = param(params, 0, 1) - 1;
    let bottom = param(params, 1, t.rows) - 1;
    if top < bottom && bottom < t.rows {
        lemma_move_cursor_home(TerminalModel { top_margin: top, bottom_margin: bottom, ..t });
    } else {
        lemma_move_cursor_home(t);
    }
}

proof fn lemma_wrap_line(t: TerminalModel)
    requires
        t.wf(),
    ensures
        t.wrap_line().wf(),
{
    reveal(TerminalModel::wrap_line);
    let back = t.carriage_return();
    lemma_row_steps_keep_wf(back.buffer, 0, back.cursor_row, 0, Cell::blank_of(back.pen), back.pen);
    let wrapped = TerminalModel { buffer: back.buffer.wrap(back.cursor_row), ..back };
    if back.cursor_row == back.bottom_margin {
        lemma_scroll_up_in_region(wrapped, 1);
    }
}

proof fn lemma_print(t: TerminalModel, input: char)
    requires
        t.wf(),
    ensures
        t.print(input).wf(),
{
    reveal(TerminalModel::print);
    let cell = Cell { ch: t.charset().translated(input), pen: t.pen };
    lemma_wrap_line(t);
    lemma_put(t, cell);
    lemma_put(t.wrap_line(), cell);
}

proof fn lemma_print_times(t: TerminalModel, input: char, n: int)
    requires
        t.wf(),
    ensures
        t.print_times(input, n).wf(),
    decreases n,
{
    if n > 0 {
        lemma_print_times(t, input, n - 1);
        lemma_print(t.print_times(input, n - 1), input);
    }
}

proof fn lemma_repeat(t: TerminalModel, n: int)
    requires
        t.wf(),
    ensures
        t.repeat(n).wf(),
{
    reveal(TerminalModel::repeat);
    if t.cursor_col > 0 {
        lemma_print_times(t, t.buffer.row(t.cursor_row).cells[t.cursor_col - 1].ch, n);
    }
}

proof fn lemma_execute(t: TerminalModel, input: char)
    requires
        t.wf(),
    ensures
        t.execute(input).wf(),
{
    reveal(TerminalModel::execute);
    if input == '\u{08}' {
        lemma_move_cursor_to_rel_col(t, -1);
        lemma_move_cursor_to_rel_col(t, -2);
    } else if input == '\u{09}' {
        lemma_move_cursor_to_next_tab(t, 1);
    } else if input == '\u{88}' {
        lemma_set_tab(t);
    } else if input == '\u{8d}' {
        lemma_reverse_index(t);
    } else {
        lemma_linefeed(t);
    }
}

proof fn lemma_switch_mode(t: TerminalModel, private: bool, on: bool, mode: u16)
    requires
        t.wf(),
    ensures
        t.switch_mode(private, on, mode).wf(),
{
    reveal(TerminalModel::switch_mode);
    if mode == 6 {
        lemma_move_cursor_home(t.with_origin_mode(on));
    } else if mode == 47 || mode == 1047 {
        lemma_switch_to_alternate_buffer(t, false);
        lemma_switch_to_primary_buffer(t, false);
    } else if mode == 1048 {
        lemma_save_cursor(t);
        lemma_restore_cursor(t);
    } else if mode == 1049 {
        lemma_switch_to_alternate_buffer(t, true);
        lemma_switch_to_primary_buffer(t, true);
    }
}

proof fn lemma_switch_modes(t: TerminalModel, private: bool, on: bool, modes: Seq<u16>)
    requires
        t.wf(),
    ensures
        t.switch_modes(private, on, modes).wf(),
    decreases modes.len(),
{
    if modes.len() > 0 {
        lemma_switch_modes(t, private, on, modes.drop_last());
        lemma_switch_mode(t.switch_modes(private, on, modes.drop_last()), private, on, modes.last());
    }
}

proof fn lemma_csi_plain(t: TerminalModel, input: char, params: Seq<u16>)
    requires
        t.wf(),
    ensures
        t.csi_plain(input, params).wf(),
{
    reveal(TerminalModel::csi_plain);
    let n = param(params, 0, 1);
    if input == '@' {
        lemma_insert_blanks(t, n);
    } else if input == 'A' {
        lemma_cursor_up(t, n);
    } else if input == 'B' || input == 'e' {
        lemma_cursor_down(t, n);
    } else if input == 'b' {
        lemma_repeat(t, n);
    } else if input == 'C' || input == 'a' {
        lemma_move_cursor_to_rel_col(t, n);
    } else if input == 'D' {
        lemma_move_cursor_to_rel_col(t, -n);
        lemma_move_cursor_to_rel_col(t, -n - 1);
    } else if input == 'd' {
        lemma_move_cursor_to_row(t, n - 1);
    } else if input == 'E' {
        lemma_cursor_down(t, n);
    } else if input == 'F' {
        lemma_cursor_up(t, n);
    } else if input == 'G' || input == '`' {
        lemma_move_cursor_to_col(t, n - 1);
    } else if input == 'g' || input == 'W' {
        lemma_set_tab(t);
        lemma_clear_tab(t);
        lemma_clear_all_tabs(t);
    } else if input == 'H' || input == 'f' {
        let col = param(params, 1, 1) - 1;
        lemma_move_cursor_to_col(t, col);
        lemma_move_cursor_to_row(t.move_cursor_to_col(col), n - 1);
    } else if input == 'h' {
        lemma_switch_modes(t, false, true, params);
    } else if input == 'l' {
        lemma_switch_modes(t, false, false, params);
    } else if input == 'I' {
        lemma_move_cursor_to_next_tab(t, n);
    } else if input == 'J' {
        lemma_erase(t, EraseMode::FromCursorToEndOfView);
        lemma_erase(t, EraseMode::FromStartOfViewToCursor);
        lemma_erase(t, EraseMode::WholeView);
    } else if input == 'K' {
        lemma_erase(t, EraseMode::FromCursorToEndOfLine);
        lemma_erase(t, EraseMode::FromStartOfLineToCursor);
        lemma_erase(t, EraseMode::WholeLine);
    } else if input == 'L' {
        lemma_insert_lines(t, n);
    } else if input == 'M' {
        lemma_delete_lines(t, n);
    } else if input == 'P' {
        lemma_delete_chars(t, n);
    } else if input == 'r' {
        lemma_set_margins(t, params);
    } else if input == 'S' {
        lemma_scroll_up_in_region(t, n);
    } else if input == 's' {
        lemma_save_cursor(t);
    } else if input == 'T' {
        lemma_scroll_down_in_region(t, n);
    } else if input == 'u' {
        lemma_restore_cursor(t);
    } else if input == 'X' {
        lemma_erase(t, EraseMode::NextChars(n as usize));
    } else if input == 'Z' {
        lemma_move_cursor_to_prev_tab(t, n);
    }
}

proof fn lemma_csi_dispatch(t: TerminalModel, input: char, interims: Seq<char>, params: Seq<u16>)
    requires
        t.wf(),
    ensures
        t.csi_dispatch(input, interims, params).wf(),
{
    reveal(TerminalModel::csi_dispatch);
    lemma_csi_plain(t, input, params);
    lemma_switch_modes(t, true, true, params);
    lemma_switch_modes(t, true, false, params);
    lemma_soft_reset(t);
}

proof fn lemma_esc_dispatch(t: TerminalModel, input: char, interims: Seq<char>)
    requires
        t.wf(),
    ensures
        t.esc_dispatch(input, interims).wf(),
{
    reveal(TerminalModel::esc_dispatch);
    if interims.len() == 0 {
        if '@' <= input <= '_' {
            lemma_execute(t, (input as u32 + 0x40) as char);
        } else if input == '7' {
            lemma_save_cursor(t);
        } else if input == '8' {
            lemma_restore_cursor(t);
        } else if input == 'c' {
            lemma_hard_reset(t);
        }
    } else {
        lemma_align(t);
    }
}

/// A resize to a screen of at least one column and one row leaves a
/// terminal as a terminal is between events.
pub proof fn lemma_resize_keeps_wf_of_terminal(t: TerminalModel, cols: int, rows: int)
    requires
        t.wf(),
        1 <= cols <= usize::MAX,
        1 <= rows <= usize::MAX,
    ensures
        t.resize(cols, rows).wf(),
{
    reveal(TerminalModel::resize);
    lemma_resize_keeps_wf(t.buffer, cols as nat, rows as nat, (t.cursor_col, t.cursor_row));
    lemma_resize_keeps_wf(
        t.other_buffer,
        cols as nat,
        rows as nat,
        (t.alternate_saved_ctx.cursor_col, t.alternate_saved_ctx.cursor_row),
    );
    let k = lemma_split_exists(t.tabs, cols);
}

/// Every event of the parser leaves a terminal as a terminal is between
/// events: with lines as wide as the screen, the cursor on the screen, the
/// margins in order, the tab stops increasing columns of the screen, and a
/// last row that does not run on.
pub proof fn lemma_event_keeps_wf(t: TerminalModel, event: Event)
    requires
        t.wf(),
    ensures
        t.apply(event).wf(),
{
    match event {
        Event::Print(input) => {
            lemma_print(t, input);
        },
        Event::Execute(input) => {
            lemma_execute(t, input);
        },
        Event::CsiDispatch(input, interims, params) => {
            lemma_csi_dispatch(t, input, interims, params);
        },
        Event::EscDispatch(input, interims) => {
            lemma_esc_dispatch(t, input, interims);
        },
    }
}

/// Every run of events leaves a terminal as a terminal is between events.
pub proof fn lemma_events_keep_wf(t: TerminalModel, events: Seq<Event>)
    requires
        t.wf(),
    ensures
        t.apply_all(events).wf(),
    decreases events.len(),
{
    if events.len() > 0 {
        lemma_events_keep_wf(t, events.drop_last());
        lemma_event_keeps_wf(t.apply_all(events.drop_last()), events.last());
    }
}

/// Every action leaves the parser with a parameter to add digits to.
pub proof fn lemma_parser_keeps_wf(parser: ParserState, input: Seq<char>)
    requires
        parser.wf(),
    ensures
        parser.feed_str(input).wf(),
    decreases input.len(),
{
    if input.len() > 0 {
        lemma_parser_keeps_wf(parser, input.drop_last());
    }
}

/// Whatever is fed to a virtual terminal, afterwards every line on the
/// screen is as wide as the screen, the cursor is on the screen, the margins
/// are in order, the tab stops are increasing columns of the screen, the
/// last row does not run on, and no row is marked as changed.
pub proof fn lemma_feed_keeps_wf(v: VtModel, input: Seq<char>)
    requires
        v.wf(),
    ensures
        v.feed_str(input).wf(),
{
    lemma_parser_keeps_wf(v.parser, input);
    lemma_events_keep_wf(v.terminal, v.parser.feed_str_events(input));
}

/// A resize to a screen of at least one column and one row leaves a
/// virtual terminal as it is between feeds.
pub proof fn lemma_resize_keeps_wf_of_vt(v: VtModel, cols: int, rows: int)
    requires
        v.wf(),
        1 <= cols <= usize::MAX,
        1 <= rows <= usize::MAX,
    ensures
        v.resize(cols, rows).wf(),
{
    lemma_resize_keeps_wf_of_terminal(v.terminal, cols, rows);
}

} // verus!
