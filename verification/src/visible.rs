use crate::buffer::EraseMode;
use crate::dirty_lines::all_dirty;
use crate::parser::{lemma_feed_str_joined, Event};
use crate::tabs::{stop_after, stop_before};
use crate::terminal_model::{lemma_apply_all_joined, param, BufferType, TerminalModel};
use crate::vt::{hard_reset_sequence, lemma_hard_reset_starts_afresh, VtModel};
use vstd::prelude::*;

verus! {

// The lemmas of this file say of one step of the terminal each that it goes
// by the screen alone, not by the rows that are marked as changed: from two
// terminals that differ only in these marks it leads to two terminals that
// differ only in them.

proof fn lemma_move_cursor_to_col(a: TerminalModel, b: TerminalModel, col: int)
    requires
        a.same_screen(b),
    ensures
        a.move_cursor_to_col(col).same_screen(b.move_cursor_to_col(col)),
{
    reveal(TerminalModel::move_cursor_to_col);
}

proof fn lemma_move_cursor_to_rel_col(a: TerminalModel, b: TerminalModel, rel_col: int)
    requires
        a.same_screen(b),
    ensures
        a.move_cursor_to_rel_col(rel_col).same_screen(b.move_cursor_to_rel_col(rel_col)),
{
    reveal(TerminalModel::move_cursor_to_rel_col);
}

proof fn lemma_move_cursor_to_row(a: TerminalModel, b: TerminalModel, row: int)
    requires
        a.same_screen(b),
    ensures
        a.move_cursor_to_row(row).same_screen(b.move_cursor_to_row(row)),
{
    reveal(TerminalModel::move_cursor_to_row);
}

proof fn lemma_move_cursor_home(a: TerminalModel, b: TerminalModel)
    requires
        a.same_screen(b),
    ensures
        a.move_cursor_home().same_screen(b.move_cursor_home()),
{
    reveal(TerminalModel::move_cursor_home);
}

proof fn lemma_cursor_down(a: TerminalModel, b: TerminalModel, n: int)
    requires
        a.same_screen(b),
    ensures
        a.cursor_down(n).same_screen(b.cursor_down(n)),
{
    reveal(TerminalModel::cursor_down);
}

proof fn lemma_cursor_up(a: TerminalModel, b: TerminalModel, n: int)
    requires
        a.same_screen(b),
    ensures
        a.cursor_up(n).same_screen(b.cursor_up(n)),
{
    reveal(TerminalModel::cursor_up);
}

proof fn lemma_scroll_up_in_region(a: TerminalModel, b: TerminalModel, n: int)
    requires
        a.same_screen(b),
    ensures
        a.scroll_up_in_region(n).same_screen(b.scroll_up_in_region(n)),
{
    reveal(TerminalModel::scroll_up_in_region);
}

proof fn lemma_scroll_down_in_region(a: TerminalModel, b: TerminalModel, n: int)
    requires
        a.same_screen(b),
    ensures
        a.scroll_down_in_region(n).same_screen(b.scroll_down_in_region(n)),
{
    reveal(TerminalModel::scroll_down_in_region);
}

proof fn lemma_set_tab(a: TerminalModel, b: TerminalModel)
    requires
        a.same_screen(b),
    ensures
        a.set_tab().same_screen(b.set_tab()),
{
    reveal(TerminalModel::set_tab);
}

proof fn lemma_clear_tab(a: TerminalModel, b: TerminalModel)
    requires
        a.same_screen(b),
    ensures
        a.clear_tab().same_screen(b.clear_tab()),
{
    reveal(TerminalModel::clear_tab);
}

proof fn lemma_clear_all_tabs(a: TerminalModel, b: TerminalModel)
    requires
        a.same_screen(b),
    ensures
        a.clear_all_tabs().same_screen(b.clear_all_tabs()),
{
    reveal(TerminalModel::clear_all_tabs);
}

proof fn lemma_save_cursor(a: TerminalModel, b: TerminalModel)
    requires
        a.same_screen(b),
    ensures
        a.save_cursor().same_screen(b.save_cursor()),
{
    reveal(TerminalModel::save_cursor);
}

proof fn lemma_restore_cursor(a: TerminalModel, b: TerminalModel)
    requires
        a.same_screen(b),
    ensures
        a.restore_cursor().same_screen(b.restore_cursor()),
{
    reveal(TerminalModel::restore_cursor);
}

proof fn lemma_soft_reset(a: TerminalModel, b: TerminalModel)
    requires
        a.same_screen(b),
    ensures
        a.soft_reset().same_screen(b.soft_reset()),
{
    reveal(TerminalModel::soft_reset);
}

proof fn lemma_hard_reset(a: TerminalModel, b: TerminalModel)
    requires
        a.same_screen(b),
    ensures
        a.hard_reset().same_screen(b.hard_reset()),
{
    reveal(TerminalModel::hard_reset);
}

proof fn lemma_erase(a: TerminalModel, b: TerminalModel, mode: EraseMode)
    requires
        a.same_screen(b),
    ensures
        a.erase(mode).same_screen(b.erase(mode)),
{
    reveal(TerminalModel::erase);
}

proof fn lemma_insert_blanks(a: TerminalModel, b: TerminalModel, n: int)
    requires
        a.same_screen(b),
    ensures
        a.insert_blanks(n).same_screen(b.insert_blanks(n)),
{
    reveal(TerminalModel::insert_blanks);
}

proof fn lemma_insert_lines(a: TerminalModel, b: TerminalModel, n: int)
    requires
        a.same_screen(b),
    ensures
        a.insert_lines(n).same_screen(b.insert_lines(n)),
{
    reveal(TerminalModel::insert_lines);
}

proof fn lemma_delete_lines(a: TerminalModel, b: TerminalModel, n: int)
    requires
        a.same_screen(b),
    ensures
        a.delete_lines(n).same_screen(b.delete_lines(n)),
{
    reveal(TerminalModel::delete_lines);
}

proof fn lemma_align(a: TerminalModel, b: TerminalModel)
    requires
        a.same_screen(b),
    ensures
        a.align().same_screen(b.align()),
{
    reveal(TerminalModel::align);
}

proof fn lemma_linefeed(a: TerminalModel, b: TerminalModel)
    requires
        a.same_screen(b),
    ensures
        a.linefeed().same_screen(b.linefeed()),
{
    lemma_scroll_up_in_region(a, b, 1);
    reveal(TerminalModel::linefeed);
}

proof fn lemma_reverse_index(a: TerminalModel, b: TerminalModel)
    requires
        a.same_screen(b),
    ensures
        a.reverse_index().same_screen(b.reverse_index()),
{
    lemma_scroll_down_in_region(a, b, 1);
    reveal(TerminalModel::reverse_index);
}

proof fn lemma_move_cursor_to_next_tab(a: TerminalModel, b: TerminalModel, n: int)
    requires
        a.same_screen(b),
    ensures
        a.move_cursor_to_next_tab(n).same_screen(b.move_cursor_to_next_tab(n)),
{
    lemma_move_cursor_to_col(
        a,
        b,
        match stop_after(a.tabs, a.cursor_col as usize, n as usize) {
            Some(tab) => tab as int,
            None => a.cols - 1,
        },
    );
    reveal(TerminalModel::move_cursor_to_next_tab);
}

proof fn lemma_move_cursor_to_prev_tab(a: TerminalModel, b: TerminalModel, n: int)
    requires
        a.same_screen(b),
    ensures
        a.move_cursor_to_prev_tab(n).same_screen(b.move_cursor_to_prev_tab(n)),
{
    lemma_move_cursor_to_col(
        a,
        b,
        match stop_before(a.tabs, a.cursor_col as usize, n as usize) {
            Some(tab) => tab as int,
            None => 0,
        },
    );
    reveal(TerminalModel::move_cursor_to_prev_tab);
}

proof fn lemma_switch_to_alternate_buffer(a: TerminalModel, b: TerminalModel, save_cursor: bool)
    requires
        a.same_screen(b),
    ensures
        a.switch_to_alternate_buffer(save_cursor).same_screen(b.switch_to_alternate_buffer(save_cursor)),
{
    lemma_save_cursor(a, b);
    reveal(TerminalModel::switch_to_alternate_buffer);
}

proof fn lemma_switch_to_primary_buffer(a: TerminalModel, b: TerminalModel, restore_cursor: bool)
    requires
        a.same_screen(b),
    ensures
        a.switch_to_primary_buffer(restore_cursor).same_screen(b.switch_to_primary_buffer(restore_cursor)),
{
    if a.active_buffer_type == BufferType::Alternate {
        lemma_restore_cursor(
            TerminalModel {
                active_buffer_type: BufferType::Primary,
                saved_ctx: a.alternate_saved_ctx,
                alternate_saved_ctx: a.saved_ctx,
                buffer: a.other_buffer,
                other_buffer: a.buffer,
                dirty: all_dirty(a.rows as nat),
                ..a
            },
            TerminalModel {
                active_buffer_type: BufferType::Primary,
                saved_ctx: b.alternate_saved_ctx,
                alternate_saved_ctx: b.saved_ctx,
                buffer: b.other_buffer,
                other_buffer: b.buffer,
                dirty: all_dirty(b.rows as nat),
                ..b
            },
        );
    } else {
        lemma_restore_cursor(a, b);
    }
    reveal(TerminalModel::switch_to_primary_buffer);
}

proof fn lemma_delete_chars(a: TerminalModel, b: TerminalModel, n: int)
    requires
        a.same_screen(b),
    ensures
        a.delete_chars(n).same_screen(b.delete_chars(n)),
{
    lemma_move_cursor_to_col(a, b, a.cols - 1);
    reveal(TerminalModel::delete_chars);
}

proof fn lemma_set_margins(a: TerminalModel, b: TerminalModel, params: Seq<u16>)
    requires
        a.same_screen(b),
    ensures
        a.set_margins(params).same_screen(b.set_margins(params)),
{
    let top = param(params, 0, 1) - 1;
    let bottom = param(params, 1, a.rows) - 1;
    if top < bottom && bottom < a.rows {
        lemma_move_cursor_home(
            TerminalModel { top_margin: top, bottom_margin: bottom, ..a },
            TerminalModel { top_margin: top, bottom_margin: bottom, ..b },
        );
    } else {
        lemma_move_cursor_home(a, b);
    }
    reveal(TerminalModel::set_margins);
}

proof fn lemma_wrap_line(a: TerminalModel, b: TerminalModel)
    requires
        a.same_screen(b),
    ensures
        a.wrap_line().same_screen(b.wrap_line()),
{
    let back = a.carriage_return();
    let other = b.carriage_return();
    lemma_scroll_up_in_region(
        TerminalModel { buffer: back.buffer.wrap(back.cursor_row), ..back },
        TerminalModel { buffer: other.buffer.wrap(other.cursor_row), ..other },
        1,
    );
    reveal(TerminalModel::wrap_line);
}

proof fn lemma_print(a: TerminalModel, b: TerminalModel, input: char)
    requires
        a.same_screen(b),
    ensures
        a.print(input).same_screen(b.print(input)),
{
    lemma_wrap_line(a, b);
    reveal(TerminalModel::print);
}

proof fn lemma_print_times(a: TerminalModel, b: TerminalModel, input: char, n: int)
    requires
        a.same_screen(b),
    ensures
        a.print_times(input, n).same_screen(b.print_times(input, n)),
    decreases n,
{
    if n > 0 {
        lemma_print_times(a, b, input, n - 1);
        lemma_print(a.print_times(input, n - 1), b.print_times(input, n - 1), input);
    }
}

proof fn lemma_repeat(a: TerminalModel, b: TerminalModel, n: int)
    requires
        a.same_screen(b),
    ensures
        a.repeat(n).same_screen(b.repeat(n)),
{
    if a.cursor_col > 0 {
        lemma_print_times(a, b, a.buffer.row(a.cursor_row).cells[a.cursor_col - 1].ch, n);
    }
    reveal(TerminalModel::repeat);
}

proof fn lemma_execute(a: TerminalModel, b: TerminalModel, input: char)
    requires
        a.same_screen(b),
    ensures
        a.execute(input).same_screen(b.execute(input)),
{
    if input == '\u{08}' {
        lemma_move_cursor_to_rel_col(a, b, -1);
        lemma_move_cursor_to_rel_col(a, b, -2);
    } else if input == '\u{09}' {
        lemma_move_cursor_to_next_tab(a, b, 1);
    } else if input == '\u{88}' {
        lemma_set_tab(a, b);
    } else if input == '\u{8d}' {
        lemma_reverse_index(a, b);
    } else {
        lemma_linefeed(a, b);
    }
    reveal(TerminalModel::execute);
}

proof fn lemma_switch_mode(a: TerminalModel, b: TerminalModel, private: bool, on: bool, mode: u16)
    requires
        a.same_screen(b),
    ensures
        a.switch_mode(private, on, mode).same_screen(b.switch_mode(private, on, mode)),
{
    if mode == 6 {
        lemma_move_cursor_home(a.with_origin_mode(on), b.with_origin_mode(on));
    } else if mode == 47 || mode == 1047 {
        lemma_switch_to_alternate_buffer(a, b, false);
        lemma_switch_to_primary_buffer(a, b, false);
    } else if mode == 1048 {
        lemma_save_cursor(a, b);
        lemma_restore_cursor(a, b);
    } else if mode == 1049 {
        lemma_switch_to_alternate_buffer(a, b, true);
        lemma_switch_to_primary_buffer(a, b, true);
    }
    reveal(TerminalModel::switch_mode);
}

proof fn lemma_switch_modes(
    a: TerminalModel,
    b: TerminalModel,
    private: bool,
    on: bool,
    modes: Seq<u16>,
)
    requires
        a.same_screen(b),
    ensures
        a.switch_modes(private, on, modes).same_screen(b.switch_modes(private, on, modes)),
    decreases modes.len(),
{
    if modes.len() > 0 {
        lemma_switch_modes(a, b, private, on, modes.drop_last());
        lemma_switch_mode(
            a.switch_modes(private, on, modes.drop_last()),
            b.switch_modes(private, on, modes.drop_last()),
            private,
            on,
            modes.last(),
        );
    }
}

proof fn lemma_csi_plain(a: TerminalModel, b: TerminalModel, input: char, params: Seq<u16>)
    requires
        a.same_screen(b),
    ensures
        a.csi_plain(input, params).same_screen(b.csi_plain(input, params)),
{
    let n = param(params, 0, 1);
    let kind = param(params, 0, 0);
    if input == '@' {
        lemma_insert_blanks(a, b, n);
    } else if input == 'A' {
        lemma_cursor_up(a, b, n);
    } else if input == 'B' || input == 'e' {
        lemma_cursor_down(a, b, n);
    } else if input == 'b' {
        lemma_repeat(a, b, n);
    } else if input == 'C' || input == 'a' {
        lemma_move_cursor_to_rel_col(a, b, n);
    } else if input == 'D' {
        lemma_move_cursor_to_rel_col(a, b, -n);
        lemma_move_cursor_to_rel_col(a, b, -n - 1);
    } else if input == 'd' {
        lemma_move_cursor_to_row(a, b, n - 1);
    } else if input == 'E' {
        lemma_cursor_down(a, b, n);
    } else if input == 'F' {
        lemma_cursor_up(a, b, n);
    } else if input == 'G' || input == '`' {
        lemma_move_cursor_to_col(a, b, n - 1);
    } else if input == 'g' || input == 'W' {
        lemma_set_tab(a, b);
        lemma_clear_tab(a, b);
        lemma_clear_all_tabs(a, b);
    } else if input == 'H' || input == 'f' {
        let col = param(params, 1, 1) - 1;
        lemma_move_cursor_to_col(a, b, col);
        lemma_move_cursor_to_row(a.move_cursor_to_col(col), b.move_cursor_to_col(col), n - 1);
    } else if input == 'h' {
        lemma_switch_modes(a, b, false, true, params);
    } else if input == 'l' {
        lemma_switch_modes(a, b, false, false, params);
    } else if input == 'I' {
        lemma_move_cursor_to_next_tab(a, b, n);
    } else if input == 'J' {
        lemma_erase(a, b, EraseMode::FromCursorToEndOfView);
        lemma_erase(a, b, EraseMode::FromStartOfViewToCursor);
        lemma_erase(a, b, EraseMode::WholeView);
    } else if input == 'K' {
        lemma_erase(a, b, EraseMode::FromCursorToEndOfLine);
        lemma_erase(a, b, EraseMode::FromStartOfLineToCursor);
        lemma_erase(a, b, EraseMode::WholeLine);
    } else if input == 'L' {
        lemma_insert_lines(a, b, n);
    } else if input == 'M' {
        lemma_delete_lines(a, b, n);
    } else if input == 'P' {
        lemma_delete_chars(a, b, n);
    } else if input == 'r' {
        lemma_set_margins(a, b, params);
    } else if input == 'S' {
        lemma_scroll_up_in_region(a, b, n);
    } else if input == 's' {
        lemma_save_cursor(a, b);
    } else if input == 'T' {
        lemma_scroll_down_in_region(a, b, n);
    } else if input == 'u' {
        lemma_restore_cursor(a, b);
    } else if input == 'X' {
        lemma_erase(a, b, EraseMode::NextChars(n as usize));
    } else if input == 'Z' {
        lemma_move_cursor_to_prev_tab(a, b, n);
    }
    reveal(TerminalModel::csi_plain);
}

proof fn lemma_csi_dispatch(
    a: TerminalModel,
    b: TerminalModel,
    input: char,
    interims: Seq<char>,
    params: Seq<u16>,
)
    requires
        a.same_screen(b),
    ensures
        a.csi_dispatch(input, interims, params).same_screen(b.csi_dispatch(input, interims, params)),
{
    lemma_csi_plain(a, b, input, params);
    lemma_switch_modes(a, b, true, true, params);
    lemma_switch_modes(a, b, true, false, params);
    lemma_soft_reset(a, b);
    reveal(TerminalModel::csi_dispatch);
}

proof fn lemma_esc_dispatch(a: TerminalModel, b: TerminalModel, input: char, interims: Seq<char>)
    requires
        a.same_screen(b),
    ensures
        a.esc_dispatch(input, interims).same_screen(b.esc_dispatch(input, interims)),
{
    if interims.len() == 0 {
        if '@' <= input <= '_' {
            lemma_execute(a, b, (input as u32 + 0x40) as char);
        } else if input == '7' {
            lemma_save_cursor(a, b);
        } else if input == '8' {
            lemma_restore_cursor(a, b);
        } else if input == 'c' {
            lemma_hard_reset(a, b);
        }
    } else {
        lemma_align(a, b);
    }
    reveal(TerminalModel::esc_dispatch);
}

/// What a run of events does to a terminal goes by its screen alone, not by
/// the rows that are marked as changed: two terminals that differ only in
/// these marks differ only in them afterwards.
pub proof fn lemma_events_go_by_the_screen(a: TerminalModel, b: TerminalModel, events: Seq<Event>)
    requires
        a.same_screen(b),
    ensures
        a.apply_all(events).same_screen(b.apply_all(events)),
    decreases events.len(),
{
    if events.len() > 0 {
        lemma_events_go_by_the_screen(a, b, events.drop_last());
        let before = a.apply_all(events.drop_last());
        let other = b.apply_all(events.drop_last());
        match events.last() {
            Event::Print(input) => {
                lemma_print(before, other, input);
            },
            Event::Execute(input) => {
                lemma_execute(before, other, input);
            },
            Event::CsiDispatch(input, interims, params) => {
                lemma_csi_dispatch(before, other, input, interims, params);
            },
            Event::EscDispatch(input, interims) => {
                lemma_esc_dispatch(before, other, input, interims);
            },
        }
    }
}

/// A hard reset followed by more input, fed in one go from whatever state,
/// leaves a virtual terminal in the state in which that input alone leaves
/// a new one of the same size.
pub proof fn lemma_hard_reset_then_input(v: VtModel, input: Seq<char>)
    requires
        v.wf(),
    ensures
        v.feed_str(hard_reset_sequence() + input) == VtModel::new(
            v.terminal.cols,
            v.terminal.rows,
        ).feed_str(input),
{
    let reset = hard_reset_sequence();
    let fresh = VtModel::new(v.terminal.cols, v.terminal.rows);
    lemma_hard_reset_starts_afresh(v);
    lemma_feed_str_joined(v.parser, reset, input);
    let events = fresh.parser.feed_str_events(input);
    lemma_apply_all_joined(v.terminal, v.parser.feed_str_events(reset), events);
    let after_reset = v.fed_terminal(reset);
    assert(after_reset.drained() == fresh.terminal);
    assert(after_reset.dirty.len() == fresh.terminal.dirty.len());
    assert(after_reset.same_screen(fresh.terminal));
    lemma_events_go_by_the_screen(after_reset, fresh.terminal, events);
}

} // verus!
