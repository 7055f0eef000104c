//! What holds of what is shown: lists, views, the status bar, colors, printed trees and the screen.
use crate::app::draw::{
    cursor_cell, cursor_inline, cursor_on_prompt, overlay_shown, overlay_top, prompt_rows, rows_for,
    Cursor, CursorFacts,
};
use crate::app::mode::{ConfirmModel, ModeModel};
use crate::app::mouse::{
    cell_of, hover_of, mouse_action, tree_click, view_click, ClickAction, HoverTarget, Mouse,
    MouseAction, MouseHitResult, MouseKind, Places, PromptPlace, TerminalPlace,
};
use crate::app::state::AppModel;
use crate::clipboard::{
    base64_text, best_backend, copy_plan, on_new_line, plain, plain_step, ClipboardBackend,
    ClipboardHost, CopyModel, MarkdownModel,
};
use crate::clock::{clock_format, full_format, short_format, time_text};
use crate::cmd_parse::{
    beginning, body_of, deeper, flags_of, header_of, ink_of, node_lines, nodes_lines, op_text,
    quoted_text, short_name, text_lines, Ink, LineModel, PieceModel,
};
use crate::color::{
    answer_body, answer_color, channel, colorfgbg_color, dark_background, hex_digits, hex_number,
    hex_value, osc_color, response_over, RgbColor,
};
use crate::data_view::handler::{view_action, DataViewAction};
use crate::data_view::key_shortcuts::{
    category_node, chat_session, drill_down, in_chat, info_and_debug, navigation, shortcut_nodes,
    table_mode,
};
use crate::data_view::reader_logs::{entry_node, level_mark, log_nodes};
use crate::data_view::session_info::{
    double_step, half_even, in_double, info_nodes, readable_path, row_if, row_node, size_text,
    tenths_text, Place,
};
use crate::data_view::state::{
    key_prefix, kind_of, node_at, node_id, part_path, toggle_at, tree_of, value_node, DisplayToggle,
};
use crate::geometry::{greater, lesser, share, Rect};
use crate::index::refresh::{
    at_places, batched, plan_for, present, priority_keys, ready_end, PlanModel,
};
use crate::index::row::{key_of, known_entries, lookup_text, row_entry, row_of, RowModel, ScannedModel};
use crate::json::{compact, json_parsed, JsonModel};
use crate::key::{Key, KeyCode};
use crate::log_buffer::{event_text, kept, with_entry, BufferModel, LogLevel, LogModel};
use crate::number::small_number;
use crate::order::{is_order, stands_before};
use crate::picker::state::{shown_time, Tab};
use crate::picker::ui::{caret_of, cut, directory_of, empty_note};
use crate::providers::{EntryModel, ProviderKind, ProviderNames, TranscriptCacheKey};
use crate::status_bar::{
    bar_content, debug_text, hint_spans, numbers_text, pair_spans, pending_keys, question,
    right_spans, space_label, spans_width, told_keys, truth_text, BarModel, HintInk, StatusBar,
};
use crate::text::{
    capitalized, decimal, joined, last_at, lines_of, next_char, padded, path_name, replaced,
    skip_char, split_at_char, starts, text_lower, trimmed,
};
use crate::text_laws::{law_last_place, law_prefixes, law_split_of_both};
use crate::tree::{blank, text_opt, MessageModel, MessageType, OpModel};
use vstd::prelude::*;

verus! {

// ---------------------------------------------------------------------------
// The clipboard
// ---------------------------------------------------------------------------

/// The clipboard is that of the system where it has one of its own, else that of the window system
/// whose tool is there, else the terminal's.
pub proof fn law_backends(host: ClipboardHost)
    ensures
        host.is_macos <==> best_backend(host) is Pbcopy,
        !host.is_macos && host.has_wayland && host.has_wl_copy <==> best_backend(host) is WlCopy,
        !host.is_macos && !(host.has_wayland && host.has_wl_copy) && host.has_x11 && host.has_xclip
            <==> best_backend(host) is Xclip,
        !host.is_macos && !(host.has_wayland && host.has_wl_copy) && host.has_x11 && !host.has_xclip
            && host.has_xsel <==> best_backend(host) is Xsel,
        best_backend(host) is Osc52 ==> !host.is_macos && !(host.has_wayland && host.has_wl_copy)
            && !(host.has_x11 && (host.has_xclip || host.has_xsel)),
{
}

/// Each backend but the terminal runs the command that it is named after; the two that know more
/// than one selection are told to use the clipboard.
pub proof fn law_copying(backend: ClipboardBackend, text: Seq<u8>)
    ensures
        backend is Osc52 ==> copy_plan(backend, text) == (CopyModel::Write {
            sequence: "\u{1b}]52;c;"@ + base64_text(text) + "\u{7}"@,
        }),
        !(backend is Osc52) ==> copy_plan(backend, text) is Run && copy_plan(backend, text)->command
            == backend.shown(),
        backend is Pbcopy || backend is WlCopy ==> copy_plan(backend, text)->args.len() == 0,
        backend is Xclip ==> copy_plan(backend, text)->args == seq!["-selection"@, "clipboard"@],
        backend is Xsel ==> copy_plan(backend, text)->args == seq!["--clipboard"@, "--input"@],
{
}

/// The names of the backends.
pub proof fn law_backend_names(backend: ClipboardBackend)
    ensures
        backend is Pbcopy ==> backend.shown() == "pbcopy"@,
        backend is WlCopy ==> backend.shown() == "wl-copy"@,
        backend is Xclip ==> backend.shown() == "xclip"@,
        backend is Xsel ==> backend.shown() == "xsel"@,
        backend is Osc52 ==> backend.shown() == "OSC 52"@,
{
}

/// The plain text grows event by event: texts are taken as they are, a break is a line feed, a block
/// is followed by an empty line, and an item begins a line with a dash.
pub proof fn law_plain_text(events: Seq<MarkdownModel>, event: MarkdownModel)
    ensures
        plain(Seq::empty()).len() == 0,
        event is Text ==> plain(events.push(event)) == plain(events) + event->Text_0,
        event is Code ==> plain(events.push(event)) == plain(events) + event->Code_0,
        event is SoftBreak || event is HardBreak ==> plain(events.push(event)) == plain(events).push(
            '\n',
        ),
        event is Other ==> plain(events.push(event)) == plain(events),
        event is ParagraphEnd || event is HeadingEnd || event is CodeBlockEnd ==> ({
            let out = plain(events);
            plain(events.push(event)) == if out.len() > 0 && out.last() == '\n' {
                out.push('\n')
            } else {
                out.push('\n').push('\n')
            }
        }),
        event is ItemStart ==> ({
            let out = plain(events);
            plain(events.push(event)) == if out.len() == 0 {
                "- "@
            } else if out.last() == '\n' {
                out + "- "@
            } else {
                out.push('\n') + "- "@
            }
        }),
{
    assert(events.push(event).drop_last() =~= events);
    if event is ItemStart && plain(events).len() == 0 {
        assert(plain(events) + "- "@ =~= "- "@);
    }
}

// ---------------------------------------------------------------------------
// Colors
// ---------------------------------------------------------------------------

/// A digit in base 16 is a decimal digit or one of the letters up to `f`, of either case.
pub proof fn law_hex_values(c: char)
    ensures
        '0' <= c <= '9' ==> hex_value(c) == Some((c as u32 - '0' as u32) as nat),
        'a' <= c <= 'f' ==> hex_value(c) == Some((c as u32 - 'a' as u32 + 10) as nat),
        'A' <= c <= 'F' ==> hex_value(c) == Some((c as u32 - 'A' as u32 + 10) as nat),
        !('0' <= c <= '9') && !('a' <= c <= 'f') && !('A' <= c <= 'F') ==> hex_value(c) is None,
{
}

/// A number in base 16 is read digit by digit, each place worth sixteen times the next.
pub proof fn law_hex_numbers(s: Seq<char>, c: char)
    ensures
        hex_digits(Seq::empty()) == Some(0nat),
        hex_digits(s) is Some && hex_value(c) is Some ==> hex_digits(s.push(c)) == Some(
            16 * hex_digits(s)->0 + hex_value(c)->0,
        ),
        hex_digits(s) is None || hex_value(c) is None ==> hex_digits(s.push(c)) is None,
        s.len() > 0 && s[0] != '+' && hex_digits(s) is Some && hex_digits(s)->0 <= 0xffff
            ==> hex_number(s) == hex_digits(s),
        s.len() > 0 && s[0] != '+' && hex_digits(s) is Some && hex_digits(s)->0 > 0xffff
            ==> hex_number(s) is None,
        s.len() == 0 ==> hex_number(s) is None,
{
    assert(s.push(c).drop_last() =~= s);
}

/// A channel of one or two digits is its number, and one of four digits the higher byte of it.
pub proof fn law_channels(s: Seq<char>, n: nat)
    requires
        hex_number(s) == Some(n),
    ensures
        s.len() <= 2 && n <= 255 ==> channel(s) == Some(n as u8),
        s.len() == 4 ==> channel(s) == Some((n / 256) as u8),
{
}

/// What is no number is no channel.
pub proof fn law_no_channel(s: Seq<char>)
    requires
        hex_number(s) is None,
    ensures
        channel(s) is None,
{
}

/// A color is its three channels in order, red, green and blue, with slashes between them.
pub proof fn law_osc_color(r: Seq<char>, g: Seq<char>, b: Seq<char>, s: Seq<char>)
    requires
        !r.contains('/') && !g.contains('/'),
    ensures
        channel(r) is Some && channel(g) is Some && channel(b) is Some ==> osc_color(
            "rgb:"@ + (r + seq!['/'] + g + seq!['/'] + b),
        ) == Some(RgbColor { r: channel(r)->0, g: channel(g)->0, b: channel(b)->0 }),
        channel(r) is None || channel(g) is None || channel(b) is None ==> osc_color(
            "rgb:"@ + (r + seq!['/'] + g + seq!['/'] + b),
        ) is None,
        !starts(s, "rgb:"@) ==> osc_color(s) is None,
{
    let t = r + seq!['/'] + g + seq!['/'] + b;
    law_prefixes("rgb:"@, t, s);
    crate::text::lemma_next_char(t, '/', 0);
    let first = next_char(t, '/', 0);
    assert(t[r.len() as int] == '/');
    assert(first == r.len()) by {
        if first < r.len() {
            assert(t[first] == r[first]);
            assert(r.contains(r[first]));
        }
    }
    crate::text::lemma_next_char(t, '/', first + 1);
    let second = next_char(t, '/', first + 1);
    let at: int = r.len() as int + 1 + g.len();
    assert(t[at] == '/');
    assert(second == at) by {
        if second < at {
            assert(t[second] == g[second - r.len() - 1]);
            assert(g.contains(g[second - r.len() - 1]));
        }
    }
    assert(t.take(first) =~= r);
    assert(t.subrange(first + 1, second) =~= g);
    assert(t.skip(second + 1) =~= b);
}

/// A response is over at its terminator, of one byte or of two, and where it has got too long.
pub proof fn law_end_of_a_response(s: Seq<u8>)
    ensures
        response_over(s.push(0x07)),
        response_over(s.push(0x1b).push(0x5c)),
        s.len() > 256 ==> response_over(s),
        s.len() <= 256 && (s.len() == 0 || (s.last() != 0x07 && s.last() != 0x5c))
            ==> !response_over(s),
{
}

/// The color in an answer is the one that begins where its name first stands.
pub proof fn law_color_of_an_answer(s: Seq<char>)
    ensures
        ({
            let i = crate::text::first_at(answer_body(s), "rgb:"@, 0);
            &&& i is None ==> answer_color(s) is None
            &&& i is Some ==> answer_color(s) == osc_color(answer_body(s).skip(i->0))
        }),
{
}

/// The second of the color numbers tells the background: dark up to eight, and white above that.
pub proof fn law_background_numbers(front: Seq<char>, back: Seq<char>, n: nat)
    requires
        !front.contains(';') && !back.contains(';'),
        small_number(trimmed(back)) == Some(n),
    ensures
        n <= 8 ==> colorfgbg_color(front + seq![';'] + back) == Some(
            RgbColor { r: 0x1c, g: 0x1e, b: 0x1f },
        ),
        n > 8 ==> colorfgbg_color(front + seq![';'] + back) == Some(
            RgbColor { r: 255, g: 255, b: 255 },
        ),
        colorfgbg_color(front) is None,
{
    law_split_of_both(front, ';', back);
    law_split_of_both(back, ';', Seq::empty());
    assert(seq![front] + seq![back] =~= seq![front, back]);
}

// ---------------------------------------------------------------------------
// The list
// ---------------------------------------------------------------------------

/// A text that fits is shown whole, and one that does not begins as it does and ends with an
/// ellipsis.
pub proof fn law_cut(s: Seq<char>, max: nat)
    ensures
        s.len() <= max ==> cut(s, max) == s,
        s.len() > max && max > 0 ==> cut(s, max) == s.subrange(0, max - 1) + "…"@,
        max == 0 ==> cut(s, max).len() == 0,
{
    if s.len() > max && max > 0 {
        assert(s.take(max - 1) =~= s.subrange(0, max - 1));
    }
    if s.len() == 0 {
        assert(s =~= Seq::<char>::empty());
    }
}

/// A session's row tells its title and time, its last message and the number of its messages, and
/// marks the selected one; the name of its workspace only where all sessions are shown.
pub proof fn law_rows(e: EntryModel, selected: bool, show_all: bool, width: u16, offset: i32)
    ensures
        ({
            let row = crate::picker::ui::row_of(e, selected, show_all, width, offset);
            let used = 3 + row.date.len();
            let taken = 3 + row.directory.len() + row.counts.len();
            &&& row.selected == selected
            &&& selected ==> row.caret == "> "@
            &&& !selected ==> row.caret == "  "@
            &&& e.updated_at is Some ==> row.date == time_text(
                e.updated_at->0.secs,
                offset,
                "%b %d %H:%M"@,
            )
            &&& e.updated_at is None ==> row.date == time_text(e.mtime.secs, offset, "%b %d %H:%M"@)
            &&& row.counts == "≡ "@ + decimal(e.message_count as nat)
            &&& !show_all ==> row.directory.len() == 0
            &&& show_all && e.workspace_path is Some && path_name(e.workspace_path->0) is Some
                ==> row.directory == path_name(e.workspace_path->0)->0 + "  "@
            &&& width >= used + e.title.len() ==> row.title == padded(
                e.title,
                (width - used) as nat,
            )
            &&& used <= width < used + e.title.len() ==> row.title == padded(
                cut(e.title, (width - used) as nat),
                (width - used) as nat,
            )
            &&& e.last_user_message is Some && width >= taken ==> row.message == padded(
                cut(e.last_user_message->0, (width - taken) as nat),
                (width - taken) as nat,
            )
            &&& e.last_user_message is None && width >= taken ==> row.message == padded(
                Seq::empty(),
                (width - taken) as nat,
            )
        }),
{
}

/// What the list says where it lists nothing depends on whether all sessions are shown.
pub proof fn law_empty_list()
    ensures
        empty_note(true) == "No transcripts found."@,
        empty_note(false) == "No transcripts found in this workspace."@,
{
}

/// The tabs are named after what they list.
pub proof fn law_names_of_tabs(tab: Tab, names: ProviderNames)
    ensures
        tab == Tab::All ==> tab.named(names) == "All"@,
        tab == Tab::Cursor ==> tab.named(names) == "Cursor"@,
        tab == Tab::Claude ==> tab.named(names) == capitalized(names.claude@),
{
}

/// The times are shown by the clock, in full or in short.
pub proof fn law_formats_of_times()
    ensures
        clock_format() == "%H:%M:%S"@,
        full_format() == "%Y-%m-%d %H:%M:%S"@,
        short_format() == "%b %d %H:%M"@,
{
}

// ---------------------------------------------------------------------------
// The index
// ---------------------------------------------------------------------------

/// The key of a path is the one found last for it.
pub proof fn law_key_of(paths: Seq<ScannedModel>, path: Seq<char>, i: int)
    requires
        0 <= i < paths.len(),
        paths[i].path == path,
        forall|j: int| i < j < paths.len() ==> (#[trigger] paths[j]).path != path,
    ensures
        key_of(paths, path) == Some(paths[i].key),
    decreases paths.len(),
{
    if i < paths.len() - 1 {
        assert(paths[paths.len() - 1].path != path);
        let front = paths.drop_last();
        assert forall|j: int| i < j < front.len() implies (#[trigger] front[j]).path != path by {
            assert(paths[j].path != path);
        }
        law_key_of(front, path, i);
    }
}

/// What is known of a path is shown without reading it, unless it is being written; what is not
/// known is read.
pub proof fn law_plans(path: ScannedModel, known: Map<Seq<char>, EntryModel>)
    ensures
        ({
            let key = crate::paths::plain_path(path.path);
            &&& path.priority == 0 ==> plan_for(path, known) is ReRead
            &&& path.priority != 0 && known.contains_key(key) ==> plan_for(path, known)
                == PlanModel::Cached(known[key])
            &&& path.priority != 0 && !known.contains_key(key) ==> plan_for(path, known) is Read
        }),
{
}

/// The results in a row end at the first one that is missing.
pub proof fn law_ready_end(results: Map<usize, Option<EntryModel>>, next: int, total: int)
    requires
        0 <= next <= total <= usize::MAX,
    ensures
        next <= ready_end(results, next, total) <= total,
        forall|k: int|
            next <= k < ready_end(results, next, total) ==> results.contains_key(
                #[trigger] (k as usize),
            ),
        ready_end(results, next, total) < total ==> !results.contains_key(
            ready_end(results, next, total) as usize,
        ),
    decreases total - next,
{
    if next < total && results.contains_key(next as usize) {
        law_ready_end(results, next + 1, total);
        assert forall|k: int| next <= k < ready_end(results, next, total) implies results.contains_key(
            #[trigger] (k as usize),
        ) by {
            if k == next {
                assert(results.contains_key(next as usize));
            }
        }
    }
}

/// The entries of results are those that are there, in order.
pub proof fn law_present(results: Map<usize, Option<EntryModel>>, from: int, to: int)
    requires
        0 <= from <= to < usize::MAX,
    ensures
        present(results, from, from) == Seq::<EntryModel>::empty(),
        results[to as usize] is Some ==> present(results, from, to + 1) == present(
            results,
            from,
            to,
        ).push(results[to as usize]->0),
        results[to as usize] is None ==> present(results, from, to + 1) == present(results, from, to),
{
}

/// Batches lose nothing and change no order: one after the other, with what is left, they are what
/// was there and what came.
pub proof fn law_batches_keep_all(batch: Seq<EntryModel>, entries: Seq<EntryModel>)
    ensures
        batched(batch, entries).0.flatten() + batched(batch, entries).1 == batch + entries,
    decreases entries.len(),
{
    if entries.len() == 0 {
        assert(Seq::<Seq<EntryModel>>::empty().flatten() =~= Seq::<EntryModel>::empty());
        assert(batched(batch, entries).0.flatten() + batched(batch, entries).1 =~= batch + entries);
    } else {
        law_batches_keep_all(batch, entries.drop_last());
        let (sent, left) = batched(batch, entries.drop_last());
        let more = left.push(entries.last());
        assert(sent.flatten() + more =~= (sent.flatten() + left).push(entries.last()));
        assert((batch + entries.drop_last()).push(entries.last()) =~= batch + entries);
        if more.len() >= crate::index::refresh::REFRESH_BATCH_SIZE {
            sent.lemma_flatten_push(more);
            assert(sent.push(more).flatten() + Seq::<EntryModel>::empty() =~= sent.flatten() + more);
        }
    }
}

/// The row of a session holds what the session is, with its provider's word; its time, or its size,
/// is the one that the scan found.
pub proof fn law_stored_rows(e: EntryModel, key: TranscriptCacheKey, names: ProviderNames)
    ensures
        ({
            let row = row_of(e, key, names);
            &&& row.path == e.path && row.id == e.id && row.title == e.title
            &&& row.last_user_message == e.last_user_message
            &&& row.workspace_path == e.workspace_path
            &&& row.message_count == e.message_count as i64
            &&& e.provider == ProviderKind::Cursor ==> row.provider == "cursor"@
            &&& e.provider == ProviderKind::Claude ==> row.provider == names.claude@
            &&& key is Mtime && key->Mtime_0.secs >= 0 ==> row.mtime_secs == key->Mtime_0.secs
                && row.mtime_nanos == key->Mtime_0.nanos
            &&& key is Mtime && key->Mtime_0.secs < 0 ==> row.mtime_secs == 0 && row.mtime_nanos == 0
            &&& key is Size ==> row.size == Some(key->Size_0 as i64)
            &&& key is Mtime && e.size is Some ==> row.size == Some(e.size->0 as i64)
            &&& key is Mtime && e.size is None ==> row.size is None
            &&& e.updated_at is None ==> row.updated_at_ms is None
            &&& e.updated_at is Some ==> row.updated_at_ms == Some(e.updated_at->0.millis() as i64)
        }),
{
}

/// Rows that no longer hold, and those of paths that were not found, are not known; of several that
/// hold the last one counts.
pub proof fn law_known_rows(
    paths: Seq<ScannedModel>,
    rows: Seq<RowModel>,
    row: RowModel,
    names: ProviderNames,
)
    ensures
        known_entries(paths, Seq::empty(), names) == Map::<Seq<char>, EntryModel>::empty(),
        key_of(paths, row.path) is None ==> known_entries(paths, rows.push(row), names)
            == known_entries(paths, rows, names),
        key_of(paths, row.path) is Some && !crate::index::row::row_hits(
            row,
            key_of(paths, row.path)->0,
        ) ==> known_entries(paths, rows.push(row), names) == known_entries(paths, rows, names),
        key_of(paths, row.path) is Some && crate::index::row::row_hits(
            row,
            key_of(paths, row.path)->0,
        ) ==> known_entries(paths, rows.push(row), names) == known_entries(
            paths,
            rows,
            names,
        ).insert(crate::paths::plain_path(row.path), row_entry(row, names)),
{
    assert(rows.push(row).drop_last() =~= rows);
}

// ---------------------------------------------------------------------------
// Views
// ---------------------------------------------------------------------------

/// In the view, Esc and `q` close it, the space bar shows more or less, every other press is the
/// tree's, and what is no press does nothing.
pub proof fn law_keys_of_the_view(key: Key)
    ensures
        !key.press ==> view_action(key) is Nothing,
        key.press && (key.code == KeyCode::Esc || key.code == KeyCode::Char('q')) ==> view_action(
            key,
        ) is Close,
        key.press && key.code == KeyCode::Char(' ') ==> view_action(key) is ToggleDisplay,
        key.press && key.code != KeyCode::Esc && key.code != KeyCode::Char('q') && key.code
            != KeyCode::Char(' ') ==> view_action(key) is Tree,
{
}

/// A value is shown by its kind and its text behind its key; an object and a list have their parts
/// below them, each under its key or its number, and are open.
pub proof fn law_values(v: JsonModel, key: Seq<char>, path: Seq<char>)
    ensures
        ({
            let node = value_node(v, Some(key), path);
            let bare = value_node(v, None, path);
            &&& path.len() > 0 ==> node.id == path
            &&& path.len() == 0 ==> node.id == "root"@
            &&& node.message_type is Json
            &&& !(v is Str) ==> node.text == Some(key + ": "@ + compact(v)) && bare.text == Some(
                Seq::<char>::empty() + compact(v),
            )
            &&& v is Str ==> node.text == Some(key + ":\n"@ + v->Str_0) && bare.text == Some(
                v->Str_0,
            ) && node.brief == Some(key + ": "@ + compact(v))
            &&& v is Object ==> node.data == "object"@ && node.expanded && node.children.len()
                == v->Object_0.len() && forall|i: int|
                0 <= i < v->Object_0.len() ==> #[trigger] node.children[i] == value_node(
                    v->Object_0[i].1,
                    Some(v->Object_0[i].0),
                    part_path(path, v->Object_0[i].0),
                )
            &&& v is Array ==> node.data == "array"@ && node.expanded && node.children.len()
                == v->Array_0.len() && forall|i: int|
                0 <= i < v->Array_0.len() ==> #[trigger] node.children[i] == value_node(
                    v->Array_0[i],
                    Some(decimal(i as nat)),
                    part_path(path, decimal(i as nat)),
                )
            &&& v is Str ==> node.data == "string"@
            &&& v is Bool ==> node.data == "bool"@
            &&& v is Null ==> node.data == "null"@
            &&& v is Unsigned || v is Negative || v is Float ==> node.data == "number"@
            &&& !(v is Object) && !(v is Array) ==> node.children.len() == 0
        }),
{
}

/// The path of a part is its key behind the path of the whole, with a dot between them.
pub proof fn law_paths_of_parts(path: Seq<char>, key: Seq<char>)
    ensures
        path.len() == 0 ==> part_path(path, key) == key,
        path.len() > 0 ==> part_path(path, key) == path + "."@ + key,
{
}

/// A text that is JSON is shown as its value, and any other as it stands.
pub proof fn law_raw_view(data: Seq<char>)
    ensures
        tree_of(data).len() == 1,
        json_parsed(data) is Some ==> tree_of(data)[0] == value_node(
            json_parsed(data)->0,
            None,
            Seq::empty(),
        ),
        json_parsed(data) is None ==> tree_of(data)[0].text == Some(data) && tree_of(data)[0].data
            == "raw"@ && tree_of(data)[0].id == "root"@,
{
}

/// The node at a path is found child by child; objects and lists open and close, and of anything
/// else more or less is shown.
pub proof fn law_nodes_in_the_view(items: Seq<MessageModel>, path: Seq<usize>, i: usize)
    ensures
        node_at(items, Seq::empty()) is None,
        i >= items.len() ==> node_at(items, seq![i] + path) is None,
        i < items.len() ==> node_at(items, seq![i]) == Some(items[i as int]),
        i < items.len() && path.len() > 0 ==> node_at(items, seq![i] + path) == node_at(
            items[i as int].children,
            path,
        ),
        node_at(items, path) is None ==> toggle_at(items, path) is ShowMore,
        node_at(items, path) is Some && (node_at(items, path)->0.data == "object"@ || node_at(
            items,
            path,
        )->0.data == "array"@) ==> toggle_at(items, path) is Expand,
        node_at(items, path) is Some && node_at(items, path)->0.data != "object"@ && node_at(
            items,
            path,
        )->0.data != "array"@ ==> toggle_at(items, path) is ShowMore,
{
    assert((seq![i] + path).skip(1) =~= path);
}

/// The nearest whole number is at most half away, and the even one of two.
pub proof fn law_half_even(a: nat, b: nat)
    requires
        b > 0,
    ensures
        2 * a <= 2 * b * half_even(a, b) + b,
        2 * b * half_even(a, b) <= 2 * a + b,
        2 * (a % b) == b ==> half_even(a, b) % 2 == 0,
        a % b == 0 ==> half_even(a, b) == a / b,
{
    let q = a / b;
    let r = a % b;
    assert(a == b * q + r && r < b) by {
        vstd::arithmetic::div_mod::lemma_fundamental_div_mod(a as int, b as int);
        vstd::arithmetic::div_mod::lemma_mod_bound(a as int, b as int);
    }
    assert(2 * b * q == 2 * (b * q)) by (nonlinear_arith);
    assert(2 * b * (q + 1) == 2 * (b * q) + 2 * b) by (nonlinear_arith);
}

/// A size is shown in bytes below a kilobyte, in kilobytes below a megabyte and else in megabytes,
/// with one digit behind the point.
pub proof fn law_sizes(bytes: u64)
    ensures
        bytes < 1024 ==> size_text(bytes) == decimal(bytes as nat) + " B"@,
        1024 <= bytes < 1_048_576 ==> size_text(bytes) == tenths_text(
            half_even(10 * (bytes as nat), 1024),
        ) + " KB"@,
        1_048_576 <= bytes < 0x20_0000_0000_0000 ==> size_text(bytes) == tenths_text(
            half_even(10 * (bytes as nat), 1_048_576),
        ) + " MB"@,
{
    if bytes < 0x20_0000_0000_0000 {
        assert(double_step(bytes as nat) == 1);
        assert(half_even(bytes as nat, 1) == bytes);
        assert(in_double(bytes as nat) == bytes);
    }
}

/// Tenths are shown as whole numbers and one digit behind the point.
pub proof fn law_tenths(n: nat, d: nat)
    requires
        d < 10,
    ensures
        tenths_text(n * 10 + d) == decimal(n) + "."@ + decimal(d),
{
    assert((n * 10 + d) / 10 == n && (n * 10 + d) % 10 == d);
}

/// A row of the view of a session is its label with its value below it.
pub proof fn law_info_rows(label: Seq<char>, value: Seq<char>)
    ensures
        row_node(label, value).text == Some(label),
        row_node(label, value).expanded,
        row_node(label, value).children.len() == 1,
        row_node(label, value).children[0].text == Some(value),
        row_node(label, value).id == "info."@ + crate::data_view::session_info::label_id(label),
        row_node(label, value).children[0].id == row_node(label, value).id + ".value"@,
        row_if(label, Some(value)) == seq![row_node(label, value)],
        row_if(label, None) == Seq::<MessageModel>::empty(),
{
}

/// The view of a session begins with its agent, its id, its title, its workspace and its path, and
/// tells its number of messages; the last message of the user comes last where it is known.
pub proof fn law_view_of_a_session(e: EntryModel, names: ProviderNames, place: Place)
    ensures
        ({
            let rows = info_nodes(e, names, place);
            &&& rows.len() >= 7
            &&& rows[0] == row_node("Agent"@, names.display_of(e.provider))
            &&& rows[1] == row_node("Session ID"@, e.id)
            &&& rows[2] == row_node("Title"@, e.title)
            &&& e.workspace_path is Some ==> rows[3] == row_node(
                "Workspace path"@,
                e.workspace_path->0,
            )
            &&& e.workspace_path is None ==> rows[3] == row_node("Workspace path"@, "—"@)
            &&& rows[4] == row_node("Session path"@, e.path)
            &&& e.last_user_message is Some ==> rows.last() == row_node(
                "Last user message"@,
                e.last_user_message->0,
            ) && rows[rows.len() - 2] == row_node(
                "Message count"@,
                decimal(e.message_count as nat),
            )
            &&& e.last_user_message is None ==> rows.last() == row_node(
                "Message count"@,
                decimal(e.message_count as nat),
            )
            &&& e.provider == ProviderKind::Claude ==> rows[5] == row_node(
                "Last modified"@,
                time_text(e.mtime.secs, place.mtime_offset, "%Y-%m-%d %H:%M:%S"@),
            )
            &&& e.provider == ProviderKind::Claude && e.updated_at is Some ==> rows[6] == row_node(
                "Updated at"@,
                time_text(e.updated_at->0.secs, place.updated_offset, "%Y-%m-%d %H:%M:%S"@),
            )
            &&& e.provider == ProviderKind::Claude && e.updated_at is None && e.size is Some
                ==> rows[6] == row_node("File size"@, size_text(e.size->0))
            &&& e.provider == ProviderKind::Claude && e.updated_at is Some && e.size is Some
                ==> rows[7] == row_node("File size"@, size_text(e.size->0))
        }),
{
}

/// A readable transcript is beside the databases of one provider alone, below the home directory,
/// in a directory named after the workspace.
pub proof fn law_readable_transcripts(e: EntryModel, home: Seq<char>)
    ensures
        e.provider == ProviderKind::Claude ==> readable_path(e, Some(home)) is None,
        e.workspace_path is None ==> readable_path(e, Some(home)) is None,
        readable_path(e, None) is None,
        e.provider == ProviderKind::Cursor && e.workspace_path is Some ==> readable_path(
            e,
            Some(home),
        ) == Some(
            home + "/.cursor/projects/"@ + replaced(skip_char(e.workspace_path->0, '/'), '/', '-')
                + "/agent-transcripts/"@ + e.id + "/"@ + e.id + ".jsonl"@,
        ),
{
}

/// The log is shown entry by entry, in order, with time, level and message; without entries the view
/// says so.
pub proof fn law_view_of_the_log(entries: Seq<LogModel>)
    ensures
        entries.len() == 0 ==> log_nodes(entries).len() == 1 && log_nodes(entries)[0].text == Some(
            "(no reader logs)"@,
        ),
        entries.len() > 0 ==> log_nodes(entries).len() == entries.len() && forall|i: int|
            0 <= i < entries.len() ==> (#[trigger] log_nodes(entries)[i]).text == Some(
                time_text(
                    entries[i].timestamp.utc_seconds,
                    entries[i].timestamp.offset_seconds,
                    "%H:%M:%S"@,
                ) + " "@ + level_mark(entries[i].level) + " "@ + entries[i].message,
            ) && log_nodes(entries)[i].id == "reader_logs."@ + decimal(i as nat),
        level_mark(LogLevel::Error) == "[ERROR]"@,
        level_mark(LogLevel::Warn) == "[WARN] "@,
        level_mark(LogLevel::Info) == "[INFO] "@,
        level_mark(LogLevel::Debug) == "[DEBUG]"@,
        level_mark(LogLevel::Trace) == "[TRACE]"@,
{
}

/// What the providers tell is kept, down to information; what others tell is not.
pub proof fn law_kept_events(target: Seq<char>, rest: Seq<char>)
    ensures
        kept("agt::providers"@ + rest, LogLevel::Error),
        kept("agt::providers"@ + rest, LogLevel::Warn),
        kept("agt::providers"@ + rest, LogLevel::Info),
        !kept(target, LogLevel::Debug),
        !kept(target, LogLevel::Trace),
        !starts(target, "agt::providers"@) ==> !kept(target, LogLevel::Error),
{
    law_prefixes("agt::providers"@, rest, target);
}

/// The text of an event is its message, with its fields behind it where it has any.
pub proof fn law_text_of_an_event(message: Seq<char>, fields: Seq<Seq<char>>)
    ensures
        fields.len() == 0 ==> event_text(message, fields) == message,
        fields.len() > 0 ==> event_text(message, fields) == message + " "@ + joined(fields, " "@),
{
}

// ---------------------------------------------------------------------------
// The status bar
// ---------------------------------------------------------------------------

/// A message comes before all else, then what is looked for, then a question, then how the
/// transcript stands, and keys last.
pub proof fn law_status_bar(bar: StatusBar)
    ensures
        bar.flash is Some ==> bar_content(bar) == (BarModel::Message {
            text: (bar.flash->0).0@,
            warning: (bar.flash->0).1,
        }),
        bar.flash is None && bar.mode@ is SearchInput ==> bar_content(bar) is Search,
        bar.flash is None && bar.mode@ is Confirm ==> bar_content(bar) == BarModel::Question(
            question(bar.mode@->Confirm_0),
        ),
        bar.flash is None && !(bar.mode@ is SearchInput) && !(bar.mode@ is Confirm) && bar.debug
            ==> bar_content(bar) == (BarModel::Debug {
            state: debug_text(bar.tree, bar.collapsed_crop),
            session: text_opt(bar.session_label),
        }),
        bar.flash is None && !(bar.mode@ is SearchInput) && !(bar.mode@ is Confirm) && !bar.debug
            ==> bar_content(bar) is Hints && bar_content(bar)->left == hint_spans(
            told_keys(bar).0,
            false,
        ),
{
}

/// What is looked for is shown behind the sign of its direction, with a cursor behind it.
pub proof fn law_search_line(bar: StatusBar, query: Seq<char>, backward: bool)
    requires
        bar.flash is None,
        bar.mode@ == (ModeModel::SearchInput { query, backward }),
    ensures
        backward ==> bar_content(bar) == (BarModel::Search {
            text: " "@ + "?"@ + query + "▌"@,
            no_match: bar.tree.no_match,
        }),
        !backward ==> bar_content(bar) == (BarModel::Search {
            text: " "@ + "/"@ + query + "▌"@,
            no_match: bar.tree.no_match,
        }),
{
}

/// Each question asks what a yes would do.
pub proof fn law_questions(kind: ConfirmModel)
    ensures
        kind is Kill ==> question(kind) == " Kill session? (Y/n)"@,
        kind is SessionSwitch || kind is SessionSwitchAndResume ==> question(kind)
            == " The current session will be terminated. Continue? (Y/n)"@,
        kind is NewSession ==> question(kind)
            == " The current session will be terminated. Start new session? (Y/n)"@,
        kind is ReaderRestart ==> question(kind) == " Restart reader? (Y/n)"@,
        kind is DebugLog ==> question(kind)
            == " Start writing logs to /tmp/agent-transcript.log? (Y/n)"@,
{
}

/// The keys that are told are those that do something: the way back from a view, from a message or
/// from the tool; the way to the tool where it runs, and how to start it where it does not.
pub proof fn law_told_keys(bar: StatusBar)
    ensures
        ({
            let away = bar.data_view_open || bar.mode@ is MessageInteraction
                || bar.mode@ is SearchInput;
            &&& away ==> told_keys(bar).0 == seq![("Esc", "Back")] && told_keys(bar).1 is None
            &&& !away && bar.mode@ is Terminal ==> told_keys(bar).0 == seq![("Ctrl-O", "Normal")]
                && told_keys(bar).1 is None
            &&& !away && !(bar.mode@ is Terminal) ==> told_keys(bar).1 == Some(
                seq![("Ctrl-X", "Select chat")],
            )
            &&& !away && !(bar.mode@ is Terminal) && bar.terminal_live ==> told_keys(bar).0[0] == (
                "Esc",
                "Chat",
            ) && told_keys(bar).0[1].0 == "Space" && told_keys(bar).0[2] == ("r", "Raw")
                && told_keys(bar).0[3] == ("I", "Session info") && told_keys(bar).0.len() == 4
            &&& !away && !(bar.mode@ is Terminal) && !bar.terminal_live ==> told_keys(bar).0 == seq![
                ("Ctrl-Y", "Resume chat"),
                ("I", "Session info"),
            ]
        }),
{
}

/// What the space bar does to the tool depends on whether it is open; to anything else it goes
/// deeper.
pub proof fn law_space_bar(bar: StatusBar)
    ensures
        !bar.tree.terminal_selected ==> space_label(bar) == "Drill down",
        bar.tree.terminal_selected && bar.terminal_expanded ==> space_label(bar) == "Collapse chat",
        bar.tree.terminal_selected && !bar.terminal_expanded ==> space_label(bar) == "Expand chat",
{
}

/// Keys of a sequence that is not complete are shown: those of the application before those of the
/// transcript.
pub proof fn law_pending_keys(bar: StatusBar, pairs: Seq<(&'static str, &'static str)>)
    ensures
        bar.pending_app_key is Some ==> pending_keys(bar) == Some(seq![bar.pending_app_key->0]),
        bar.pending_app_key is None ==> pending_keys(bar) == text_opt(bar.tree.pending_prefix),
        !bar.prompt_pinned && pending_keys(bar) is None ==> right_spans(bar, pairs) == hint_spans(
            pairs,
            true,
        ),
        bar.prompt_pinned ==> right_spans(bar, pairs)[0] == (" [P] "@, HintInk::Pinned),
        !bar.prompt_pinned && pending_keys(bar) is Some ==> right_spans(bar, pairs)[0] == (
            " "@ + pending_keys(bar)->0 + "…  "@,
            HintInk::Pending,
        ),
{
    if !bar.prompt_pinned && pending_keys(bar) is None {
        assert(right_spans(bar, pairs) =~= hint_spans(pairs, true));
    }
}

/// Each key stands in brackets before what it does, with two blanks between one pair and the next.
pub proof fn law_hints(
    pairs: Seq<(&'static str, &'static str)>,
    pair: (&'static str, &'static str),
)
    ensures
        pair_spans(pairs, 0) == Seq::<(Seq<char>, HintInk)>::empty(),
        ({
            let more = pairs.push(pair);
            let n = pairs.len() as int;
            let last = seq![
                ("["@ + pair.0@ + "]"@, HintInk::Key),
                (" "@ + pair.1@, HintInk::Text),
            ];
            &&& n == 0 ==> pair_spans(more, 1) == last
            &&& n > 0 ==> pair_spans(more, n + 1) == pair_spans(more, n) + seq![
                ("  "@, HintInk::Text),
            ] + last
        }),
        hint_spans(pairs, true).last() == (" "@, HintInk::Text),
        hint_spans(pairs, false)[0] == (" "@, HintInk::Text),
{
    let more = pairs.push(pair);
    let n = pairs.len() as int;
    assert(more[n] == pair);
    if n == 0 {
        reveal_with_fuel(pair_spans, 2);
        assert(pair_spans(more, 1) =~= seq![
            ("["@ + pair.0@ + "]"@, HintInk::Key),
            (" "@ + pair.1@, HintInk::Text),
        ]);
    }
}

/// The width of pieces is the sum of their lengths.
pub proof fn law_width_of_pieces(
    spans: Seq<(Seq<char>, HintInk)>,
    text: Seq<char>,
    ink: HintInk,
)
    ensures
        spans_width(Seq::empty()) == 0,
        spans_width(spans.push((text, ink))) == spans_width(spans) + text.len(),
{
    assert(spans.push((text, ink)).drop_last() =~= spans);
}

// ---------------------------------------------------------------------------
// Printed trees
// ---------------------------------------------------------------------------

/// A change is told by its kind, the id that it concerns and the type of its node.
pub proof fn law_lines_of_changes(op: OpModel)
    ensures
        op is Append ==> op_text(op) == "Append  id="@ + padded(op->Append_message.id, 50)
            + " type="@ + padded(op->Append_message.message_type.name(), 20) + " parent="@
            + quoted_text(
            if op->parent_id is Some {
                op->parent_id->0
            } else {
                "<root>"@
            },
        ),
        op is Replace ==> op_text(op) == "Replace id="@ + padded(op->Replace_id, 50) + " type="@
            + padded(op->Replace_message.message_type.name(), 20) + " new_id="@
            + op->Replace_message.id,
        op is Remove ==> op_text(op) == "Remove  id="@ + op->Remove_id,
        op is Update ==> op_text(op) == "Update  id="@ + padded(op->Update_id, 50) + " type="@
            + op->Update_message.message_type.name(),
{
}

/// Each type has its name.
pub proof fn law_names_of_types(t: MessageType)
    ensures
        t is UserMessage ==> t.name() == "UserMessage"@,
        t is AgentMessage ==> t.name() == "AgentMessage"@,
        t is ToolCall ==> t.name() == "ToolCall"@,
        t is ToolResult ==> t.name() == "ToolResult"@,
        t is Thinking ==> t.name() == "Thinking"@,
        t is Container ==> t.name() == "Container"@,
        t is TaskSummary ==> t.name() == "TaskSummary"@,
        t is System ==> t.name() == "System"@,
        t is Json ==> t.name() == "Json"@,
        t is Table ==> t.name() == "Table"@,
        t is Other ==> t.name() == "Other"@,
{
}

/// Each type has its color: what the user, the agent and the tools say can be told apart.
pub proof fn law_inks(t: MessageType)
    ensures
        t is UserMessage || t is Table ==> ink_of(t) is Cyan,
        t is AgentMessage || t is TaskSummary ==> ink_of(t) is Green,
        t is ToolCall || t is ToolResult ==> ink_of(t) is Yellow,
        t is Thinking ==> ink_of(t) is Magenta,
        t is Container ==> ink_of(t) is Blue,
        t is System ==> ink_of(t) is DarkGrey,
        t is Json || t is Other ==> ink_of(t) is White,
{
}

/// A text that fits is printed whole, and of another its beginning.
pub proof fn law_beginnings(s: Seq<char>, max: nat)
    ensures
        s.len() <= max ==> beginning(s, max) == s,
        s.len() > max ==> beginning(s, max) == s.subrange(0, max as int),
{
    if s.len() > max {
        assert(s.take(max as int) =~= s.subrange(0, max as int));
    }
}

/// A name is printed without what stands before its last pair of colons.
pub proof fn law_short_names(full: Seq<char>)
    ensures
        ({
            let i = last_at(full, "::"@, full.len() - 2);
            &&& i is None ==> short_name(full) == full
            &&& i is Some ==> full == full.take(i->0) + "::"@ + short_name(full)
        }),
{
    reveal_strlit("::");
    assert("::"@.len() == 2);
    law_last_place(full, "::"@, full.len() - 2);
    if let Some(i) = last_at(full, "::"@, full.len() - 2) {
        assert(full.subrange(i, i + 2) == "::"@);
        assert(full =~= full.take(i) + "::"@ + full.skip(i + 2));
    }
}

/// What holds of a node is told by a word for each, in a fixed order.
pub proof fn law_flags_of_nodes(m: MessageModel)
    ensures
        flags_of(m).len() == (if m.expanded {
            1int
        } else {
            0
        }) + (if m.show_more {
            1int
        } else {
            0
        }) + (if m.group {
            1int
        } else {
            0
        }) + (if m.hidden is Hidden {
            1int
        } else {
            0
        }),
        m.expanded ==> flags_of(m)[0] == "expanded"@,
        m.hidden is Hidden ==> flags_of(m).last() == "hidden"@,
        !m.expanded && m.show_more ==> flags_of(m)[0] == "show_more"@,
        m.expanded && m.show_more ==> flags_of(m)[1] == "show_more"@,
        !(m.hidden is Hidden) && m.group ==> flags_of(m).last() == "group"@,
{
}

/// A node is printed before its text and its children, which are one level deeper; children are
/// printed in order.
pub proof fn law_printed_trees(m: MessageModel, nodes: Seq<MessageModel>, n: int, depth: int)
    requires
        0 <= n < nodes.len(),
    ensures
        node_lines(m, depth).len() > 0,
        node_lines(m, depth)[0].depth == depth,
        node_lines(m, depth)[0].pieces[0].text == m.message_type.name(),
        node_lines(m, depth)[0].pieces[0].bold,
        node_lines(m, depth) == seq![LineModel { depth, pieces: header_of(m) }] + body_of(m, depth)
            + nodes_lines(m.children, m.children.len() as int, deeper(depth)),
        depth < usize::MAX ==> deeper(depth) == depth + 1,
        nodes_lines(nodes, 0, depth) == Seq::<LineModel>::empty(),
        nodes_lines(nodes, n + 1, depth) == nodes_lines(nodes, n, depth) + node_lines(
            nodes[n],
            depth,
        ),
{
}

/// Of a text up to six lines are printed, without the empty ones, and then how many more there are.
pub proof fn law_printed_texts(m: MessageModel, depth: int)
    ensures
        m.text is None ==> body_of(m, depth).len() == 0,
        m.text is Some && lines_of(m.text->0).len() <= 6 ==> body_of(m, depth) == text_lines(
            lines_of(m.text->0),
            lines_of(m.text->0).len() as int,
            depth,
        ),
        m.text is Some && lines_of(m.text->0).len() > 6 ==> body_of(m, depth).len() == text_lines(
            lines_of(m.text->0),
            6,
            depth,
        ).len() + 1 && body_of(m, depth).last().pieces[1].text == "… ("@ + decimal(
            (lines_of(m.text->0).len() - 6) as nat,
        ) + " more lines)"@,
{
}

/// The lines of a text are printed in order, each cut, and empty ones are left out.
pub proof fn law_printed_lines(lines: Seq<Seq<char>>, n: int, depth: int)
    requires
        0 <= n < lines.len(),
    ensures
        text_lines(lines, 0, depth) == Seq::<LineModel>::empty(),
        lines[n].len() == 0 ==> text_lines(lines, n + 1, depth) == text_lines(lines, n, depth),
        lines[n].len() > 0 ==> text_lines(lines, n + 1, depth).len() == text_lines(
            lines,
            n,
            depth,
        ).len() + 1 && text_lines(lines, n + 1, depth).last().depth == depth && text_lines(
            lines,
            n + 1,
            depth,
        ).last().pieces[1].text == beginning(lines[n], 120),
{
}

// ---------------------------------------------------------------------------
// The screen
// ---------------------------------------------------------------------------

/// A cell lies in an area from its first column and row on, up to its width and height.
pub proof fn law_cells(area: Rect, dx: u16, dy: u16, col: u16, row: u16)
    requires
        area.x + dx <= u16::MAX,
        area.y + dy <= u16::MAX,
    ensures
        area.holds((area.x + dx) as u16, (area.y + dy) as u16) <==> dx < area.width && dy
            < area.height,
        col < area.x || row < area.y ==> !area.holds(col, row),
{
}

/// A share of a length is that part of it, at least ten cells and never more than all of it.
pub proof fn law_shares(length: int, percent: int)
    requires
        0 <= length,
        0 <= percent <= 100,
    ensures
        share(length, percent) <= length,
        length >= 10 ==> share(length, percent) >= 10,
        length < 10 ==> share(length, percent) == length,
        length * percent / 100 >= 10 && length * percent / 100 <= length ==> share(length, percent)
            == length * percent / 100,
        lesser(length, percent) <= length && lesser(length, percent) <= percent,
        greater(length, percent) >= length && greater(length, percent) >= percent,
{
}

/// A tool's screen leaves ten rows of the window free, but has at least twenty.
pub proof fn law_rows_of_the_tool(height: u16)
    ensures
        height >= 30 ==> rows_for(true, height) == height - 10,
        height < 30 ==> rows_for(true, height) == 20,
        rows_for(false, height) == 20,
{
}

/// The prompt is drawn over the transcript only where it is known, and there where it is held in
/// place, or keys go to a tool whose end is out of sight.
pub proof fn law_overlay(
    start: u16,
    crop: crate::status_bar::CollapsedCrop,
    pinned: bool,
    at_bottom: bool,
    active: bool,
)
    ensures
        overlay_shown(Some(start), Some(crop), true, at_bottom, active),
        overlay_shown(Some(start), Some(crop), false, false, true),
        !overlay_shown(Some(start), Some(crop), false, true, active),
        !overlay_shown(Some(start), Some(crop), false, at_bottom, false),
        !overlay_shown(None, Some(crop), pinned, at_bottom, active),
        !overlay_shown(Some(start), None, pinned, at_bottom, active),
{
}

/// The prompt has the rows from its start to the end of what is shown of the tool, and stands with a
/// line above and below it at the end of the transcript.
pub proof fn law_place_of_the_prompt(area: Rect, crop: crate::status_bar::CollapsedCrop, start: u16)
    ensures
        crop.start_row <= start <= crop.start_row + crop.height ==> prompt_rows(crop, start)
            + start == crop.start_row + crop.height,
        start > crop.start_row + crop.height ==> prompt_rows(crop, start) == 0,
        area.ends_count() && prompt_rows(crop, start) + 2 <= area.y + area.height ==> overlay_top(
            area,
            prompt_rows(crop, start),
        ) + prompt_rows(crop, start) + 2 == area.y + area.height,
{
}

/// The cursor in the prompt is as far from the prompt's first row as in the tool, one column in; it
/// is not shown where it is hidden or not in the prompt.
pub proof fn law_cursor_on_the_prompt(prompt: PromptPlace, cursor: Cursor)
    ensures
        cursor.hidden ==> cursor_on_prompt(prompt, cursor) is None,
        cursor.row < prompt.start ==> cursor_on_prompt(prompt, cursor) is None,
        cursor.row >= prompt.start + prompt.height ==> cursor_on_prompt(prompt, cursor) is None,
        !cursor.hidden && prompt.start <= cursor.row < prompt.start + prompt.height
            ==> cursor_on_prompt(prompt, cursor) == Some(
            (prompt.x + 1 + cursor.col, prompt.y + cursor.row - prompt.start),
        ),
{
}

/// The cursor in the transcript is on the tool's row that is shown there, behind those that went by.
pub proof fn law_cursor_in_the_transcript(place: TerminalPlace, cursor: Cursor, gone_by: u16)
    ensures
        cursor.hidden ==> cursor_inline(place, cursor, gone_by, None) is None,
        !cursor.hidden && place.skip <= gone_by + cursor.row < place.skip + place.height
            ==> cursor_inline(place, cursor, gone_by, None) == Some(
            (place.x + 1 + cursor.col, place.y + gone_by + cursor.row - place.skip),
        ),
        gone_by + cursor.row < place.skip || gone_by + cursor.row >= place.skip + place.height
            ==> cursor_inline(place, cursor, gone_by, None) is None,
{
}

/// While keys go to the tool, the cursor is in the prompt over the transcript where it can be, and
/// else in the transcript; while they do not, it is never in the prompt, and nowhere where the
/// prompt is held in place.
pub proof fn law_cell_of_the_cursor(f: CursorFacts)
    ensures
        f.active && f.prompt is Some && cursor_on_prompt(f.prompt->0, f.cursor) is Some
            ==> cursor_cell(f) == cursor_on_prompt(f.prompt->0, f.cursor),
        f.active && (f.prompt is None || cursor_on_prompt(f.prompt->0, f.cursor) is None)
            && f.place is Some ==> cursor_cell(f) == cursor_inline(
            f.place->0,
            f.cursor,
            f.gone_by,
            f.covered_from,
        ),
        !f.active && f.pinned ==> cursor_cell(f) is None,
        !f.active && !f.pinned && f.place is Some ==> cursor_cell(f) == cursor_inline(
            f.place->0,
            f.cursor,
            f.gone_by,
            f.covered_from,
        ),
        f.place is None && !f.active ==> cursor_cell(f) is None,
{
}

// ---------------------------------------------------------------------------
// The mouse
// ---------------------------------------------------------------------------

/// Each turn of the wheel scrolls three rows, up or down as it was turned, in the view where the
/// mouse is over it.
pub proof fn law_turns_of_the_wheel(s: AppModel, ev: Mouse, count: usize, places: Places)
    requires
        count * 3 <= usize::MAX,
        ev.kind == MouseKind::ScrollUp || ev.kind == MouseKind::ScrollDown,
    ensures
        ({
            let action = mouse_action(s, ev, count, places).1;
            &&& action is Scroll
            &&& action->rows == 3 * count
            &&& action->up == (ev.kind == MouseKind::ScrollUp)
            &&& action->Scroll_in_view == places.on_popup(ev.column, ev.row)
            &&& action->restore_cursor == (ev.kind == MouseKind::ScrollUp && s.mode is Terminal)
        }),
{
}

/// While keys go to the tool, what the mouse does over it is the tool's, but for the wheel; nothing
/// changes.
pub proof fn law_mouse_of_the_tool(s: AppModel, ev: Mouse, count: usize, places: Places)
    requires
        s.mode is Terminal,
        places.on_terminal(ev.column, ev.row),
        ev.kind == MouseKind::Moved || ev.kind == MouseKind::LeftDown || ev.kind
            == MouseKind::Other,
    ensures
        mouse_action(s, ev, count, places) == (s, MouseAction::Forward),
{
}

/// Beside the tool a move points at what is there, and a click is one on what is there; over the
/// prompt a move points at nothing, and a click gives the keys to a tool that runs.
pub proof fn law_mouse_beside_the_tool(s: AppModel, ev: Mouse, count: usize, places: Places)
    requires
        !(s.mode is Terminal),
    ensures
        ({
            let over = places.on_prompt(ev.column, ev.row);
            let in_view = places.on_popup(ev.column, ev.row);
            let (next, action) = mouse_action(s, ev, count, places);
            &&& ev.kind == MouseKind::Moved ==> next == s
            &&& ev.kind == MouseKind::Moved && over ==> action is ClearHover
            &&& ev.kind == MouseKind::Moved && !over ==> action == (MouseAction::Hover { in_view })
            &&& ev.kind == MouseKind::LeftDown && !over ==> next == s && action == (
            MouseAction::Click { in_view })
            &&& ev.kind == MouseKind::LeftDown && over && s.panel is Live ==> action
                is ActivateFloating && next == (AppModel { mode: ModeModel::Terminal, ..s })
            &&& ev.kind == MouseKind::LeftDown && over && !(s.panel is Live) ==> action is Nothing
                && next == s
            &&& ev.kind == MouseKind::Other ==> action is Nothing && next == s
        }),
{
}

/// The tool has its rows and columns in the transcript, and those of its prompt, which begin one
/// column in.
pub proof fn law_cells_of_the_tool(places: Places, col: u16, row: u16)
    ensures
        places.terminal is None && places.prompt is None ==> !places.on_terminal(col, row),
        places.prompt is Some ==> (places.on_prompt(col, row) <==> col > places.prompt->0.x
            && places.prompt->0.y <= row < places.prompt->0.y + places.prompt->0.height),
        places.prompt is None ==> !places.on_prompt(col, row),
        places.terminal is Some && places.terminal->0.x <= col < places.terminal->0.x
            + places.viewport_width && places.terminal->0.y <= row < places.terminal->0.y
            + places.terminal->0.height ==> places.on_terminal(col, row),
        places.on_prompt(col, row) ==> places.on_terminal(col, row),
        places.popup is None ==> !places.on_popup(col, row),
        places.popup is Some ==> places.on_popup(col, row) == places.popup->0.holds(col, row),
{
}

/// A click in the transcript does what is for the thing clicked on; on the selected message it shows
/// more of it, and on another it selects that.
pub proof fn law_clicks_in_the_transcript(
    s: AppModel,
    hit: MouseHitResult,
    selection: Seq<usize>,
)
    ensures
        ({
            let (next, action) = tree_click(s, hit, selection);
            &&& hit is Terminal && s.panel is Live ==> action is ActivateTerminal && next == (
            AppModel { mode: ModeModel::Terminal, ..s })
            &&& hit is Terminal && !(s.panel is Live) ==> action is Nothing && next == s
            &&& hit is GapRow ==> action == ClickAction::Reveal(hit->GapRow_path) && next == s
            &&& hit is IndicatorArea ==> action == ClickAction::ToggleExpand(
                hit->IndicatorArea_path,
            ) && next == s
            &&& hit is InnerComponent ==> action == (ClickAction::Enter {
                path: hit->InnerComponent_path,
                cell: cell_of(hit->hit@),
            }) && next == (AppModel { mode: ModeModel::MessageInteraction, ..s })
            &&& hit is Message && hit->Message_path@ == selection ==> action is ToggleShowMore
                && next == s
            &&& hit is Message && hit->Message_path@ != selection ==> action == ClickAction::Select(
                hit->Message_path,
            ) && !(next.mode is MessageInteraction)
            &&& hit is Message && !(s.mode is MessageInteraction) ==> next == s
            &&& hit is Outside ==> action is Nothing && next == s
        }),
{
}

/// A click in the view selects what is not selected, and shows more of what is where there is more.
pub proof fn law_clicks_in_the_view(
    hit: MouseHitResult,
    selection: Seq<usize>,
    can_show_more: bool,
)
    ensures
        ({
            let action = view_click(hit, selection, can_show_more);
            &&& hit is GapRow ==> action == ClickAction::Reveal(hit->GapRow_path)
            &&& hit is IndicatorArea ==> action == ClickAction::ToggleExpand(
                hit->IndicatorArea_path,
            )
            &&& hit is Message && hit->Message_path@ != selection ==> action == ClickAction::Select(
                hit->Message_path,
            )
            &&& hit is InnerComponent && hit->InnerComponent_path@ != selection ==> action
                == ClickAction::Select(hit->InnerComponent_path)
            &&& hit is Message && hit->Message_path@ == selection && can_show_more
                ==> action is ToggleShowMore
            &&& hit is Message && hit->Message_path@ == selection && !can_show_more
                ==> action is Nothing
            &&& hit is InnerComponent && hit->InnerComponent_path@ == selection && can_show_more
                ==> action is ToggleShowMore
            &&& hit is InnerComponent && hit->InnerComponent_path@ == selection && !can_show_more
                ==> action is Nothing
            &&& hit is Terminal || hit is Outside ==> action is Nothing
        }),
{
}

/// What is pointed at is the node at the cell, and which part of it.
pub proof fn law_pointing(hit: MouseHitResult)
    ensures
        hit is Terminal || hit is Outside ==> hover_of(hit) is None,
        hit is GapRow ==> hover_of(hit) is Some && hover_of(hit)->0.path == hit->GapRow_path
            && hover_of(hit)->0.target == (HoverTarget::GapRow { hidden_after: hit->hidden_after }),
        hit is IndicatorArea ==> hover_of(hit) is Some && hover_of(hit)->0.path
            == hit->IndicatorArea_path && hover_of(hit)->0.target is IndicatorArea,
        hit is InnerComponent ==> hover_of(hit) is Some && hover_of(hit)->0.path
            == hit->InnerComponent_path && hover_of(hit)->0.target == HoverTarget::Inner(hit->hit),
        hit is Message ==> hover_of(hit) is Some && hover_of(hit)->0.path == hit->Message_path
            && hover_of(hit)->0.target is Message,
{
}

/// The head of a table is its row 0, and the rows below it are counted from there.
pub proof fn law_cells_of_tables(hit: Seq<usize>)
    ensures
        hit.len() < 2 ==> cell_of(hit) is None,
        hit.len() >= 2 ==> cell_of(hit) is Some && cell_of(hit)->0.col == hit[1],
        hit.len() >= 2 && hit[0] == 0 ==> cell_of(hit)->0.row is None,
        hit.len() >= 2 && hit[0] > 0 ==> cell_of(hit)->0.row == Some((hit[0] - 1) as usize),
{
}

/// Under a category stand its bindings, in order: the keys, filled up to a column, and what they do.
pub proof fn law_lines_of_shortcuts(
    label: Seq<char>,
    bindings: Seq<(Seq<char>, Seq<char>)>,
    i: int,
)
    requires
        0 <= i < bindings.len(),
    ensures
        ({
            let node = category_node(label, bindings);
            &&& node.text == Some(label) && node.tag == Some("category"@)
            &&& node.id == "shortcuts."@ + replaced(text_lower(label), ' ', '_')
            &&& node.expanded && node.indent_children
            &&& node.children.len() == bindings.len()
            &&& node.children[i].id == node.id + "."@ + decimal(i as nat)
            &&& node.children[i].text == Some(padded(bindings[i].0, 16) + bindings[i].1)
            &&& node.children[i].tag == Some("shortcut"@)
            &&& node.children[i].children.len() == 0
        }),
{
}

/// The categories of the shortcuts, in order, and the bindings of each.
pub proof fn law_categories_of_shortcuts(i: int)
    requires
        0 <= i < 6,
    ensures
        shortcut_nodes().len() == 6,
        ({
            let (label, bindings) = seq![
                ("In-chat"@, in_chat()),
                ("Chat session"@, chat_session()),
                ("Navigation"@, navigation()),
                ("Drill-down"@, drill_down()),
                ("Table mode"@, table_mode()),
                ("Info & Debug"@, info_and_debug()),
            ][i];
            shortcut_nodes()[i] == category_node(label, bindings)
        }),
{
}

/// The query for rows has a mark for each path, with commas between them.
pub proof fn law_marks_of_the_query(count: nat)
    ensures
        count > 0 ==> lookup_text(count + 1) == lookup_text(count).drop_last() + ",?)"@,
        lookup_text(1) == lookup_text(0).drop_last() + "?)"@,
{
    reveal_strlit(",?)");
    reveal_strlit("?)");
    reveal_strlit("?");
    reveal_strlit(",");
    reveal_strlit(")");
    let now = Seq::new(count, |i: int| "?"@);
    let next = Seq::new(count + 1, |i: int| "?"@);
    assert(next.drop_last() =~= now);
    assert(next.last() == "?"@);
    if count > 0 {
        assert(joined(next, ","@) =~= joined(now, ","@) + ","@ + "?"@);
        assert(lookup_text(count + 1) =~= lookup_text(count).drop_last() + ",?)"@);
    }
    let none = Seq::new(0nat, |i: int| "?"@);
    let one = Seq::new(1nat, |i: int| "?"@);
    assert(one =~= seq!["?"@]);
    assert(joined(none, ","@) =~= Seq::<char>::empty());
    assert(joined(one, ","@) =~= "?"@);
    assert(lookup_text(1) =~= lookup_text(0).drop_last() + "?)"@);
}

/// Paths are read by rising priority, those of the same priority in the order in which they were
/// found, and none is left out.
pub proof fn law_order_of_paths(paths: Seq<ScannedModel>, order: Seq<usize>, a: int, b: int)
    requires
        paths.len() <= usize::MAX,
        is_order(priority_keys(paths), false, order),
        0 <= a < b < order.len(),
    ensures
        ({
            let sorted = at_places(paths, order);
            &&& sorted.len() == paths.len()
            &&& sorted[a] == paths[order[a] as int] && sorted[b] == paths[order[b] as int]
            &&& sorted[a].priority <= sorted[b].priority
            &&& sorted[a].priority == sorted[b].priority ==> order[a] < order[b]
        }),
        forall|i: int| 0 <= i < paths.len() ==> at_places(paths, order).contains(#[trigger] paths[i]),
{
    let keys = priority_keys(paths);
    assert(stands_before(keys, false, order[a] as int, order[b] as int));
    let sorted = at_places(paths, order);
    assert forall|i: int| 0 <= i < paths.len() implies sorted.contains(#[trigger] paths[i]) by {
        assert(order.contains(i as usize));
        let j = choose|j: int| 0 <= j < order.len() && order[j] == i as usize;
        assert(sorted[j] == paths[i]);
    }
}

} // verus!
