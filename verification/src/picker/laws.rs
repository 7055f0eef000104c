//! What holds of the list.
use crate::key::{Key, KeyCode};
use crate::order::{is_order, key_before, law_order_exists, stands_before};
use crate::paths::same_path;
use crate::picker::handler::{picker_key, PickerActionModel};
use crate::picker::state::{
    first_with_id, is_listed, last_with_id, listed, merged, merged_one, newest_first,
    mtimes, shown_time, PickerModel, Tab,
};
use crate::providers::{EntryModel, ProviderKind};
use vstd::prelude::*;

verus! {

/// Whether no two entries have the same id.
pub open spec fn ids_differ(all: Seq<EntryModel>) -> bool {
    forall|i: int, j: int|
        0 <= i < j < all.len() ==> (#[trigger] all[i]).id != (#[trigger] all[j]).id
}

proof fn lemma_last_with_id(all: Seq<EntryModel>, id: Seq<char>)
    ensures
        match last_with_id(all, id) {
            Some(i) => 0 <= i < all.len() && all[i].id == id,
            None => forall|i: int| 0 <= i < all.len() ==> (#[trigger] all[i]).id != id,
        },
    decreases all.len(),
{
    if all.len() > 0 && all.last().id != id {
        lemma_last_with_id(all.drop_last(), id);
        if last_with_id(all, id) is None {
            assert forall|i: int| 0 <= i < all.len() implies (#[trigger] all[i]).id != id by {
                if i < all.len() - 1 {
                    assert(all.drop_last()[i].id != id);
                }
            }
        }
    }
}

proof fn lemma_merged_one(all: Seq<EntryModel>, e: EntryModel)
    requires
        ids_differ(all),
    ensures
        ids_differ(merged_one(all, e)),
{
    lemma_last_with_id(all, e.id);
    let after = merged_one(all, e);
    assert forall|i: int, j: int| 0 <= i < j < after.len() implies (#[trigger] after[i]).id != (
    #[trigger] after[j]).id by {
        match last_with_id(all, e.id) {
            Some(k) => {
                assert(i != k ==> all[i].id != all[k].id);
                assert(j != k ==> all[j].id != all[k].id);
                assert(i != k && j != k ==> all[i].id != all[j].id);
            },
            None => {
                if j == all.len() {
                    assert(all[i].id != e.id);
                } else {
                    assert(all[i].id != all[j].id);
                }
            },
        }
    }
}

proof fn lemma_merged(all: Seq<EntryModel>, more: Seq<EntryModel>)
    requires
        ids_differ(all),
    ensures
        ids_differ(merged(all, more)),
    decreases more.len(),
{
    if more.len() > 0 {
        lemma_merged(all, more.drop_last());
        lemma_merged_one(merged(all, more.drop_last()), more.last());
    }
}

/// No session is listed twice, whatever batches come.
pub proof fn law_no_session_twice(s: PickerModel, more: Seq<EntryModel>)
    requires
        ids_differ(s.all),
        merged(s.all, more).len() <= usize::MAX,
    ensures
        ids_differ(s.appended(more).all),
{
    lemma_merged(s.all, more);
    let all = merged(s.all, more);
    let some_order = law_order_exists(mtimes(all), true);
    let o = choose|o: Seq<usize>| is_order(mtimes(all), true, o);
    let after = newest_first(all);
    assert(is_order(mtimes(all), true, o));
    assert forall|i: int, j: int| 0 <= i < j < after.len() implies (#[trigger] after[i]).id != (
    #[trigger] after[j]).id by {
        let a = o[i];
        let b = o[j];
        assert(stands_before(mtimes(all), true, a as int, b as int));
        assert(a != b);
        assert(after[i] == all[a as int]);
        assert(after[j] == all[b as int]);
        if a < b {
            assert(all[a as int].id != all[b as int].id);
        } else {
            assert(all[b as int].id != all[a as int].id);
        }
    }
}

/// The session whose file changed last comes first.
pub proof fn law_newest_first(s: PickerModel, more: Seq<EntryModel>, i: int, j: int)
    requires
        merged(s.all, more).len() <= usize::MAX,
        0 <= i < j < s.appended(more).all.len(),
    ensures
        !key_before(
            s.appended(more).all[i].mtime,
            s.appended(more).all[j].mtime,
        ),
{
    let all = merged(s.all, more);
    let some_order = law_order_exists(mtimes(all), true);
    let o = choose|o: Seq<usize>| is_order(mtimes(all), true, o);
    assert(is_order(mtimes(all), true, o));
    assert(stands_before(mtimes(all), true, o[i] as int, o[j] as int));
}

/// What is listed is what the tab and the directory let through, and nothing else.
pub proof fn law_listed(
    all: Seq<EntryModel>,
    show_all: bool,
    cwd: Option<Seq<char>>,
    tab: Tab,
    e: EntryModel,
)
    ensures
        listed(all, show_all, cwd, tab).contains(e) <==> all.contains(e) && is_listed(
            e,
            show_all,
            cwd,
            tab,
        ),
    decreases all.len(),
{
    let now = listed(all, show_all, cwd, tab);
    if all.len() > 0 {
        let before = listed(all.drop_last(), show_all, cwd, tab);
        law_listed(all.drop_last(), show_all, cwd, tab, e);
        if now.contains(e) {
            let i = choose|i: int| 0 <= i < now.len() && now[i] == e;
            if i < before.len() {
                assert(before[i] == e);
                let k = choose|k: int| 0 <= k < all.drop_last().len() && all.drop_last()[k] == e;
                assert(all[k] == e);
            } else {
                assert(all[all.len() - 1] == e);
            }
        }
        if all.contains(e) && is_listed(e, show_all, cwd, tab) {
            let k = choose|k: int| 0 <= k < all.len() && all[k] == e;
            if k < all.len() - 1 {
                assert(all.drop_last()[k] == e);
                let i = choose|i: int| 0 <= i < before.len() && before[i] == e;
                assert(now[i] == e);
            } else {
                assert(now[now.len() - 1] == e);
            }
        }
    }
}

proof fn lemma_first_with_id(all: Seq<EntryModel>, id: Seq<char>)
    ensures
        match first_with_id(all, id) {
            Some(i) => 0 <= i < all.len() && all[i].id == id,
            None => forall|i: int| 0 <= i < all.len() ==> (#[trigger] all[i]).id != id,
        },
    decreases all.len(),
{
    if all.len() > 0 {
        lemma_first_with_id(all.drop_last(), id);
        match first_with_id(all.drop_last(), id) {
            Some(i) => {
                assert(all.drop_last()[i] == all[i]);
            },
            None => {
                if all.last().id != id {
                    assert forall|i: int| 0 <= i < all.len() implies (#[trigger] all[i]).id
                        != id by {
                        if i < all.len() - 1 {
                            assert(all.drop_last()[i].id != id);
                        }
                    }
                }
            },
        }
    }
}

/// The selected session stays selected when more come, as long as it is listed.
pub proof fn law_selection_stays(s: PickerModel, more: Seq<EntryModel>, i: int)
    requires
        s.chosen() is Some,
        0 <= i < s.appended(more).filtered.len() < usize::MAX,
        s.appended(more).filtered[i].id == s.chosen()->0.id,
    ensures
        s.appended(more).chosen() is Some,
        s.appended(more).chosen()->0.id == s.chosen()->0.id,
{
    let after = s.appended(more);
    lemma_first_with_id(after.filtered, s.chosen()->0.id);
}

/// The last entry given for its id.
pub open spec fn is_last_given(given: Seq<EntryModel>, e: EntryModel) -> bool {
    match last_with_id(given, e.id) {
        Some(i) => given[i] == e,
        None => false,
    }
}

proof fn lemma_merged_one_holds(all: Seq<EntryModel>, x: EntryModel, e: EntryModel)
    requires
        ids_differ(all),
    ensures
        merged_one(all, x).contains(e) <==> if e.id == x.id {
            e == x
        } else {
            all.contains(e)
        },
{
    lemma_last_with_id(all, x.id);
    lemma_merged_one(all, x);
    let after = merged_one(all, x);
    let at = match last_with_id(all, x.id) {
        Some(i) => i,
        None => all.len() as int,
    };
    assert(after[at] == x);
    if after.contains(e) {
        let i = choose|i: int| 0 <= i < after.len() && after[i] == e;
        if i < at {
            assert(after[i].id != after[at].id);
            assert(all[i] == e);
        } else if i > at {
            assert(after[at].id != after[i].id);
            assert(all[i] == e);
        }
    }
    if e.id != x.id && all.contains(e) {
        let i = choose|i: int| 0 <= i < all.len() && all[i] == e;
        assert(after[i] == e);
    }
}

proof fn lemma_merged_holds(all: Seq<EntryModel>, more: Seq<EntryModel>, e: EntryModel)
    requires
        ids_differ(all),
    ensures
        merged(all, more).contains(e) <==> is_last_given(all + more, e),
    decreases more.len(),
{
    if more.len() == 0 {
        assert(all + more =~= all);
        lemma_last_with_id(all, e.id);
        if all.contains(e) {
            let i = choose|i: int| 0 <= i < all.len() && all[i] == e;
            let k = last_with_id(all, e.id)->0;
            if i < k {
                assert(all[i].id != all[k].id);
            } else if k < i {
                assert(all[k].id != all[i].id);
            }
        }
    } else {
        let front = more.drop_last();
        let given = all + more;
        lemma_merged_holds(all, front, e);
        lemma_merged(all, front);
        lemma_merged_one_holds(merged(all, front), more.last(), e);
        assert(given.drop_last() =~= all + front);
        assert(given.last() == more.last());
        lemma_last_with_id(all + front, e.id);
    }
}

proof fn lemma_sorted_holds(all: Seq<EntryModel>, e: EntryModel)
    requires
        all.len() <= usize::MAX,
    ensures
        newest_first(all).contains(e) <==> all.contains(e),
{
    let some_order = law_order_exists(mtimes(all), true);
    let o = choose|o: Seq<usize>| is_order(mtimes(all), true, o);
    let after = newest_first(all);
    assert(is_order(mtimes(all), true, o));
    if after.contains(e) {
        let i = choose|i: int| 0 <= i < after.len() && after[i] == e;
        assert(all[o[i] as int] == e);
    }
    if all.contains(e) {
        let k = choose|k: int| 0 <= k < all.len() && all[k] == e;
        assert(o.contains(k as usize));
        let i = choose|i: int| 0 <= i < o.len() && o[i] == k as usize;
        assert(after[i] == e);
    }
}

/// Every session that was given is kept, with the entry given last for it, and no other is.
pub proof fn law_last_given_is_kept(s: PickerModel, more: Seq<EntryModel>, e: EntryModel)
    requires
        ids_differ(s.all),
        merged(s.all, more).len() <= usize::MAX,
    ensures
        s.appended(more).all.contains(e) <==> is_last_given(s.all + more, e),
{
    lemma_merged_holds(s.all, more, e);
    lemma_sorted_holds(merged(s.all, more), e);
}

proof fn lemma_all_listed(all: Seq<EntryModel>, cwd: Option<Seq<char>>)
    ensures
        listed(all, true, cwd, Tab::All) == all,
    decreases all.len(),
{
    if all.len() > 0 {
        lemma_all_listed(all.drop_last(), cwd);
        assert(all.drop_last().push(all.last()) =~= all);
    }
}

/// Where all sessions are shown, each one that was given is listed once, with the entry given last
/// for it, and no other is.
pub proof fn law_last_given_is_listed(s: PickerModel, more: Seq<EntryModel>, e: EntryModel)
    requires
        s.show_all,
        s.tab == Tab::All,
        ids_differ(s.all),
        merged(s.all, more).len() <= usize::MAX,
    ensures
        s.appended(more).filtered.contains(e) <==> is_last_given(s.all + more, e),
        ids_differ(s.appended(more).filtered),
{
    law_last_given_is_kept(s, more, e);
    law_no_session_twice(s, more);
    lemma_all_listed(s.appended(more).all, s.cwd);
}

/// Where all sessions are shown, the selected one stays selected, wherever it moves.
pub proof fn law_selection_moves_along(s: PickerModel, more: Seq<EntryModel>)
    requires
        s.show_all,
        s.tab == Tab::All,
        ids_differ(s.all),
        s.filtered == s.all,
        merged(s.all, more).len() < usize::MAX,
        s.chosen() is Some,
    ensures
        s.appended(more).chosen() is Some,
        s.appended(more).chosen()->0.id == s.chosen()->0.id,
{
    let given = s.all + more;
    let id = s.chosen()->0.id;
    let after = s.appended(more);
    lemma_last_with_id(given, id);
    assert(given[s.selected->0 - 1].id == id);
    let e = given[last_with_id(given, id)->0];
    law_last_given_is_listed(s, more, e);
    let i = choose|i: int| 0 <= i < after.filtered.len() && after.filtered[i] == e;
    let some_order = law_order_exists(mtimes(merged(s.all, more)), true);
    let o = choose|o: Seq<usize>| is_order(mtimes(merged(s.all, more)), true, o);
    assert(is_order(mtimes(merged(s.all, more)), true, o));
    lemma_all_listed(after.all, s.cwd);
    law_selection_stays(s, more, i);
}

/// The line that starts a new session stays selected when more sessions come.
pub proof fn law_first_line_stays(s: PickerModel, more: Seq<EntryModel>)
    requires
        s.selected == Some(0usize),
    ensures
        s.appended(more).selected == Some(0usize),
{
}

/// Moving about never leaves the list.
pub proof fn law_stays_in_list(s: PickerModel)
    requires
        s.line() <= s.filtered.len() <= usize::MAX,
    ensures
        s.down().line() <= s.filtered.len(),
        s.up().line() <= s.filtered.len(),
        s.half_down().line() <= s.filtered.len(),
        s.half_up().line() <= s.filtered.len(),
        s.at_line(s.filtered.len() as int).line() == s.filtered.len(),
{
}

/// Going up undoes going down, except on the last line.
pub proof fn law_up_undoes_down(s: PickerModel)
    requires
        s.selected is Some,
        s.line() < s.filtered.len() <= usize::MAX,
    ensures
        s.down().up() == s,
{
}

/// The tab to the left of the one to the right is the same one, and three tabs further is the same
/// one too.
pub proof fn law_tabs_in_a_ring(tab: Tab)
    ensures
        tab.next().prev() == tab,
        tab.prev().next() == tab,
        tab.next().next().next() == tab,
{
}

/// An entry of the right directory is listed on the tab of all sessions, and on the tab of its own
/// provider, and on no other.
pub proof fn law_tab_lists_its_provider(e: EntryModel, cwd: Option<Seq<char>>)
    ensures
        is_listed(e, true, cwd, Tab::All),
        is_listed(e, true, cwd, Tab::Cursor) <==> e.provider == ProviderKind::Cursor,
        is_listed(e, true, cwd, Tab::Claude) <==> e.provider == ProviderKind::Claude,
{
}

/// Where not all sessions are shown, those of another directory are listed on no tab, and those of
/// the directory as if all were shown. Where no directory is known, all are shown.
pub proof fn law_directory_is_a_filter(e: EntryModel, cwd: Seq<char>, tab: Tab)
    ensures
        e.workspace_path is None ==> !is_listed(e, false, Some(cwd), tab),
        e.workspace_path is Some && !same_path(e.workspace_path->0, cwd) ==> !is_listed(
            e,
            false,
            Some(cwd),
            tab,
        ),
        e.workspace_path is Some && same_path(e.workspace_path->0, cwd) ==> is_listed(
            e,
            false,
            Some(cwd),
            tab,
        ) == is_listed(e, true, Some(cwd), tab),
        is_listed(e, false, None, tab) == is_listed(e, true, None, tab),
        is_listed(e, true, Some(cwd), tab) == is_listed(e, true, None, tab),
{
}

/// What is listed of two parts is listed of the whole, in the same order.
pub proof fn law_listed_in_order(
    a: Seq<EntryModel>,
    b: Seq<EntryModel>,
    show_all: bool,
    cwd: Option<Seq<char>>,
    tab: Tab,
)
    ensures
        listed(a + b, show_all, cwd, tab) == listed(a, show_all, cwd, tab) + listed(
            b,
            show_all,
            cwd,
            tab,
        ),
    decreases b.len(),
{
    if b.len() == 0 {
        assert(a + b =~= a);
        assert(listed(a, show_all, cwd, tab) + listed(b, show_all, cwd, tab) =~= listed(
            a,
            show_all,
            cwd,
            tab,
        ));
    } else {
        law_listed_in_order(a, b.drop_last(), show_all, cwd, tab);
        assert((a + b).drop_last() =~= a + b.drop_last());
        assert((a + b).last() == b.last());
        assert(listed(a + b, show_all, cwd, tab) =~= listed(a, show_all, cwd, tab) + listed(
            b,
            show_all,
            cwd,
            tab,
        ));
    }
}

/// On a provider's tab, Ctrl-T, and Enter on the first line, ask for a new session of the provider
/// whose entries that tab lists: an entry passes the tab's filter exactly when it is of that
/// provider. Nothing in the list changes.
pub proof fn law_new_session_of_the_tab(s: PickerModel, key: Key, now_ms: u64)
    requires
        s.tab != Tab::All,
        key.press,
        (key.code == KeyCode::Char('t') && key.ctrl) || (key.code == KeyCode::Enter && s.selected
            == Some(0usize)),
    ensures
        picker_key(s, key, now_ms).0 == s,
        picker_key(s, key, now_ms).1 is NewSession,
        forall|e: EntryModel|
            #[trigger] is_listed(e, true, s.cwd, s.tab) <==> e.provider == picker_key(
                s,
                key,
                now_ms,
            ).1->NewSession_0,
        s.tab == Tab::Cursor ==> picker_key(s, key, now_ms).1->NewSession_0 == ProviderKind::Cursor,
        s.tab == Tab::Claude ==> picker_key(s, key, now_ms).1->NewSession_0 == ProviderKind::Claude,
{
}

/// On the tab of all sessions no new session is started: the user is told to choose a provider, and
/// nothing else changes.
pub proof fn law_no_new_session_without_provider(s: PickerModel, key: Key, now_ms: u64)
    requires
        s.tab == Tab::All,
        key.press,
        (key.code == KeyCode::Char('t') && key.ctrl) || (key.code == KeyCode::Enter && s.selected
            == Some(0usize)),
    ensures
        picker_key(s, key, now_ms).0 == (PickerModel {
            flash: Some(("Select a provider tab first"@, now_ms)),
            ..s
        }),
        picker_key(s, key, now_ms).1 is Nothing,
{
}

/// Enter and Ctrl-Y on a session's line take that session: the one that is as far down the list as
/// its line is below the first.
pub proof fn law_selected_session_is_taken(s: PickerModel, line: usize, now_ms: u64)
    requires
        s.selected == Some(line),
        0 < line <= s.filtered.len(),
    ensures
        picker_key(
            s,
            (Key { code: KeyCode::Enter, ctrl: false, press: true }),
            now_ms,
        ) == (s, PickerActionModel::Select(s.filtered[line - 1])),
        picker_key(
            s,
            (Key { code: KeyCode::Char('y'), ctrl: true, press: true }),
            now_ms,
        ) == (s, PickerActionModel::OpenAndResume(s.filtered[line - 1])),
{
}

/// Where no session is selected, Ctrl-Y takes none and says so; Enter takes none and leaves the
/// list, unless the first line is selected.
pub proof fn law_no_session_is_taken(s: PickerModel, now_ms: u64)
    requires
        s.selected is None || s.selected == Some(0usize) || s.selected->0 > s.filtered.len(),
    ensures
        picker_key(
            s,
            (Key { code: KeyCode::Char('y'), ctrl: true, press: true }),
            now_ms,
        ) == (
            (PickerModel { flash: Some(("Select an entry first"@, now_ms)), ..s }),
            PickerActionModel::Nothing,
        ),
        s.selected != Some(0usize) ==> picker_key(
            s,
            (Key { code: KeyCode::Enter, ctrl: false, press: true }),
            now_ms,
        ) == (s, PickerActionModel::Quit),
{
}

/// Esc and `q` leave the list, and Ctrl-F asks for all sessions or for fewer; the list itself stays
/// as it is.
pub proof fn law_leaving_and_widening(s: PickerModel, ctrl: bool, now_ms: u64)
    ensures
        picker_key(s, (Key { code: KeyCode::Esc, ctrl, press: true }), now_ms) == (
            s,
            PickerActionModel::Quit,
        ),
        picker_key(s, (Key { code: KeyCode::Char('q'), ctrl, press: true }), now_ms) == (
            s,
            PickerActionModel::Quit,
        ),
        picker_key(s, (Key { code: KeyCode::Char('f'), ctrl: true, press: true }), now_ms) == (
            s,
            PickerActionModel::ToggleShowAll,
        ),
{
}

/// Whether a key goes one line down.
pub open spec fn goes_down(key: Key) -> bool {
    key.press && (key.code == KeyCode::Down || key.code == KeyCode::Char('j') || (key.code
        == KeyCode::Char('n') && key.ctrl))
}

/// Whether a key goes one line up.
pub open spec fn goes_up(key: Key) -> bool {
    key.press && (key.code == KeyCode::Up || key.code == KeyCode::Char('k') || (key.code
        == KeyCode::Char('p') && key.ctrl))
}

/// The arrows, `j` and `k`, and Ctrl-N and Ctrl-P go one line on or back, and stay at the ends.
pub proof fn law_line_by_line(s: PickerModel, key: Key, line: usize, now_ms: u64)
    requires
        s.selected == Some(line),
        s.filtered.len() <= usize::MAX,
    ensures
        goes_down(key) && line < s.filtered.len() ==> picker_key(s, key, now_ms) == (
            (PickerModel { selected: Some((line + 1) as usize), ..s }),
            PickerActionModel::Nothing,
        ),
        goes_down(key) && line >= s.filtered.len() ==> picker_key(s, key, now_ms) == (
            s,
            PickerActionModel::Nothing,
        ),
        goes_up(key) && line > 0 ==> picker_key(s, key, now_ms) == (
            (PickerModel { selected: Some((line - 1) as usize), ..s }),
            PickerActionModel::Nothing,
        ),
        goes_up(key) && line == 0 ==> picker_key(s, key, now_ms) == (s, PickerActionModel::Nothing),
{
}

/// `g` goes to the first line and `G` to the last.
pub proof fn law_to_the_ends(s: PickerModel, ctrl: bool, now_ms: u64)
    requires
        s.filtered.len() <= usize::MAX,
    ensures
        picker_key(s, (Key { code: KeyCode::Char('g'), ctrl, press: true }), now_ms) == (
            (PickerModel { selected: Some(0usize), ..s }),
            PickerActionModel::Nothing,
        ),
        picker_key(s, (Key { code: KeyCode::Char('G'), ctrl, press: true }), now_ms) == (
            (PickerModel { selected: Some(s.filtered.len() as usize), ..s }),
            PickerActionModel::Nothing,
        ),
{
}

/// Ctrl-D and Ctrl-U go half as many sessions on or back as fit on the screen, of three lines each
/// and at least one, but not beyond the ends; the screen moves as far.
pub proof fn law_half_a_screen(s: PickerModel, line: usize, now_ms: u64)
    requires
        s.selected == Some(line),
        line <= s.filtered.len() <= usize::MAX,
        s.offset <= usize::MAX - 10_922,
    ensures
        ({
            let half = if s.list_height < 12 {
                1int
            } else {
                s.list_height as int / 3 / 2
            };
            let (down, told) = picker_key(
                s,
                (Key { code: KeyCode::Char('d'), ctrl: true, press: true }),
                now_ms,
            );
            let (up, said) = picker_key(
                s,
                (Key { code: KeyCode::Char('u'), ctrl: true, press: true }),
                now_ms,
            );
            &&& told is Nothing && said is Nothing
            &&& down.selected is Some && up.selected is Some
            &&& line + half <= s.filtered.len() ==> down.selected->0 == line + half
            &&& line + half > s.filtered.len() ==> down.selected->0 == s.filtered.len()
            &&& line >= half ==> up.selected->0 == line - half
            &&& line < half ==> up.selected->0 == 0
            &&& down.offset == s.offset + half
            &&& s.offset >= half ==> up.offset == s.offset - half
            &&& s.offset < half ==> up.offset == 0
            &&& down == (PickerModel { selected: down.selected, offset: down.offset, ..s })
            &&& up == (PickerModel { selected: up.selected, offset: up.offset, ..s })
        }),
{
}

/// To the right of all sessions are those of one provider and then those of the other, and then all
/// again. The first line of the new tab is selected, and nothing else changes.
pub proof fn law_tab_keys(s: PickerModel, key: Key, now_ms: u64)
    requires
        key.press,
    ensures
        ({
            let (next, action) = picker_key(s, key, now_ms);
            let right = key.code == KeyCode::Right || key.code == KeyCode::Tab || key.code
                == KeyCode::Char('l');
            let left = key.code == KeyCode::Left || key.code == KeyCode::Char('h');
            &&& right && s.tab == Tab::All ==> next.tab == Tab::Cursor
            &&& right && s.tab == Tab::Cursor ==> next.tab == Tab::Claude
            &&& right && s.tab == Tab::Claude ==> next.tab == Tab::All
            &&& left && s.tab == Tab::All ==> next.tab == Tab::Claude
            &&& left && s.tab == Tab::Claude ==> next.tab == Tab::Cursor
            &&& left && s.tab == Tab::Cursor ==> next.tab == Tab::All
            &&& right || left ==> action is Nothing && next == (PickerModel {
                tab: next.tab,
                selected: Some(0usize),
                filtered: listed(s.all, s.show_all, s.cwd, next.tab),
                ..s
            })
        }),
{
}

/// A key that is held or let go does nothing, and neither does one that has no meaning here.
pub proof fn law_other_keys_do_nothing(s: PickerModel, key: Key, now_ms: u64)
    requires
        !key.press || key.code == KeyCode::Other || (!key.ctrl && (key.code == KeyCode::Char('y')
            || key.code == KeyCode::Char('t') || key.code == KeyCode::Char('f') || key.code
            == KeyCode::Char('n') || key.code == KeyCode::Char('p') || key.code == KeyCode::Char('d')
            || key.code == KeyCode::Char('u'))) || (key.code is Char && !seq![
            'j',
            'k',
            'l',
            'h',
            'g',
            'G',
            'q',
            'n',
            'p',
            'f',
            'y',
            't',
            'u',
            'd',
        ].contains(key.code->Char_0)),
    ensures
        picker_key(s, key, now_ms) == (s, PickerActionModel::Nothing),
{
    if key.press && key.code is Char {
        let known = seq!['j', 'k', 'l', 'h', 'g', 'G', 'q', 'n', 'p', 'f', 'y', 't', 'u', 'd'];
        assert forall|i: int| 0 <= i < known.len() implies known.contains(#[trigger] known[i]) by {}
        assert(known[0] == 'j' && known[1] == 'k' && known[2] == 'l' && known[3] == 'h');
        assert(known[4] == 'g' && known[5] == 'G' && known[6] == 'q' && known[7] == 'n');
        assert(known[8] == 'p' && known[9] == 'f' && known[10] == 'y' && known[11] == 't');
        assert(known[12] == 'u' && known[13] == 'd');
    }
}

/// Showing all sessions empties the list until they are read; going back filters what is there.
pub proof fn law_toggling(s: PickerModel)
    ensures
        s.toggled().show_all == !s.show_all,
        s.toggled().selected == Some(0usize),
        !s.show_all ==> s.toggled().all.len() == 0 && s.toggled().filtered.len() == 0
            && s.toggled().is_loading,
        s.show_all ==> s.toggled().all == s.all && s.toggled().filtered == listed(
            s.all,
            false,
            s.cwd,
            s.tab,
        ) && !s.toggled().is_loading,
        s.toggled().tab == s.tab && s.toggled().cwd == s.cwd && s.toggled().offset == s.offset,
        s.toggled().flash == s.flash && s.toggled().list_height == s.list_height,
{
}

/// The time shown of a session is when it was last written to, as it tells itself, and else the
/// time of its file.
pub proof fn law_shown_time(e: EntryModel)
    ensures
        e.updated_at is Some ==> shown_time(e) == e.updated_at->0,
        e.updated_at is None ==> shown_time(e) == e.mtime,
{
}

/// More sessions change nothing but which there are, which are listed and which line is selected.
pub proof fn law_appending_keeps_the_rest(s: PickerModel, more: Seq<EntryModel>)
    ensures
        s.appended(more) == (PickerModel {
            all: s.appended(more).all,
            filtered: listed(s.appended(more).all, s.show_all, s.cwd, s.tab),
            selected: s.appended(more).selected,
            ..s
        }),
{
}

/// The last entry of an id is the one that no entry of that id stands behind, and the first one the
/// one that none stands before.
pub proof fn law_entries_of_an_id(all: Seq<EntryModel>, id: Seq<char>, i: int)
    requires
        0 <= i < all.len(),
        all[i].id == id,
    ensures
        (forall|j: int| i < j < all.len() ==> (#[trigger] all[j]).id != id) ==> last_with_id(all, id)
            == Some(i),
        (forall|j: int| 0 <= j < i ==> (#[trigger] all[j]).id != id) ==> first_with_id(all, id)
            == Some(i),
    decreases all.len(),
{
    let front = all.drop_last();
    lemma_first_with_id(front, id);
    if i < all.len() - 1 {
        assert(front[i] == all[i]);
        if forall|j: int| i < j < all.len() ==> (#[trigger] all[j]).id != id {
            assert(all[all.len() - 1].id != id);
            assert forall|j: int| i < j < front.len() implies (#[trigger] front[j]).id != id by {
                assert(all[j].id != id);
            }
        }
        if forall|j: int| 0 <= j < i ==> (#[trigger] all[j]).id != id {
            assert forall|j: int| 0 <= j < i implies (#[trigger] front[j]).id != id by {
                assert(all[j].id != id);
            }
        }
        law_entries_of_an_id(front, id, i);
    } else if forall|j: int| 0 <= j < i ==> (#[trigger] all[j]).id != id {
        if let Some(k) = first_with_id(front, id) {
            assert(all[k].id != id);
            assert(front[k] == all[k]);
        }
    }
}

/// An entry of a known id takes the place of the one that was there, and one of a new id comes
/// behind the others.
pub proof fn law_merging_one(all: Seq<EntryModel>, e: EntryModel, i: int)
    ensures
        0 <= i < all.len() && all[i].id == e.id && (forall|j: int|
            i < j < all.len() ==> (#[trigger] all[j]).id != e.id) ==> merged_one(all, e)
            == all.update(i, e),
        (forall|j: int| 0 <= j < all.len() ==> (#[trigger] all[j]).id != e.id) ==> merged_one(all, e)
            == all.push(e),
{
    lemma_last_with_id(all, e.id);
    if 0 <= i < all.len() && all[i].id == e.id {
        law_entries_of_an_id(all, e.id, i);
    }
}

/// Entries are taken in one after the other.
pub proof fn law_merging_in_order(all: Seq<EntryModel>, more: Seq<EntryModel>, e: EntryModel)
    ensures
        merged(all, Seq::empty()) == all,
        merged(all, more.push(e)) == merged_one(merged(all, more), e),
{
    assert(more.push(e).drop_last() =~= more);
}

/// No key changes which sessions are known, or the directory that the list goes by.
pub proof fn law_keys_keep_the_sessions(s: PickerModel, key: Key, now_ms: u64)
    ensures
        picker_key(s, key, now_ms).0.all == s.all,
        picker_key(s, key, now_ms).0.cwd == s.cwd,
        picker_key(s, key, now_ms).0.is_loading == s.is_loading,
        s.toggled().cwd == s.cwd,
{
}

} // verus!
