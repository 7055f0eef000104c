//! Which sessions are listed, and which one is selected.
use crate::geometry::{greater, lesser};
use crate::index::refresh::entry_views;
use crate::order::{is_order, law_one_order, order_of};
use crate::paths::{is_same_path, same_path};
use crate::providers::{EntryModel, Moment, ProviderKind, ProviderNames, TranscriptEntry};
use crate::text::{capitalize, capitalized, same_text};
use crate::tree::text_opt;
use vstd::prelude::*;
use vstd::string::*;

verus! {

broadcast use vstd::string::group_string_axioms;

/// Which provider's sessions are listed.
#[derive(Clone, Copy, Debug, PartialEq, Eq, Structural)]
pub enum Tab {
    All,
    Cursor,
    Claude,
}

impl Tab {
    /// The tab's name.
    pub open spec fn named(self, names: ProviderNames) -> Seq<char> {
        match self {
            Tab::All => "All"@,
            Tab::Cursor => "Cursor"@,
            Tab::Claude => capitalized(names.claude@),
        }
    }

    /// The tab's name.
    pub fn label(self, names: &ProviderNames) -> (r: String)
        ensures
            r@ == self.named(*names),
    {
        match self {
            Tab::All => "All".to_owned(),
            Tab::Cursor => "Cursor".to_owned(),
            Tab::Claude => capitalize(names.claude.as_str()),
        }
    }

    /// The tab to the right; behind the last one comes the first.
    pub open spec fn next(self) -> Tab {
        match self {
            Tab::All => Tab::Cursor,
            Tab::Cursor => Tab::Claude,
            Tab::Claude => Tab::All,
        }
    }

    /// The tab to the left; before the first one comes the last.
    pub open spec fn prev(self) -> Tab {
        match self {
            Tab::All => Tab::Claude,
            Tab::Cursor => Tab::All,
            Tab::Claude => Tab::Cursor,
        }
    }
}

/// A message that is shown for a while.
#[derive(Debug, PartialEq)]
pub struct Flash {
    pub message: String,
    /// When it came up, on a clock of milliseconds.
    pub since_ms: u64,
}

/// What a flash holds.
pub open spec fn flash_model(f: Option<Flash>) -> Option<(Seq<char>, u64)> {
    match f {
        Some(f) => Some((f.message@, f.since_ms)),
        None => None,
    }
}

/// How long a message is shown.
pub const FLASH_MS: u64 = 5000;

/// Whether a message has been shown for long enough.
pub open spec fn faded(since_ms: u64, now_ms: u64) -> bool {
    now_ms - since_ms >= FLASH_MS
}

/// The sessions, and what of them is listed. The first line of the list starts a new session; the
/// sessions follow from the second line on.
#[derive(Debug, PartialEq)]
pub struct PickerState {
    pub tab: Tab,
    pub all_entries: Vec<TranscriptEntry>,
    pub filtered: Vec<TranscriptEntry>,
    /// The selected line.
    pub selected: Option<usize>,
    /// The first line on the screen.
    pub offset: usize,
    pub show_all: bool,
    pub is_loading: bool,
    pub cwd: Option<String>,
    pub flash_message: Option<Flash>,
    /// The height of the list on the screen.
    pub list_height: u16,
}

/// What a `PickerState` holds.
#[verifier::ext_equal]
pub struct PickerModel {
    pub tab: Tab,
    pub all: Seq<EntryModel>,
    pub filtered: Seq<EntryModel>,
    pub selected: Option<usize>,
    pub offset: usize,
    pub show_all: bool,
    pub is_loading: bool,
    pub cwd: Option<Seq<char>>,
    pub flash: Option<(Seq<char>, u64)>,
    pub list_height: u16,
}

impl View for PickerState {
    type V = PickerModel;

    open spec fn view(&self) -> PickerModel {
        PickerModel {
            tab: self.tab,
            all: entry_views(self.all_entries@),
            filtered: entry_views(self.filtered@),
            selected: self.selected,
            offset: self.offset,
            show_all: self.show_all,
            is_loading: self.is_loading,
            cwd: text_opt(self.cwd),
            flash: flash_model(self.flash_message),
            list_height: self.list_height,
        }
    }
}

// ---------------------------------------------------------------------------
// What is listed
// ---------------------------------------------------------------------------

/// Whether an entry is listed: one of the tab's provider, and of the current directory unless all
/// are shown.
pub open spec fn is_listed(e: EntryModel, show_all: bool, cwd: Option<Seq<char>>, tab: Tab) -> bool {
    &&& show_all || cwd is None || (e.workspace_path is Some && same_path(
        e.workspace_path->0,
        cwd->0,
    ))
    &&& match tab {
        Tab::All => true,
        Tab::Cursor => e.provider == ProviderKind::Cursor,
        Tab::Claude => e.provider == ProviderKind::Claude,
    }
}

/// The entries that are listed, in order.
pub open spec fn listed(
    all: Seq<EntryModel>,
    show_all: bool,
    cwd: Option<Seq<char>>,
    tab: Tab,
) -> Seq<EntryModel>
    decreases all.len(),
{
    if all.len() == 0 {
        Seq::empty()
    } else {
        let before = listed(all.drop_last(), show_all, cwd, tab);
        if is_listed(all.last(), show_all, cwd, tab) {
            before.push(all.last())
        } else {
            before
        }
    }
}

impl PickerModel {
    /// With the list made anew.
    pub open spec fn rebuilt(self) -> PickerModel {
        PickerModel { filtered: listed(self.all, self.show_all, self.cwd, self.tab), ..self }
    }

    /// With the list made anew and its first line selected.
    pub open spec fn refiltered(self) -> PickerModel {
        PickerModel { selected: Some(0), ..self.rebuilt() }
    }

    /// On another tab.
    pub open spec fn on_tab(self, tab: Tab) -> PickerModel {
        PickerModel { tab, ..self }.refiltered()
    }

    /// With all sessions shown, or those of the directory alone.
    pub open spec fn toggled(self) -> PickerModel {
        if !self.show_all {
            PickerModel { show_all: true, all: Seq::empty(), is_loading: true, ..self }.refiltered()
        } else {
            PickerModel { show_all: false, is_loading: false, ..self }.refiltered()
        }
    }

    /// The selected line, the first one where none is.
    pub open spec fn line(self) -> int {
        match self.selected {
            Some(i) => i as int,
            None => 0,
        }
    }

    /// With a line selected.
    pub open spec fn at_line(self, line: int) -> PickerModel {
        PickerModel { selected: Some(line as usize), ..self }
    }

    /// One line further down, where there is one.
    pub open spec fn down(self) -> PickerModel {
        if self.line() < self.filtered.len() {
            self.at_line(self.line() + 1)
        } else {
            self
        }
    }

    /// One line further up, where there is one.
    pub open spec fn up(self) -> PickerModel {
        if self.line() > 0 {
            self.at_line(self.line() - 1)
        } else {
            self
        }
    }

    /// Half the number of sessions on the screen, of three lines each, but at least one.
    pub open spec fn half_page(self) -> int {
        greater(self.list_height as int / 6, 1)
    }

    /// Half a screen further up.
    pub open spec fn half_up(self) -> PickerModel {
        PickerModel {
            offset: greater(self.offset - self.half_page(), 0) as usize,
            ..self.at_line(greater(self.line() - self.half_page(), 0))
        }
    }

    /// Half a screen further down.
    pub open spec fn half_down(self) -> PickerModel {
        PickerModel {
            offset: (self.offset + self.half_page()) as usize,
            ..self.at_line(lesser(self.line() + self.half_page(), self.filtered.len() as int))
        }
    }

    /// With a message to show.
    pub open spec fn flashing(self, message: Seq<char>, now_ms: u64) -> PickerModel {
        PickerModel { flash: Some((message, now_ms)), ..self }
    }

    /// The selected session.
    pub open spec fn chosen(self) -> Option<EntryModel> {
        match self.selected {
            Some(i) => if i == 0 || i > self.filtered.len() {
                None
            } else {
                Some(self.filtered[i - 1])
            },
            None => None,
        }
    }
}

// ---------------------------------------------------------------------------
// Taking entries in
// ---------------------------------------------------------------------------

/// The last entry with an id.
pub open spec fn last_with_id(all: Seq<EntryModel>, id: Seq<char>) -> Option<int>
    decreases all.len(),
{
    if all.len() == 0 {
        None
    } else if all.last().id == id {
        Some(all.len() - 1)
    } else {
        last_with_id(all.drop_last(), id)
    }
}

/// The entries with one more; one of the same id makes room for it.
pub open spec fn merged_one(all: Seq<EntryModel>, e: EntryModel) -> Seq<EntryModel> {
    match last_with_id(all, e.id) {
        Some(i) => all.update(i, e),
        None => all.push(e),
    }
}

/// The entries with more of them.
pub open spec fn merged(all: Seq<EntryModel>, more: Seq<EntryModel>) -> Seq<EntryModel>
    decreases more.len(),
{
    if more.len() == 0 {
        all
    } else {
        merged_one(merged(all, more.drop_last()), more.last())
    }
}

/// The time that is shown of an entry.
pub open spec fn shown_time(e: EntryModel) -> Moment {
    match e.updated_at {
        Some(t) => t,
        None => e.mtime,
    }
}

/// The times by which entries are ordered: those of their files' last change.
pub open spec fn mtimes(all: Seq<EntryModel>) -> Seq<Moment> {
    all.map_values(|e: EntryModel| e.mtime)
}

/// The entries at the given places.
pub open spec fn at_places(all: Seq<EntryModel>, order: Seq<usize>) -> Seq<EntryModel> {
    order.map_values(|i: usize| all[i as int])
}

/// The entries, the newest first; those of the same time keep their order.
pub open spec fn newest_first(all: Seq<EntryModel>) -> Seq<EntryModel> {
    at_places(all, choose|order: Seq<usize>| is_order(mtimes(all), true, order))
}

/// The first entry with an id.
pub open spec fn first_with_id(all: Seq<EntryModel>, id: Seq<char>) -> Option<int>
    decreases all.len(),
{
    if all.len() == 0 {
        None
    } else {
        match first_with_id(all.drop_last(), id) {
            Some(i) => Some(i),
            None => if all.last().id == id {
                Some(all.len() - 1)
            } else {
                None
            },
        }
    }
}

impl PickerModel {
    /// The line to select once the list is another one: the first line stays selected, and so does
    /// the session that was; else the first session is.
    pub open spec fn line_after(self, filtered: Seq<EntryModel>) -> int {
        let first = if filtered.len() == 0 {
            0int
        } else {
            1int
        };
        if self.selected == Some(0usize) {
            0
        } else {
            match self.chosen() {
                Some(e) => match first_with_id(filtered, e.id) {
                    Some(i) => i + 1,
                    None => first,
                },
                None => first,
            }
        }
    }

    /// With more entries.
    pub open spec fn appended(self, more: Seq<EntryModel>) -> PickerModel {
        let next = PickerModel { all: newest_first(merged(self.all, more)), ..self }.rebuilt();
        next.at_line(self.line_after(next.filtered))
    }
}

fn position_of_last(all: &Vec<TranscriptEntry>, id: &str) -> (r: Option<usize>)
    ensures
        match r {
            Some(i) => i < all@.len() && last_with_id(entry_views(all@), id@) == Some(i as int),
            None => last_with_id(entry_views(all@), id@) is None,
        },
{
    let ghost views = entry_views(all@);
    let mut n: usize = all.len();
    assert(views.take(n as int) =~= views);
    while n > 0
        invariant
            n <= all@.len(),
            views == entry_views(all@),
            last_with_id(views, id@) == last_with_id(views.take(n as int), id@),
        decreases n,
    {
        n = n - 1;
        proof {
            assert(views.take(n + 1).drop_last() =~= views.take(n as int));
            assert(views.take(n + 1).last() == all@[n as int]@);
        }
        if same_text(all[n].id.as_str(), id) {
            return Some(n);
        }
    }
    None
}

proof fn lemma_first_found(all: Seq<EntryModel>, id: Seq<char>, k: int)
    requires
        0 <= k <= all.len(),
        first_with_id(all.take(k), id) is Some,
    ensures
        first_with_id(all, id) == first_with_id(all.take(k), id),
    decreases all.len() - k,
{
    if k == all.len() {
        assert(all.take(k) =~= all);
    } else {
        assert(all.take(k + 1).drop_last() =~= all.take(k));
        lemma_first_found(all, id, k + 1);
    }
}

fn position_of_first(all: &Vec<TranscriptEntry>, id: &str) -> (r: Option<usize>)
    ensures
        match r {
            Some(i) => i < all@.len() && first_with_id(entry_views(all@), id@) == Some(i as int),
            None => first_with_id(entry_views(all@), id@) is None,
        },
{
    let ghost views = entry_views(all@);
    let mut i: usize = 0;
    while i < all.len()
        invariant
            i <= all@.len(),
            views == entry_views(all@),
            first_with_id(views.take(i as int), id@) is None,
        decreases all@.len() - i,
    {
        proof {
            assert(views.take(i + 1).drop_last() =~= views.take(i as int));
            assert(views.take(i + 1).last() == all@[i as int]@);
        }
        if same_text(all[i].id.as_str(), id) {
            proof {
                lemma_first_found(views, id@, i + 1);
            }
            return Some(i);
        }
        i = i + 1;
    }
    assert(views.take(all@.len() as int) =~= views);
    None
}

fn sort_newest_first(all: &Vec<TranscriptEntry>) -> (r: Vec<TranscriptEntry>)
    ensures
        entry_views(r@) == newest_first(entry_views(all@)),
{
    let ghost views = entry_views(all@);
    let mut keys: Vec<Moment> = Vec::new();
    let mut i: usize = 0;
    while i < all.len()
        invariant
            i <= all@.len(),
            views == entry_views(all@),
            keys@ == mtimes(views).take(i as int),
        decreases all@.len() - i,
    {
        let ghost before = keys@;
        let key = all[i].mtime;
        keys.push(key);
        i = i + 1;
        assert(views[i - 1].mtime == key);
        assert(mtimes(views).take(i as int) =~= before.push(key));
    }
    assert(keys@ =~= mtimes(views));
    let order = order_of(&keys, true);
    let ghost chosen = choose|o: Seq<usize>| is_order(mtimes(views), true, o);
    proof {
        assert(keys@.len() == keys.len());
        law_one_order(mtimes(views), true, order@, chosen);
    }
    let mut r: Vec<TranscriptEntry> = Vec::new();
    let mut k: usize = 0;
    while k < order.len()
        invariant
            k <= order@.len(),
            views == entry_views(all@),
            keys@.len() == all@.len(),
            is_order(keys@, true, order@),
            entry_views(r@) == at_places(views, order@).take(k as int),
        decreases order@.len() - k,
    {
        let ghost before = r@;
        let e = all[order[k]].clone();
        r.push(e);
        k = k + 1;
        assert(entry_views(r@) =~= entry_views(before).push(e@));
        assert(at_places(views, order@).take(k as int) =~= at_places(views, order@).take(
            k - 1,
        ).push(e@));
    }
    assert(at_places(views, order@).take(order@.len() as int) =~= at_places(views, order@));
    r
}

fn same_workspace(path: &Option<String>, cwd: &String) -> (r: bool)
    ensures
        r == (path is Some && same_path(path->0@, cwd@)),
{
    match path {
        Some(p) => is_same_path(p.as_str(), cwd.as_str()),
        None => false,
    }
}

impl PickerState {
    /// No sessions yet, in a directory.
    pub fn new(cwd: Option<String>) -> (r: Self)
        ensures
            r@ == (PickerModel {
                tab: Tab::All,
                all: Seq::empty(),
                filtered: Seq::empty(),
                selected: Some(0),
                offset: 0,
                show_all: false,
                is_loading: true,
                cwd: text_opt(cwd),
                flash: None,
                list_height: 0,
            }),
    {
        let r = PickerState {
            tab: Tab::All,
            all_entries: Vec::new(),
            filtered: Vec::new(),
            selected: Some(0),
            offset: 0,
            show_all: false,
            is_loading: true,
            cwd,
            flash_message: None,
            list_height: 0,
        };
        assert(r@.all =~= Seq::empty());
        assert(r@.filtered =~= Seq::empty());
        r
    }

    fn rebuild_filtered(&mut self)
        ensures
            final(self)@ == old(self)@.rebuilt(),
    {
        let ghost all = entry_views(self.all_entries@);
        let ghost cwd_view = text_opt(self.cwd);
        let mut out: Vec<TranscriptEntry> = Vec::new();
        let mut i: usize = 0;
        assert(entry_views(out@) =~= Seq::empty());
        while i < self.all_entries.len()
            invariant
                i <= self.all_entries@.len(),
                *self == *old(self),
                all == entry_views(self.all_entries@),
                cwd_view == text_opt(self.cwd),
                entry_views(out@) == listed(
                    all.take(i as int),
                    self.show_all,
                    cwd_view,
                    self.tab,
                ),
            decreases self.all_entries@.len() - i,
        {
            let e = &self.all_entries[i];
            proof {
                assert(all.take(i + 1).drop_last() =~= all.take(i as int));
                assert(all.take(i + 1).last() == e@);
            }
            let here = self.show_all || match &self.cwd {
                Some(cwd) => same_workspace(&e.workspace_path, cwd),
                None => true,
            };
            let on_tab = match self.tab {
                Tab::All => true,
                Tab::Cursor => e.provider == ProviderKind::Cursor,
                Tab::Claude => e.provider == ProviderKind::Claude,
            };
            if here && on_tab {
                let ghost before = out@;
                let copy = e.clone();
                out.push(copy);
                assert(entry_views(out@) =~= entry_views(before).push(e@));
            }
            i = i + 1;
        }
        assert(all.take(all.len() as int) =~= all);
        self.filtered = out;
    }

    fn apply_filter(&mut self)
        ensures
            final(self)@ == old(self)@.refiltered(),
    {
        self.rebuild_filtered();
        self.selected = Some(0);
    }

    /// Takes entries in: those of an id that is there replace it, and the newest come first. What
    /// is selected stays so.
    pub fn append_entries(&mut self, entries: Vec<TranscriptEntry>)
        ensures
            final(self)@ == old(self)@.appended(entry_views(entries@)),
    {
        let ghost s = self@;
        let ghost more = entry_views(entries@);
        let new_chat = self.is_new_chat_selected();
        let chosen = match self.selected_entry() {
            Some(e) => Some(e.id.clone()),
            None => None,
        };
        let ghost source = entries@;
        assert(more.take(0) =~= Seq::empty());
        for entry in it: entries
            invariant
                it.seq() == source,
                more == entry_views(source),
                s == old(self)@,
                self@ == (PickerModel {
                    all: merged(s.all, more.take(it.index() as int)),
                    ..s
                }),
        {
            let ghost i = it.index() as int;
            let ghost before = self.all_entries@;
            proof {
                assert(entry == source[i]);
                assert(more.take(i + 1).drop_last() =~= more.take(i));
                assert(more.take(i + 1).last() == entry@);
            }
            match position_of_last(&self.all_entries, entry.id.as_str()) {
                Some(pos) => {
                    self.all_entries.set(pos, entry);
                    assert(entry_views(self.all_entries@) =~= entry_views(before).update(
                        pos as int,
                        entry@,
                    ));
                },
                None => {
                    self.all_entries.push(entry);
                    assert(entry_views(self.all_entries@) =~= entry_views(before).push(entry@));
                },
            }
        }
        assert(more.take(more.len() as int) =~= more);
        self.all_entries = sort_newest_first(&self.all_entries);
        self.rebuild_filtered();
        let first: usize = if self.filtered.len() == 0 {
            0
        } else {
            1
        };
        let line: usize = if new_chat {
            0
        } else {
            match &chosen {
                Some(id) => match position_of_first(&self.filtered, id.as_str()) {
                    Some(i) => i + 1,
                    None => first,
                },
                None => first,
            }
        };
        self.selected = Some(line);
    }

    /// All entries have come.
    pub fn finish_loading(&mut self)
        ensures
            final(self)@ == (PickerModel { is_loading: false, ..old(self)@ }),
    {
        self.is_loading = false;
    }

    /// Entries are to come.
    pub fn restart_loading(&mut self)
        ensures
            final(self)@ == (PickerModel { is_loading: true, ..old(self)@ }),
    {
        self.is_loading = true;
    }

    /// Whether the line that starts a new session is selected.
    pub fn is_new_chat_selected(&self) -> (r: bool)
        ensures
            r == (self@.selected == Some(0usize)),
    {
        match self.selected {
            Some(i) => i == 0,
            None => false,
        }
    }

    /// Shows all sessions, or those of the directory alone. Gives whether the list must be read
    /// anew: all sessions must, of which those of the directory are a part.
    pub fn toggle_show_all(&mut self) -> (r: bool)
        ensures
            final(self)@ == old(self)@.toggled(),
            r == !old(self)@.show_all,
    {
        self.show_all = !self.show_all;
        if self.show_all {
            self.all_entries = Vec::new();
            assert(entry_views(self.all_entries@) =~= Seq::empty());
            self.is_loading = true;
            self.apply_filter();
            true
        } else {
            self.is_loading = false;
            self.apply_filter();
            false
        }
    }

    /// Goes to a tab.
    pub fn set_tab(&mut self, tab: Tab)
        ensures
            final(self)@ == old(self)@.on_tab(tab),
    {
        self.tab = tab;
        self.apply_filter();
    }

    /// Goes to the tab to the right.
    pub fn next_tab(&mut self)
        ensures
            final(self)@ == old(self)@.on_tab(old(self)@.tab.next()),
    {
        let next = match self.tab {
            Tab::All => Tab::Cursor,
            Tab::Cursor => Tab::Claude,
            Tab::Claude => Tab::All,
        };
        self.set_tab(next);
    }

    /// Goes to the tab to the left.
    pub fn prev_tab(&mut self)
        ensures
            final(self)@ == old(self)@.on_tab(old(self)@.tab.prev()),
    {
        let prev = match self.tab {
            Tab::All => Tab::Claude,
            Tab::Cursor => Tab::All,
            Tab::Claude => Tab::Cursor,
        };
        self.set_tab(prev);
    }

    fn selected_line(&self) -> (r: usize)
        ensures
            r == self@.line(),
    {
        match self.selected {
            Some(i) => i,
            None => 0,
        }
    }

    fn half(&self) -> (r: usize)
        ensures
            r == self@.half_page(),
            r <= 10_922,
    {
        let half = (self.list_height / 6) as usize;
        if half >= 1 {
            half
        } else {
            1
        }
    }

    /// Goes one line down.
    pub fn move_down(&mut self)
        ensures
            final(self)@ == old(self)@.down(),
    {
        let line = self.selected_line();
        if line < self.filtered.len() {
            self.selected = Some(line + 1);
        }
    }

    /// Goes one line up.
    pub fn move_up(&mut self)
        ensures
            final(self)@ == old(self)@.up(),
    {
        let line = self.selected_line();
        if line > 0 {
            self.selected = Some(line - 1);
        }
    }

    /// Goes to the first line.
    pub fn move_to_top(&mut self)
        ensures
            final(self)@ == old(self)@.at_line(0),
    {
        self.selected = Some(0);
    }

    /// Goes to the last line.
    pub fn move_to_bottom(&mut self)
        ensures
            final(self)@ == old(self)@.at_line(old(self)@.filtered.len() as int),
    {
        self.selected = Some(self.filtered.len());
    }

    /// Goes half a screen up.
    pub fn move_half_page_up(&mut self)
        ensures
            final(self)@ == old(self)@.half_up(),
    {
        let half = self.half();
        let line = self.selected_line();
        self.selected = Some(
            if line >= half {
                line - half
            } else {
                0
            },
        );
        self.offset = if self.offset >= half {
            self.offset - half
        } else {
            0
        };
    }

    /// Goes half a screen down.
    pub fn move_half_page_down(&mut self)
        requires
            old(self)@.offset <= usize::MAX - 10_922,
        ensures
            final(self)@ == old(self)@.half_down(),
    {
        let half = self.half();
        let line = self.selected_line();
        let last = self.filtered.len();
        self.selected = Some(
            if line >= last || last - line <= half {
                last
            } else {
                line + half
            },
        );
        self.offset = self.offset + half;
    }

    /// Shows a message.
    pub fn set_flash(&mut self, message: &str, now_ms: u64)
        ensures
            final(self)@ == old(self)@.flashing(message@, now_ms),
    {
        self.flash_message = Some(Flash { message: message.to_owned(), since_ms: now_ms });
    }

    /// Takes the message away once it has been shown for long enough.
    pub fn tick_flash(&mut self, now_ms: u64)
        ensures
            final(self)@ == (PickerModel {
                flash: match old(self)@.flash {
                    Some((message, since)) => if faded(since, now_ms) {
                        None
                    } else {
                        Some((message, since))
                    },
                    None => None,
                },
                ..old(self)@
            }),
    {
        let gone = match &self.flash_message {
            Some(f) => now_ms >= f.since_ms && now_ms - f.since_ms >= FLASH_MS,
            None => false,
        };
        if gone {
            self.flash_message = None;
        }
    }

    /// The selected session; there is none on the line that starts a new one.
    pub fn selected_entry(&self) -> (r: Option<&TranscriptEntry>)
        ensures
            match r {
                Some(e) => self@.chosen() == Some(e@),
                None => self@.chosen() is None,
            },
    {
        match self.selected {
            Some(i) => {
                if i == 0 || i > self.filtered.len() {
                    None
                } else {
                    Some(&self.filtered[i - 1])
                }
            },
            None => None,
        }
    }
}

} // verus!
