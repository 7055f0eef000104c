use agt::index::refresh::{plan_read, sort_paths, ReadPlan, Refresh, REFRESH_BATCH_SIZE};
use agt::index::row::{
    entry_from_row, is_hit, lookup_cached_batch, lookup_query, system_time_to_parts, upsert,
    ScannedPath, StoredRow,
};
use agt::providers::{
    recency_priority, Moment, ProviderKind, ProviderNames, TranscriptCacheKey,
    TranscriptEntry,
};

fn names() -> ProviderNames {
    ProviderNames { claude: "alpha".to_string() }
}

fn entry(id: &str) -> TranscriptEntry {
    TranscriptEntry {
        path: format!("/t/{id}.jsonl"),
        id: id.to_string(),
        title: "Test".to_string(),
        mtime: Moment { secs: 1_700_000_000, nanos: 5 },
        updated_at: None,
        size: None,
        last_user_message: None,
        message_count: 1,
        workspace_path: None,
        provider: ProviderKind::Claude,
    }
}

fn scanned(id: &str, mtime: Moment) -> ScannedPath {
    ScannedPath {
        path: format!("/t/{id}.jsonl"),
        key: TranscriptCacheKey::Mtime(mtime),
        priority: recency_priority(mtime),
        provider: 0,
    }
}

/// Rows that were stored, and how often sessions were read.
struct Index {
    rows: Vec<StoredRow>,
    reads: usize,
}

impl Index {
    fn row(r: &StoredRow) -> StoredRow {
        StoredRow {
            path: r.path.clone(),
            provider: r.provider.clone(),
            id: r.id.clone(),
            title: r.title.clone(),
            mtime_secs: r.mtime_secs,
            mtime_nanos: r.mtime_nanos,
            last_user_message: r.last_user_message.clone(),
            message_count: r.message_count,
            workspace_path: r.workspace_path.clone(),
            updated_at_ms: r.updated_at_ms,
            size: r.size,
        }
    }

    fn refresh(&mut self, path: ScannedPath) {
        self.reads = 0;
        let rows = self.rows.iter().map(Index::row).collect();
        let chunk = vec![path];
        let cached = lookup_cached_batch(&chunk, rows, &names());
        let plan = plan_read(&chunk[0], &cached);
        if !matches!(plan, ReadPlan::Cached(_)) {
            self.reads += 1;
        }
        if plan.needs_upsert() {
            let row = upsert(&entry("session"), chunk[0].key, &names());
            self.rows.retain(|r| r.path != row.path);
            self.rows.push(row);
        }
    }
}

#[test]
fn second_refresh_uses_cache() {
    let t = Moment { secs: 1_700_000_000, nanos: 5 };
    let mut index = Index { rows: vec![], reads: 0 };
    index.refresh(scanned("session", t));
    assert_eq!(index.reads, 1, "first refresh reads");

    // Same file, same mtime — second refresh must hit the cache.
    index.refresh(scanned("session", t));
    assert_eq!(index.reads, 0, "second refresh with same mtime should not re-read");
}

#[test]
fn changed_mtime_triggers_reread() {
    let mut index = Index { rows: vec![], reads: 0 };
    index.refresh(scanned("session", Moment { secs: 1_700_000_000, nanos: 5 }));

    index.refresh(scanned("session", Moment { secs: 1_700_000_000, nanos: 10_000_005 }));
    assert_eq!(index.reads, 1, "changed mtime should trigger re-read");
}

#[test]
fn a_session_that_is_written_is_read_again() {
    let t = Moment { secs: 1_700_000_000, nanos: 5 };
    let mut index = Index { rows: vec![], reads: 0 };
    index.refresh(scanned("session", t));
    index.refresh(ScannedPath { priority: 0, ..scanned("session", t) });
    assert_eq!(index.reads, 1);
}

#[test]
fn a_row_gives_its_entry_back() {
    let mut e = entry("session");
    e.updated_at = Some(Moment { secs: 1_700_000_001, nanos: 250_000_000 });
    e.size = Some(77);
    e.workspace_path = Some("/w".to_string());
    e.provider = ProviderKind::Cursor;
    let key = TranscriptCacheKey::Size(77);
    let row = upsert(&e, key, &names());
    assert_eq!(row.updated_at_ms, Some(1_700_000_001_250));
    assert_eq!(row.provider, "cursor");
    assert!(is_hit(&row, key));
    assert!(!is_hit(&row, TranscriptCacheKey::Size(78)));
    assert_eq!(entry_from_row(row, &names()), e);
}

#[test]
fn times_before_the_epoch_count_as_it() {
    assert_eq!(system_time_to_parts(Moment { secs: 7, nanos: 8 }), (7, 8));
    assert_eq!(system_time_to_parts(Moment { secs: -7, nanos: 8 }), (0, 0));
}

#[test]
fn one_query_asks_for_many() {
    let q = lookup_query(3);
    assert!(q.ends_with("FROM transcripts WHERE path IN (?,?,?)"), "{q}");
    assert!(q.starts_with("SELECT path, provider, id, title, "), "{q}");
}

#[test]
fn paths_are_read_in_their_order() {
    let at = |id: &str, priority: i64| ScannedPath {
        priority,
        ..scanned(id, Moment { secs: 1, nanos: 0 })
    };
    let sorted = sort_paths(&vec![at("a", -1), at("b", 0), at("c", -5), at("d", -1)]);
    let ids: Vec<&str> = sorted.iter().map(|p| p.path.as_str()).collect();
    assert_eq!(ids, vec!["/t/c.jsonl", "/t/a.jsonl", "/t/d.jsonl", "/t/b.jsonl"]);
}

#[test]
fn results_are_shown_in_order_and_in_batches() {
    let total = REFRESH_BATCH_SIZE + 3;
    let mut r = Refresh::new(total);
    let mut shown: Vec<String> = Vec::new();
    let mut batches = 0;
    for i in (0..total).rev() {
        let result = if i == 1 { None } else { Some(entry(&i.to_string())) };
        for batch in r.receive(i, result) {
            assert_eq!(batch.len(), REFRESH_BATCH_SIZE);
            batches += 1;
            shown.extend(batch.into_iter().map(|e| e.id));
        }
    }
    assert_eq!(batches, 1);
    shown.extend(r.finish().unwrap().into_iter().map(|e| e.id));
    let wanted: Vec<String> = (0..total).filter(|i| *i != 1).map(|i| i.to_string()).collect();
    assert_eq!(shown, wanted);
    assert!(Refresh::new(0).finish().is_none());
}

#[test]
fn a_time_outside_the_calendar_is_left_out() {
    let time = |ms: i64| {
        let mut row = upsert(&entry("session"), TranscriptCacheKey::Size(1), &names());
        row.updated_at_ms = Some(ms);
        entry_from_row(row, &names()).updated_at
    };
    assert_eq!(time(-1), Some(Moment { secs: -1, nanos: 999_000_000 }));
    let last = 8_210_266_876_799;
    assert_eq!(time(last * 1000 + 999), Some(Moment { secs: last, nanos: 999_000_000 }));
    assert_eq!(time(last * 1000 + 1000), None);
    let first = -8_334_601_228_800;
    assert_eq!(time(first * 1000), Some(Moment { secs: first, nanos: 0 }));
    assert_eq!(time(first * 1000 - 1), None);
}

#[test]
fn a_known_path_is_found_however_it_is_written() {
    let t = Moment { secs: 1_700_000_000, nanos: 5 };
    let chunk = vec![scanned("session", t)];
    let row = upsert(&entry("session"), chunk[0].key, &names());
    let cached = lookup_cached_batch(&chunk, vec![row], &names());
    let other = ScannedPath { path: "/t//session.jsonl".to_string(), ..scanned("session", t) };
    assert!(matches!(plan_read(&other, &cached), ReadPlan::Cached(_)));
    let none = ScannedPath { path: "t/session.jsonl".to_string(), ..scanned("session", t) };
    assert!(matches!(plan_read(&none, &cached), ReadPlan::Read));
}
