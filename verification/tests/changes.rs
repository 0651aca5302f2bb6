use shinbun::cache::FeedCache;
use shinbun::changes::{changes, same_row, RowChange};
use shinbun::feeds::{Feed, FeedEntry};
use shinbun::rows::FeedRow;

fn fetched(url: &str, titles: &[&str]) -> Feed {
    Feed {
        url: url.to_string(),
        title: url.to_uppercase(),
        entries: titles
            .iter()
            .map(|t| FeedEntry {
                title: t.to_string(),
                published: None,
                text: String::new(),
                links: Vec::new(),
                media: String::new(),
                feed_title: None,
                read: false,
            })
            .collect(),
        tags: None,
    }
}

/// What is kept after `list` was applied to `kept`, by identifier.
fn apply(kept: &[FeedRow], list: Vec<RowChange>) -> Vec<FeedRow> {
    let mut kept: Vec<FeedRow> = kept.iter().cloned().collect();
    for change in list {
        match change {
            RowChange::Delete(id) => kept.retain(|row| row.id != id),
            RowChange::Write(row) => {
                kept.retain(|old| old.id != row.id);
                kept.push(row);
            }
        }
    }
    kept.sort_by_key(|row| row.id);
    kept
}

fn by_id(rows: &[FeedRow]) -> Vec<FeedRow> {
    let mut rows: Vec<FeedRow> = rows.iter().cloned().collect();
    rows.sort_by_key(|row| row.id);
    rows
}

#[test]
fn nothing_changes_where_all_is_written() {
    let mut cache = FeedCache::new();
    cache.save_feed(&fetched("a", &["x"]), 0, 1).unwrap();
    cache.save_feed(&fetched("b", &[]), 1, 1).unwrap();
    assert!(changes(&cache.rows(), &cache.rows()).is_empty());
    assert!(changes(&Vec::new(), &Vec::new()).is_empty());
}

#[test]
fn a_new_cache_is_written_whole() {
    let mut cache = FeedCache::new();
    cache.save_feed(&fetched("a", &["x"]), 0, 1).unwrap();
    cache.save_feed(&fetched("b", &[]), 1, 1).unwrap();
    let list = changes(&Vec::new(), &cache.rows());
    assert_eq!(list.len(), 2);
    assert!(list.iter().all(|c| matches!(c, RowChange::Write(_))));
    assert_eq!(apply(&[], list), by_id(&cache.rows()));
}

#[test]
fn only_the_feed_that_changed_is_written() {
    let mut cache = FeedCache::new();
    cache.save_feed(&fetched("a", &["x", "y"]), 0, 1).unwrap();
    cache.save_feed(&fetched("b", &["z"]), 1, 1).unwrap();
    let written = cache.rows();
    cache.mark_entry_read("b", "z", None).unwrap();
    let list = changes(&written, &cache.rows());
    assert_eq!(list.len(), 1);
    match &list[0] {
        RowChange::Write(row) => {
            assert_eq!(row.url, "b");
            assert!(row.entries[0].read);
        }
        RowChange::Delete(_) => panic!("a row is deleted"),
    }
    assert_eq!(apply(&written, list), by_id(&cache.rows()));
}

#[test]
fn a_feed_that_is_gone_is_deleted() {
    let mut cache = FeedCache::new();
    cache.save_feed(&fetched("a", &["x"]), 0, 1).unwrap();
    cache.save_feed(&fetched("b", &["z"]), 1, 1).unwrap();
    cache.save_feed(&fetched("c", &[]), 2, 1).unwrap();
    let written = cache.rows();
    cache.delete_feed("b").unwrap();
    let list = changes(&written, &cache.rows());
    assert_eq!(list, vec![RowChange::Delete(2)]);
    assert_eq!(apply(&written, list), by_id(&cache.rows()));
    cache.clear_all().unwrap();
    let list = changes(&written, &cache.rows());
    assert_eq!(list, vec![RowChange::Delete(1), RowChange::Delete(2), RowChange::Delete(3)]);
}

#[test]
fn an_identifier_that_is_used_again_is_written_anew() {
    let mut cache = FeedCache::new();
    cache.save_feed(&fetched("a", &["x"]), 0, 1).unwrap();
    cache.save_feed(&fetched("b", &["y", "z"]), 1, 1).unwrap();
    let written = cache.rows();
    cache.delete_feed("b").unwrap();
    cache.save_feed(&fetched("c", &["w"]), 1, 2).unwrap();
    let rows = cache.rows();
    assert_eq!(rows[1].id, 2);
    let list = changes(&written, &rows);
    assert_eq!(list.len(), 1);
    assert!(matches!(&list[0], RowChange::Write(row) if row.url == "c" && row.entries.len() == 1));
    assert_eq!(apply(&written, list), by_id(&rows));
}

#[test]
fn rows_are_the_same_when_all_they_hold_is() {
    let mut cache = FeedCache::new();
    cache.save_feed(&fetched("a", &["x", "y"]), 0, 1).unwrap();
    let row = cache.rows().remove(0);
    assert!(same_row(&row, &row.clone()));
    let mut other = row.clone();
    other.position = 7;
    assert!(!same_row(&row, &other));
    let mut other = row.clone();
    other.tags = Some("[]".to_string());
    assert!(!same_row(&row, &other));
    let mut other = row.clone();
    other.entries[1].read = true;
    assert!(!same_row(&row, &other));
    let mut other = row.clone();
    other.entries[0].published = Some(String::new());
    assert!(!same_row(&row, &other));
    let mut other = row.clone();
    other.entries.pop();
    assert!(!same_row(&row, &other));
    let mut other = row.clone();
    other.entries.swap(0, 1);
    assert!(!same_row(&row, &other));
}
