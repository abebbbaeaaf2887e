use suimu::{diff_catalogs, filter_by_mask, Music, OutputMusic, Platform};

fn entry(title: &str) -> OutputMusic {
    OutputMusic {
        url: format!("https://cdn.example/{title}.m4a"),
        datetime: "2021-06-25T22:30:00+09:00".to_string(),
        title: title.to_string(),
        artist: "星街すいせい".to_string(),
        performer: "星街すいせい".to_string(),
        status: 0,
        source: format!("https://www.youtube.com/watch?v={title}"),
    }
}

#[test]
fn catalog_entry_substitutes_urls() {
    let m = Music::try_from(suimu::MaybeMusic {
        datetime: "2021-06-25T22:30:00+09:00".to_string(),
        video_type: "YOUTUBE".to_string(),
        video_id: "ZfDYRy17CBY".to_string(),
        clip_start: String::new(),
        clip_end: String::new(),
        status: Some(0),
        title: "Bluerose".to_string(),
        artist: "星街すいせい".to_string(),
        performer: "星街すいせい".to_string(),
        comment: String::new(),
    })
    .unwrap();
    let baseurl = "https://cdn.example/music/{}.{}".to_string();
    let e = OutputMusic::from(&m, &baseurl);
    assert_eq!(e.url, format!("https://cdn.example/music/{}.m4a", m.xxhash));
    assert_eq!(
        e.source,
        "https://www.youtube.com/watch?v=ZfDYRy17CBY".to_string()
    );
    assert_eq!(e.datetime, "2021-06-25T22:30:00+09:00");
    assert_eq!(e.title, "Bluerose");
    assert_eq!(e.status, 0);
    assert_eq!(m.video_type, Platform::YouTube);
}

#[test]
fn diff_reports_added_and_removed() {
    let a = entry("A");
    let b = entry("B");
    let c = entry("C");
    let previous = vec![a.duplicate(), b.duplicate()];
    let current = vec![b.duplicate(), c.duplicate()];
    let d = diff_catalogs(
        Some(&previous),
        &current,
        "2024-01-01T00:00:00+00:00".to_string(),
    )
    .unwrap();
    assert_eq!(d.added.len(), 1);
    assert!(d.added[0] == c);
    assert_eq!(d.removed.len(), 1);
    assert!(d.removed[0] == a);
    assert_eq!(d.last_updated, "2024-01-01T00:00:00+00:00");
}

#[test]
fn first_run_produces_no_diff_at_all() {
    // No previous catalog is different from an empty previous catalog:
    // with no prior state there is no diff, not an all-added one.
    let current = vec![entry("A"), entry("B")];
    assert!(diff_catalogs(None, &current, "2024-01-01T00:00:00+00:00".to_string()).is_none());

    let empty: Vec<OutputMusic> = vec![];
    let d = diff_catalogs(
        Some(&empty),
        &current,
        "2024-01-01T00:00:00+00:00".to_string(),
    )
    .unwrap();
    assert_eq!(d.added.len(), 2);
    assert_eq!(d.removed.len(), 0);
}

#[test]
fn diff_keeps_input_order() {
    let previous = vec![entry("old1"), entry("old2"), entry("old3")];
    let current = vec![entry("new1"), entry("new2")];
    let d = diff_catalogs(
        Some(&previous),
        &current,
        "2024-01-01T00:00:00+00:00".to_string(),
    )
    .unwrap();
    assert_eq!(
        d.added.iter().map(|e| e.title.clone()).collect::<Vec<_>>(),
        vec!["new1", "new2"]
    );
    assert_eq!(
        d.removed.iter().map(|e| e.title.clone()).collect::<Vec<_>>(),
        vec!["old1", "old2", "old3"]
    );
}

#[test]
fn equality_is_structural() {
    let a = entry("A");
    let mut a2 = entry("A");
    assert!(a == a2);
    a2.status = 1;
    assert!(a != a2);
}

#[test]
fn stale_entries_are_dropped_by_mask() {
    let entries = vec![entry("A"), entry("B"), entry("C")];
    let keep = vec![true, false, true];
    let kept = filter_by_mask(entries, &keep);
    assert_eq!(
        kept.iter().map(|e| e.title.clone()).collect::<Vec<_>>(),
        vec!["A", "C"]
    );
}
