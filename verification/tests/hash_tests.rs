use suimu::{ClipBound, MaybeMusic, Music, Platform};

fn raw(
    datetime: &str,
    video_type: &str,
    video_id: &str,
    clip_start: &str,
    clip_end: &str,
    status: Option<u16>,
    title: &str,
    artist: &str,
    performer: &str,
    comment: &str,
) -> MaybeMusic {
    MaybeMusic {
        datetime: datetime.to_string(),
        video_type: video_type.to_string(),
        video_id: video_id.to_string(),
        clip_start: clip_start.to_string(),
        clip_end: clip_end.to_string(),
        status,
        title: title.to_string(),
        artist: artist.to_string(),
        performer: performer.to_string(),
        comment: comment.to_string(),
    }
}

fn music(
    datetime: &str,
    video_type: Platform,
    video_id: &str,
    clip_start: Option<&str>,
    clip_end: Option<&str>,
    status: u16,
    title: &str,
    artist: &str,
    performer: &str,
    comment: &str,
) -> Music {
    Music {
        datetime: datetime.to_string(),
        video_type,
        video_id: video_id.to_string(),
        clip_start: clip_start.map(|t| ClipBound::parse(t).unwrap()),
        clip_end: clip_end.map(|t| ClipBound::parse(t).unwrap()),
        xxhash: String::new(),
        status,
        title: title.to_string(),
        artist: artist.to_string(),
        performer: performer.to_string(),
        comment: comment.to_string(),
    }
}

#[test]
fn music_test_hash_compat() {
    assert_eq!(
        music(
            "2021-06-25T22:30:00+09:00",
            Platform::YouTube,
            "ZfDYRy17CBY",
            None,
            None,
            0,
            "Bluerose",
            "星街すいせい",
            "星街すいせい",
            "",
        )
        .hash(),
        "0c2b9da9cfe08c9e"
    );

    assert_eq!(
        music(
            "2020-03-22T20:00:00+09:00",
            Platform::YouTube,
            "vQHVGXdcqEQ",
            None,
            None,
            0,
            "NEXT COLOR PLANET",
            "星街すいせい",
            "星街すいせい",
            "",
        )
        .hash(),
        "4db7f3845af9cce9"
    );
}

#[test]
fn maybemusic_test_hash_compat() {
    assert_eq!(
        raw(
            "2021-06-25T22:30:00+09:00",
            "YOUTUBE",
            "ZfDYRy17CBY",
            "",
            "",
            Some(0),
            "Bluerose",
            "星街すいせい",
            "星街すいせい",
            "",
        )
        .hash(),
        "0c2b9da9cfe08c9e"
    );

    assert_eq!(
        raw(
            "2020-03-22T20:00:00+09:00",
            "YOUTUBE",
            "vQHVGXdcqEQ",
            "",
            "",
            Some(0),
            "NEXT COLOR PLANET",
            "星街すいせい",
            "星街すいせい",
            "",
        )
        .hash(),
        "4db7f3845af9cce9"
    );

    assert_eq!(
        raw(
            "2020-01-31T19:58+09:00",
            "BILIBILI",
            "BV1U7411s7X1",
            "971.0",
            "1194.8",
            Some(0),
            "ホワイトハッピー",
            "極悪P",
            "星街すいせい",
            "",
        )
        .hash(),
        "d52a8a351014118c"
    );
}

#[test]
fn identity_ignores_comment_and_status() {
    let a = music(
        "2021-06-25T22:30:00+09:00",
        Platform::YouTube,
        "ZfDYRy17CBY",
        None,
        None,
        0,
        "Bluerose",
        "星街すいせい",
        "星街すいせい",
        "",
    );
    let b = music(
        "2021-06-25T22:30:00+09:00",
        Platform::YouTube,
        "ZfDYRy17CBY",
        None,
        None,
        7,
        "Bluerose",
        "星街すいせい",
        "星街すいせい",
        "a comment that must not matter",
    );
    assert_eq!(a.hash(), b.hash());
}

#[test]
fn identity_distinguishes_absent_from_zero_bound() {
    let absent = music(
        "2021-06-25T22:30:00+09:00",
        Platform::YouTube,
        "ZfDYRy17CBY",
        None,
        None,
        0,
        "Bluerose",
        "星街すいせい",
        "星街すいせい",
        "",
    );
    let zero = music(
        "2021-06-25T22:30:00+09:00",
        Platform::YouTube,
        "ZfDYRy17CBY",
        Some("0"),
        None,
        0,
        "Bluerose",
        "星街すいせい",
        "星街すいせい",
        "",
    );
    assert_ne!(absent.hash(), zero.hash());
}

#[test]
fn known_vector_via_normalization() {
    let m = Music::try_from(raw(
        "2020-01-31T19:58+09:00",
        "BILIBILI",
        "BV1U7411s7X1",
        "971.0",
        "1194.8",
        Some(0),
        "ホワイトハッピー",
        "極悪P",
        "星街すいせい",
        "",
    ))
    .unwrap();
    assert_eq!(m.xxhash, "d52a8a351014118c");
    assert_eq!(m.hash(), "d52a8a351014118c");
}
