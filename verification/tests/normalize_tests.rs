use suimu::{ClipBound, MaybeMusic, Music, Platform, RejectionReason};

fn base_raw() -> MaybeMusic {
    MaybeMusic {
        datetime: "2021-06-25T22:30:00+09:00".to_string(),
        video_type: "YOUTUBE".to_string(),
        video_id: "ZfDYRy17CBY".to_string(),
        clip_start: String::new(),
        clip_end: String::new(),
        status: Some(0),
        title: "Bluerose".to_string(),
        artist: "星街すいせい".to_string(),
        performer: "星街すいせい".to_string(),
        comment: String::new(),
    }
}

#[test]
fn accepts_well_formed_record() {
    let m = Music::try_from(base_raw()).unwrap();
    assert_eq!(m.datetime, "2021-06-25T22:30:00+09:00");
    assert_eq!(m.video_type, Platform::YouTube);
    assert_eq!(m.video_id, "ZfDYRy17CBY");
    assert_eq!(m.status, 0);
    assert!(m.clip_start.is_none());
    assert!(m.clip_end.is_none());
}

#[test]
fn accepts_legacy_timestamp_and_canonicalizes() {
    let mut v = base_raw();
    v.datetime = "2020-01-31T19:58+09:00".to_string();
    let m = Music::try_from(v).unwrap();
    assert_eq!(m.datetime, "2020-01-31T19:58:00+09:00");
}

#[test]
fn rejects_invalid_timestamp() {
    let mut v = base_raw();
    v.datetime = "not a date".to_string();
    assert_eq!(
        Music::try_from(v).unwrap_err(),
        RejectionReason::InvalidTimestamp
    );
}

#[test]
fn rejects_missing_status() {
    let mut v = base_raw();
    v.status = None;
    let e = Music::try_from(v).unwrap_err();
    assert_eq!(e, RejectionReason::MissingStatus);
    assert!(e.is_intentional_skip());
}

#[test]
fn rejects_blank_platform() {
    let mut v = base_raw();
    v.video_type = "   ".to_string();
    let e = Music::try_from(v).unwrap_err();
    assert_eq!(e, RejectionReason::BlankPlatform);
    assert!(e.is_intentional_skip());
}

#[test]
fn rejects_unsupported_platform() {
    let mut v = base_raw();
    v.video_type = "NICONICO".to_string();
    let e = Music::try_from(v).unwrap_err();
    assert_eq!(e, RejectionReason::UnsupportedPlatform);
    assert!(!e.is_intentional_skip());
}

#[test]
fn rejects_empty_title() {
    let mut v = base_raw();
    v.title = "   ".to_string();
    assert_eq!(Music::try_from(v).unwrap_err(), RejectionReason::EmptyTitle);
}

#[test]
fn rejects_malformed_clip_bound() {
    let mut v = base_raw();
    v.clip_start = "12a".to_string();
    assert_eq!(
        Music::try_from(v).unwrap_err(),
        RejectionReason::MalformedClipBound
    );
}

#[test]
fn trims_fields_but_keeps_comment_verbatim() {
    let mut v = base_raw();
    v.video_type = "  YOUTUBE ".to_string();
    v.video_id = " ZfDYRy17CBY  ".to_string();
    v.title = "  Bluerose ".to_string();
    v.artist = " 星街すいせい ".to_string();
    v.performer = " 星街すいせい".to_string();
    v.comment = "  kept as is  ".to_string();
    let m = Music::try_from(v).unwrap();
    assert_eq!(m.video_type, Platform::YouTube);
    assert_eq!(m.video_id, "ZfDYRy17CBY");
    assert_eq!(m.title, "Bluerose");
    assert_eq!(m.artist, "星街すいせい");
    assert_eq!(m.performer, "星街すいせい");
    assert_eq!(m.comment, "  kept as is  ");
}

#[test]
fn platform_codes_round_trip() {
    assert_eq!(Platform::from_code("TWITTER"), Some(Platform::Twitter));
    assert_eq!(Platform::from_code("BILIBILI"), Some(Platform::Bilibili));
    assert_eq!(Platform::from_code("YOUTUBE"), Some(Platform::YouTube));
    assert_eq!(Platform::from_code("youtube"), None);
    assert_eq!(Platform::Twitter.code(), "TWITTER");
    assert_eq!(Platform::Bilibili.code(), "BILIBILI");
    assert_eq!(Platform::YouTube.code(), "YOUTUBE");
}

#[test]
fn platform_registry_is_total() {
    for p in [Platform::Twitter, Platform::Bilibili, Platform::YouTube] {
        let s = p.settings();
        assert!(s.url_template.contains("{}"));
        assert!(!s.format.is_empty());
        assert!(!s.source_ext.is_empty());
    }
    let yt = Platform::YouTube.settings();
    assert_eq!(yt.url_template, "https://www.youtube.com/watch?v={}");
    assert_eq!(yt.format, "bestaudio[ext=m4a]");
    assert_eq!(yt.source_ext, "mp4");
}

#[test]
fn test_check_logic() {
    let common_dt = "2021-06-25T22:30:00+09:00";

    assert!(suimu::check_logic(&Music {
        datetime: common_dt.to_string(),
        video_type: Platform::YouTube,
        video_id: "ZfDYRy17CBY".to_string(),
        clip_end: None,
        xxhash: "".to_string(),
        status: 0,
        title: "".to_string(),
        artist: "".to_string(),
        performer: "".to_string(),
        comment: "".to_string(),

        clip_start: Some(ClipBound::parse("1.1").unwrap()),
    })
    .is_ok());

    assert!(suimu::check_logic(&Music {
        datetime: common_dt.to_string(),
        video_type: Platform::YouTube,
        video_id: "ZfDYRy17CBY".to_string(),
        xxhash: "".to_string(),
        status: 0,
        title: "".to_string(),
        artist: "".to_string(),
        performer: "".to_string(),
        comment: "".to_string(),

        clip_start: Some(ClipBound::parse("3.1").unwrap()),
        clip_end: Some(ClipBound::parse("2.2").unwrap()),
    })
    .is_err());

    assert!(suimu::check_logic(&Music {
        datetime: common_dt.to_string(),
        video_type: Platform::YouTube,
        video_id: "ZfDYRy17CBY".to_string(),
        xxhash: "".to_string(),
        status: 0,
        title: "".to_string(),
        artist: "".to_string(),
        performer: "".to_string(),
        comment: "".to_string(),

        clip_start: Some(ClipBound::parse("1.1").unwrap()),
        clip_end: Some(ClipBound::parse("2.2").unwrap()),
    })
    .is_ok());
}

#[test]
fn logic_accepts_but_identity_still_built() {
    // A record can be identity-valid yet logic-invalid: normalization
    // accepts it and computes the identity; the logic check rejects it.
    let mut v = base_raw();
    v.clip_start = "3.1".to_string();
    v.clip_end = "2.2".to_string();
    let m = Music::try_from(v).unwrap();
    assert_eq!(m.xxhash.len(), 16);
    assert!(suimu::check_logic(&m).is_err());
}

#[test]
fn clip_bound_parsing_and_order() {
    assert!(ClipBound::parse("").is_none());
    assert!(ClipBound::parse(".").is_none());
    assert!(ClipBound::parse("1.2.3").is_none());
    assert!(ClipBound::parse("-1").is_none());
    assert!(ClipBound::parse("1e3").is_none());
    assert!(ClipBound::parse("971.0").is_some());
    assert!(ClipBound::parse(".5").is_some());
    assert!(ClipBound::parse("5.").is_some());

    let lt = |a: &str, b: &str| {
        ClipBound::parse(a)
            .unwrap()
            .lt(&ClipBound::parse(b).unwrap())
    };
    assert!(lt("971.0", "1194.8"));
    assert!(!lt("1194.8", "971.0"));
    assert!(lt("2", "10"));
    assert!(lt("1.1", "2.2"));
    assert!(!lt("3.1", "2.2"));
    // Equal values in different spellings are not strictly ordered.
    assert!(!lt("0.5", ".5"));
    assert!(!lt(".5", "0.5"));
    assert!(!lt("1.10", "1.1"));
    assert!(!lt("1.1", "1.10"));
    assert!(lt("1.1", "1.12"));
    assert!(lt("0.502", "0.51"));
    assert!(lt("0.5", "0.502"));
}
