use suimu::{
    after_download, plan_record, progress_line, resolve, EnvConf, GlobalStat, Music, Platform,
    RecordPlan, Resolution,
};

fn sample_music(platform: Platform, id: &str) -> Music {
    Music::try_from(suimu::MaybeMusic {
        datetime: "2021-06-25T22:30:00+09:00".to_string(),
        video_type: platform.code().to_string(),
        video_id: id.to_string(),
        clip_start: String::new(),
        clip_end: String::new(),
        status: Some(0),
        title: "Bluerose".to_string(),
        artist: "星街すいせい".to_string(),
        performer: "星街すいせい".to_string(),
        comment: String::new(),
    })
    .unwrap()
}

fn conf() -> EnvConf {
    EnvConf {
        source_dir: "/src".to_string(),
        output_dir: "/out".to_string(),
        youtube_dl_path: "youtube-dl".to_string(),
        ffmpeg_path: "ffmpeg".to_string(),
    }
}

#[test]
fn resolution_checks_output_first() {
    assert_eq!(resolve(true, true), Resolution::AlreadyBuilt);
    assert_eq!(resolve(true, false), Resolution::AlreadyBuilt);
    assert_eq!(resolve(false, true), Resolution::NeedsConvertOnly);
    assert_eq!(resolve(false, false), Resolution::NeedsDownloadAndConvert);
}

#[test]
fn already_built_record_is_skipped_entirely() {
    // An existing artifact wins over every other consideration: this is
    // what makes a rerun against unchanged state invoke no tool at all.
    let m = sample_music(Platform::YouTube, "ZfDYRy17CBY");
    let memo = GlobalStat::new();
    for source_exists in [false, true] {
        match plan_record(&m, &conf(), &memo, true, source_exists) {
            RecordPlan::SkipBuilt => {}
            _ => panic!("an existing artifact must skip the record"),
        }
    }
}

#[test]
fn download_args_follow_the_contract() {
    let m = sample_music(Platform::YouTube, "ZfDYRy17CBY");
    let memo = GlobalStat::new();
    match plan_record(&m, &conf(), &memo, false, false) {
        RecordPlan::DownloadThenConvert {
            download_args,
            convert_args,
        } => {
            assert_eq!(
                download_args,
                vec![
                    "-f".to_string(),
                    "bestaudio[ext=m4a]".to_string(),
                    "-o".to_string(),
                    format!("/src/ZfDYRy17CBY.mp4"),
                    "https://www.youtube.com/watch?v=ZfDYRy17CBY".to_string(),
                ]
            );
            let expected_out = format!("/out/{}.m4a", m.xxhash);
            assert_eq!(
                convert_args,
                vec![
                    "-i".to_string(),
                    "/src/ZfDYRy17CBY.mp4".to_string(),
                    "-acodec".to_string(),
                    "copy".to_string(),
                    "-movflags".to_string(),
                    "faststart".to_string(),
                    "-metadata".to_string(),
                    "title=Bluerose / 星街すいせい".to_string(),
                    "-metadata".to_string(),
                    "artist=星街すいせい".to_string(),
                    "-vn".to_string(),
                    expected_out,
                ]
            );
        }
        _ => panic!("neither file exists: a download must be planned"),
    }
}

#[test]
fn convert_args_carry_clip_trims() {
    let mut raw = suimu::MaybeMusic {
        datetime: "2020-01-31T19:58+09:00".to_string(),
        video_type: "BILIBILI".to_string(),
        video_id: "BV1U7411s7X1".to_string(),
        clip_start: "971.0".to_string(),
        clip_end: "1194.8".to_string(),
        status: Some(0),
        title: "ホワイトハッピー".to_string(),
        artist: "極悪P".to_string(),
        performer: "星街すいせい".to_string(),
        comment: String::new(),
    };
    raw.clip_start = "971.0".to_string();
    let m = Music::try_from(raw).unwrap();
    let memo = GlobalStat::new();
    match plan_record(&m, &conf(), &memo, false, true) {
        RecordPlan::ConvertOnly { convert_args } => {
            let n = convert_args.len();
            assert_eq!(&convert_args[n - 5..n - 1], &[
                "-ss".to_string(),
                "971.0".to_string(),
                "-to".to_string(),
                "1194.8".to_string(),
            ]);
            assert_eq!(convert_args[n - 1], format!("/out/{}.m4a", m.xxhash));
        }
        _ => panic!("source exists: conversion alone must be planned"),
    }
}

#[test]
fn failure_memoization_suppresses_second_download() {
    // Two records referencing the same source video: after the first
    // download fails, the second must not invoke the downloader again.
    let first = sample_music(Platform::YouTube, "ZfDYRy17CBY");
    let second = sample_music(Platform::YouTube, "ZfDYRy17CBY");
    let mut memo = GlobalStat::new();

    match plan_record(&first, &conf(), &memo, false, false) {
        RecordPlan::DownloadThenConvert { .. } => {}
        _ => panic!("first record must plan a download"),
    }
    let proceed = after_download(&mut memo, &first, false);
    assert!(!proceed);

    match plan_record(&second, &conf(), &memo, false, false) {
        RecordPlan::SkipKnownFailure => {}
        _ => panic!("second record must be skipped after the memoized failure"),
    }
}

#[test]
fn successful_download_leaves_memo_alone() {
    let m = sample_music(Platform::YouTube, "ZfDYRy17CBY");
    let mut memo = GlobalStat::new();
    let proceed = after_download(&mut memo, &m, true);
    assert!(proceed);
    assert!(memo.failed_video_items.is_empty());
    match plan_record(&m, &conf(), &memo, false, false) {
        RecordPlan::DownloadThenConvert { .. } => {}
        _ => panic!("a success must not poison the memo"),
    }
}

#[test]
fn memo_is_scoped_by_platform_and_id() {
    let failed = sample_music(Platform::YouTube, "ZfDYRy17CBY");
    let other_id = sample_music(Platform::YouTube, "vQHVGXdcqEQ");
    let other_platform = sample_music(Platform::Bilibili, "ZfDYRy17CBY");
    let mut memo = GlobalStat::new();
    after_download(&mut memo, &failed, false);
    assert!(memo.contains(Platform::YouTube, &"ZfDYRy17CBY".to_string()));
    match plan_record(&other_id, &conf(), &memo, false, false) {
        RecordPlan::DownloadThenConvert { .. } => {}
        _ => panic!("a different id must still download"),
    }
    match plan_record(&other_platform, &conf(), &memo, false, false) {
        RecordPlan::DownloadThenConvert { .. } => {}
        _ => panic!("a different platform must still download"),
    }
}

#[test]
fn progress_lines_are_one_based_and_monotonic() {
    assert_eq!(progress_line(0, 2), "======== Building 1 / 2 ========");
    assert_eq!(progress_line(1, 2), "======== Building 2 / 2 ========");
    assert_eq!(progress_line(9, 120), "======== Building 10 / 120 ========");
}

#[test]
fn member_only_records_are_not_selected() {
    let normal = sample_music(Platform::YouTube, "ZfDYRy17CBY");
    let mut member = sample_music(Platform::YouTube, "vQHVGXdcqEQ");
    member.status = 1;
    let built = sample_music(Platform::Bilibili, "BV1U7411s7X1");
    assert!(member.is_member_only());
    assert!(!normal.is_member_only());
    let musics = vec![normal, member, built];
    let exists = vec![false, false, true];
    let selected = suimu::select_for_processing(&musics, &exists);
    assert_eq!(selected, vec![0]);
}
