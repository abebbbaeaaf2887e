//! Orchestration decisions for one record: where its artifact and source
//! live, whether anything needs doing, which argument lists the downloader
//! and the transcoder get, and how a download failure is memoized so the
//! same source is not fetched twice in one run.
//!
//! Everything here is a pure decision over plain values; the surrounding
//! binary checks the filesystem, spawns the processes and reports progress,
//! feeding the outcomes back in.

use vstd::prelude::*;

use crate::music::{spec_clip_text, Music};
use crate::platform::Platform;
use crate::strutil::{join_path, spec_subst, spec_u64_dec, subst_placeholder, u64_to_dec};
use vstd::string::StringExecFns;

verus! {

/// Run-wide configuration: the directories and the two tool executables.
pub struct EnvConf {
    pub source_dir: String,
    pub output_dir: String,
    pub youtube_dl_path: String,
    pub ffmpeg_path: String,
}

/// Extension of every produced artifact.
pub open spec fn spec_audio_ext() -> Seq<char> {
    "m4a"@
}

/// The artifact file name of a record: `identity.m4a`.
pub open spec fn spec_output_filename(m: Music) -> Seq<char> {
    m.xxhash@ + "."@ + spec_audio_ext()
}

/// The source media file name of a record: `external_id.source_ext`, with
/// the extension taken from the platform registry.
pub open spec fn spec_source_filename(m: Music) -> Seq<char> {
    m.video_id@ + "."@ + m.video_type.spec_settings().2
}

/// Returns the artifact file name of the record.
pub fn output_filename(m: &Music) -> (r: String)
    ensures
        r@ == spec_output_filename(*m),
{
    m.xxhash.clone().concat(".").concat("m4a")
}

/// Returns the source media file name of the record.
pub fn source_filename(m: &Music) -> (r: String)
    ensures
        r@ == spec_source_filename(*m),
{
    let settings = m.video_type.settings();
    m.video_id.clone().concat(".").concat(settings.source_ext.as_str())
}

/// What the artifact resolver finds for one record. The output artifact is
/// checked first: a record whose artifact exists is skipped outright, even
/// if its source has since been deleted.
#[derive(Clone, Copy, Debug, PartialEq, Eq, Structural)]
pub enum Resolution {
    /// The output artifact exists; nothing to do.
    AlreadyBuilt,
    /// The source exists but the artifact does not; convert only.
    NeedsConvertOnly,
    /// Neither exists; download, then convert.
    NeedsDownloadAndConvert,
}

/// The resolution for given artifact and source existence, artifact first.
pub open spec fn spec_resolve(output_exists: bool, source_exists: bool) -> Resolution {
    if output_exists {
        Resolution::AlreadyBuilt
    } else if source_exists {
        Resolution::NeedsConvertOnly
    } else {
        Resolution::NeedsDownloadAndConvert
    }
}

/// Resolves a record against the filesystem facts, output first.
pub fn resolve(output_exists: bool, source_exists: bool) -> (r: Resolution)
    ensures
        r == spec_resolve(output_exists, source_exists),
{
    if output_exists {
        Resolution::AlreadyBuilt
    } else if source_exists {
        Resolution::NeedsConvertOnly
    } else {
        Resolution::NeedsDownloadAndConvert
    }
}

/// The in-run failure memo: the `(platform, external id)` pairs whose
/// download has already failed during this run. Created empty at the start
/// of a run and never persisted.
pub struct GlobalStat {
    pub failed_video_items: Vec<(Platform, String)>,
}

impl GlobalStat {
    /// The memo's contents as a sequence of `(platform, id)` pairs.
    pub open spec fn spec_failed(self) -> Seq<(Platform, Seq<char>)> {
        Seq::new(
            self.failed_video_items@.len(),
            |i: int|
                (self.failed_video_items@[i].0, self.failed_video_items@[i].1@),
        )
    }

    /// Whether the memo holds the given pair.
    pub open spec fn spec_contains(self, p: Platform, id: Seq<char>) -> bool {
        exists|i: int| 0 <= i < self.spec_failed().len() && self.spec_failed()[i] == (p, id)
    }

    /// A fresh, empty memo.
    pub fn new() -> (r: GlobalStat)
        ensures
            r.spec_failed() == Seq::<(Platform, Seq<char>)>::empty(),
    {
        let r = GlobalStat { failed_video_items: Vec::new() };
        assert(r.spec_failed() =~= Seq::<(Platform, Seq<char>)>::empty());
        r
    }

    /// Whether a download for this platform and id has already failed.
    pub fn contains(&self, p: Platform, id: &String) -> (r: bool)
        ensures
            r == self.spec_contains(p, id@),
    {
        let n = self.failed_video_items.len();
        let mut i: usize = 0;
        while i < n
            invariant
                n == self.failed_video_items.len(),
                i <= n,
                forall|j: int| 0 <= j < i ==> self.spec_failed()[j] != (p, id@),
            decreases n - i,
        {
            let entry = &self.failed_video_items[i];
            if entry.0 == p && entry.1 == *id {
                assert(self.spec_failed()[i as int] == (p, id@));
                return true;
            }
            assert(self.spec_failed()[i as int] != (p, id@));
            i = i + 1;
        }
        false
    }

    /// Records a failed download for this platform and id.
    pub fn insert(&mut self, p: Platform, id: String)
        ensures
            final(self).spec_failed() == old(self).spec_failed().push((p, id@)),
    {
        let ghost before = self.spec_failed();
        self.failed_video_items.push((p, id));
        assert(self.spec_failed() =~= before.push((p, id@)));
    }
}

/// The kind of work planned for one record.
#[derive(Clone, Copy, Debug, PartialEq, Eq, Structural)]
pub enum PlanKind {
    /// The artifact already exists; no tool runs.
    SkipBuilt,
    /// A download for the same source already failed this run; no tool runs.
    SkipKnownFailure,
    /// Download the source, then convert it.
    DownloadThenConvert,
    /// The source is on disk; convert it.
    ConvertOnly,
}

/// The planned work for given filesystem facts and memo state: an existing
/// artifact wins, then a memoized failure, then the source's presence.
pub open spec fn spec_plan_kind(
    output_exists: bool,
    source_exists: bool,
    known_failed: bool,
) -> PlanKind {
    if output_exists {
        PlanKind::SkipBuilt
    } else if source_exists {
        PlanKind::ConvertOnly
    } else if known_failed {
        PlanKind::SkipKnownFailure
    } else {
        PlanKind::DownloadThenConvert
    }
}

/// Whether a plan of this kind invokes an external tool at all.
pub open spec fn plan_invokes_tools(k: PlanKind) -> bool {
    k == PlanKind::DownloadThenConvert || k == PlanKind::ConvertOnly
}

/// The downloader's argument list: format selector, explicit output path,
/// and the platform's URL template with the id substituted.
pub open spec fn spec_download_args(m: Music, source_path: Seq<char>) -> Seq<Seq<char>> {
    seq![
        "-f"@,
        m.video_type.spec_settings().1,
        "-o"@,
        source_path,
        spec_subst(m.video_type.spec_settings().0, m.video_id@),
    ]
}

/// The transcoder's argument list: input path, audio stream copied without
/// re-encoding, no video, fast-start container, the two metadata tags, the
/// optional trims, and the output path last.
pub open spec fn spec_convert_args(
    m: Music,
    source_path: Seq<char>,
    output_path: Seq<char>,
) -> Seq<Seq<char>> {
    let base = seq![
        "-i"@,
        source_path,
        "-acodec"@,
        "copy"@,
        "-movflags"@,
        "faststart"@,
        "-metadata"@,
        "title="@ + m.title@ + " / "@ + m.artist@,
        "-metadata"@,
        "artist="@ + m.performer@,
        "-vn"@,
    ];
    let with_start = if m.clip_start is Some {
        base + seq!["-ss"@, spec_clip_text(m.clip_start)]
    } else {
        base
    };
    let with_end = if m.clip_end is Some {
        with_start + seq!["-to"@, spec_clip_text(m.clip_end)]
    } else {
        with_start
    };
    with_end.push(output_path)
}

/// Builds the downloader's argument list for the record.
pub fn download_args(m: &Music, source_path: &String) -> (r: Vec<String>)
    ensures
        r.deep_view() == spec_download_args(*m, source_path@),
{
    let settings = m.video_type.settings();
    let mut r: Vec<String> = Vec::new();
    r.push("-f".to_owned());
    r.push(settings.format);
    r.push("-o".to_owned());
    r.push(source_path.clone());
    r.push(subst_placeholder(settings.url_template.as_str(), m.video_id.as_str()));
    assert(r.deep_view() =~= spec_download_args(*m, source_path@));
    r
}

/// Builds the transcoder's argument list for the record.
pub fn convert_args(m: &Music, source_path: &String, output_path: &String) -> (r: Vec<String>)
    ensures
        r.deep_view() == spec_convert_args(*m, source_path@, output_path@),
{
    let mut r: Vec<String> = Vec::new();
    r.push("-i".to_owned());
    r.push(source_path.clone());
    r.push("-acodec".to_owned());
    r.push("copy".to_owned());
    r.push("-movflags".to_owned());
    r.push("faststart".to_owned());
    r.push("-metadata".to_owned());
    r.push(
        "title=".to_owned().concat(m.title.as_str()).concat(" / ").concat(m.artist.as_str()),
    );
    r.push("-metadata".to_owned());
    r.push("artist=".to_owned().concat(m.performer.as_str()));
    r.push("-vn".to_owned());
    proof {
        reveal_strlit("");
    }
    match &m.clip_start {
        Some(cb) => {
            r.push("-ss".to_owned());
            r.push(cb.text().clone());
        },
        None => {},
    }
    match &m.clip_end {
        Some(cb) => {
            r.push("-to".to_owned());
            r.push(cb.text().clone());
        },
        None => {},
    }
    r.push(output_path.clone());
    assert(r.deep_view() =~= spec_convert_args(*m, source_path@, output_path@));
    r
}

/// The plan for one record: what to run, with the full argument lists.
pub enum RecordPlan {
    SkipBuilt,
    SkipKnownFailure,
    DownloadThenConvert { download_args: Vec<String>, convert_args: Vec<String> },
    ConvertOnly { convert_args: Vec<String> },
}

impl RecordPlan {
    /// The kind of work this plan stands for.
    pub open spec fn kind(self) -> PlanKind {
        match self {
            RecordPlan::SkipBuilt => PlanKind::SkipBuilt,
            RecordPlan::SkipKnownFailure => PlanKind::SkipKnownFailure,
            RecordPlan::DownloadThenConvert { .. } => PlanKind::DownloadThenConvert,
            RecordPlan::ConvertOnly { .. } => PlanKind::ConvertOnly,
        }
    }
}

/// The full source path of a record under the configured source directory.
pub open spec fn spec_source_path(m: Music, conf: EnvConf) -> Seq<char> {
    conf.source_dir@ + "/"@ + spec_source_filename(m)
}

/// The full output path of a record under the configured output directory.
pub open spec fn spec_output_path(m: Music, conf: EnvConf) -> Seq<char> {
    conf.output_dir@ + "/"@ + spec_output_filename(m)
}

/// Returns the full source path of the record.
pub fn source_path(m: &Music, conf: &EnvConf) -> (r: String)
    ensures
        r@ == spec_source_path(*m, *conf),
{
    let name = source_filename(m);
    join_path(conf.source_dir.as_str(), name.as_str())
}

/// Returns the full output path of the record.
pub fn output_path(m: &Music, conf: &EnvConf) -> (r: String)
    ensures
        r@ == spec_output_path(*m, *conf),
{
    let name = output_filename(m);
    join_path(conf.output_dir.as_str(), name.as_str())
}

/// Plans one record, given whether its artifact and source exist and the
/// in-run failure memo. The artifact is checked first, so an already-built
/// record is skipped without even looking at the source; a memoized failure
/// suppresses any further download for the same `(platform, id)` pair.
pub fn plan_record(
    m: &Music,
    conf: &EnvConf,
    memo: &GlobalStat,
    output_exists: bool,
    source_exists: bool,
) -> (r: RecordPlan)
    ensures
        r.kind() == spec_plan_kind(
            output_exists,
            source_exists,
            memo.spec_contains(m.video_type, m.video_id@),
        ),
        r matches RecordPlan::DownloadThenConvert { download_args: d, convert_args: c } ==> {
            &&& d.deep_view() == spec_download_args(*m, spec_source_path(*m, *conf))
            &&& c.deep_view() == spec_convert_args(
                *m,
                spec_source_path(*m, *conf),
                spec_output_path(*m, *conf),
            )
        },
        r matches RecordPlan::ConvertOnly { convert_args: c } ==> c.deep_view()
            == spec_convert_args(*m, spec_source_path(*m, *conf), spec_output_path(*m, *conf)),
{
    if output_exists {
        return RecordPlan::SkipBuilt;
    }
    let src = source_path(m, conf);
    let out = output_path(m, conf);
    if source_exists {
        return RecordPlan::ConvertOnly { convert_args: convert_args(m, &src, &out) };
    }
    if memo.contains(m.video_type, &m.video_id) {
        return RecordPlan::SkipKnownFailure;
    }
    RecordPlan::DownloadThenConvert {
        download_args: download_args(m, &src),
        convert_args: convert_args(m, &src, &out),
    }
}

/// Feeds a download outcome back into the run: a failure is memoized for
/// the record's `(platform, id)` pair and the record's conversion is
/// abandoned; a success leaves the memo alone and lets the record proceed.
pub fn after_download(memo: &mut GlobalStat, m: &Music, success: bool) -> (proceed: bool)
    ensures
        proceed == success,
        success ==> final(memo).spec_failed() == old(memo).spec_failed(),
        !success ==> final(memo).spec_failed() == old(memo).spec_failed().push(
            (m.video_type, m.video_id@),
        ),
{
    if !success {
        memo.insert(m.video_type, m.video_id.clone());
    }
    success
}

/// The progress line printed when the record at position `idx` (counting
/// from zero) of `total` starts processing: ordinals are one-based and
/// strictly increasing, so wrapping tools can follow the run.
pub fn progress_line(idx: usize, total: usize) -> (r: String)
    requires
        idx < total,
    ensures
        r@ == "======== Building "@ + spec_u64_dec((idx + 1) as nat) + " / "@ + spec_u64_dec(
            total as nat,
        ) + " ========"@,
{
    let head = "======== Building ".to_owned();
    let ord = u64_to_dec((idx as u64) + 1);
    let tot = u64_to_dec(total as u64);
    head.concat(ord.as_str()).concat(" / ").concat(tot.as_str()).concat(" ========")
}

/// An already-built artifact short-circuits the whole pipeline: whatever
/// the source's state and whatever the memo holds, the plan runs no tool.
/// Rerunning a finished build against an unchanged record set and
/// filesystem therefore invokes the downloader and the transcoder zero
/// times: every record's artifact exists, so every plan is a skip.
pub proof fn lemma_idempotent_rerun(
    outputs_exist: Seq<bool>,
    sources_exist: Seq<bool>,
    known_failed: Seq<bool>,
)
    requires
        forall|i: int| 0 <= i < outputs_exist.len() ==> #[trigger] outputs_exist[i],
    ensures
        forall|i: int|
            0 <= i < outputs_exist.len() && i < sources_exist.len() && i < known_failed.len()
                ==> !plan_invokes_tools(
                #[trigger] spec_plan_kind(outputs_exist[i], sources_exist[i], known_failed[i]),
            ),
{
}

/// Failure memoization: once a download failure is recorded for a record's
/// `(platform, id)` pair, any later record for the same pair whose artifact
/// and source are still absent is planned as a skip, not as another
/// download.
pub proof fn lemma_failure_memoized(
    memo: GlobalStat,
    memo2: GlobalStat,
    failed: Music,
    later: Music,
)
    requires
        memo2.spec_failed() == memo.spec_failed().push((failed.video_type, failed.video_id@)),
        later.video_type == failed.video_type,
        later.video_id@ == failed.video_id@,
    ensures
        memo2.spec_contains(later.video_type, later.video_id@),
        spec_plan_kind(false, false, memo2.spec_contains(later.video_type, later.video_id@))
            == PlanKind::SkipKnownFailure,
{
    let n = memo.spec_failed().len();
    assert(memo2.spec_failed()[n as int] == (later.video_type, later.video_id@));
}

} // verus!
