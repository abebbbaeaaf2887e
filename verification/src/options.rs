//! Build and check options, and the selection of the records a run must
//! actually work on. The surrounding binary parses arguments or asks the
//! questions; what the answers mean is fixed here.

use vstd::prelude::*;

use crate::music::Music;

verus! {

/// Options of a build run.
pub struct BuildOpt {
    pub csv_file: String,
    pub output_dir: String,
    pub source_dir: String,
    pub dry_run: bool,
    pub ffmpeg: String,
    pub ytdl: String,
    /// Path of the catalog to write, if one is wanted.
    pub output_json: Option<String>,
    /// Base URL for artifact URLs in the catalog; required with
    /// `output_json`.
    pub baseurl: Option<String>,
    /// Path of the diff to write; a diff is only produced when both this
    /// and `output_json` are set.
    pub output_diff: Option<String>,
}

impl BuildOpt {
    /// Bundles the build options.
    pub fn new(
        csv_file: String,
        output_dir: String,
        source_dir: String,
        dry_run: bool,
        ffmpeg: String,
        ytdl: String,
        output_json: Option<String>,
        baseurl: Option<String>,
        output_diff: Option<String>,
    ) -> (r: BuildOpt)
        ensures
            r == (BuildOpt {
                csv_file,
                output_dir,
                source_dir,
                dry_run,
                ffmpeg,
                ytdl,
                output_json,
                baseurl,
                output_diff,
            }),
    {
        BuildOpt {
            csv_file,
            output_dir,
            source_dir,
            dry_run,
            ffmpeg,
            ytdl,
            output_json,
            baseurl,
            output_diff,
        }
    }
}

/// The answers collected by the interactive prompt, as plain values: one
/// string per question, with the empty string where the question was left
/// unanswered.
pub struct BuildAnswers {
    pub csv_file: String,
    pub output_dir: String,
    pub source_dir: String,
    pub dry_run: bool,
    pub ffmpeg: String,
    pub ytdl: String,
    pub output_json: String,
    pub baseurl: String,
    pub output_diff: String,
}

/// Fixes what interactively collected answers mean as build options: the
/// three optional paths are absent exactly when their answer is the empty
/// string. The surrounding binary poses the questions and then drives the
/// build with the returned options.
pub fn build_interactive(answers: BuildAnswers) -> (r: BuildOpt)
    ensures
        r.csv_file@ == answers.csv_file@,
        r.output_dir@ == answers.output_dir@,
        r.source_dir@ == answers.source_dir@,
        r.dry_run == answers.dry_run,
        r.ffmpeg@ == answers.ffmpeg@,
        r.ytdl@ == answers.ytdl@,
        r.output_json is Some <==> answers.output_json@.len() > 0,
        r.output_json matches Some(s) ==> s@ == answers.output_json@,
        r.baseurl is Some <==> answers.baseurl@.len() > 0,
        r.baseurl matches Some(s) ==> s@ == answers.baseurl@,
        r.output_diff is Some <==> answers.output_diff@.len() > 0,
        r.output_diff matches Some(s) ==> s@ == answers.output_diff@,
{
    let output_json = if answers.output_json.as_str().is_empty() {
        None
    } else {
        Some(answers.output_json)
    };
    let baseurl = if answers.baseurl.as_str().is_empty() {
        None
    } else {
        Some(answers.baseurl)
    };
    let output_diff = if answers.output_diff.as_str().is_empty() {
        None
    } else {
        Some(answers.output_diff)
    };
    BuildOpt::new(
        answers.csv_file,
        answers.output_dir,
        answers.source_dir,
        answers.dry_run,
        answers.ffmpeg,
        answers.ytdl,
        output_json,
        baseurl,
        output_diff,
    )
}

/// Options of a check run.
pub struct CheckOpt {
    /// The tabular file to check.
    pub csv_file: String,
    /// Stop after format validation, before the content checks.
    pub format_only: bool,
    /// Print the normalized records as JSON when the check passes.
    pub json_output: bool,
}

/// Whether a record with this status and artifact state needs work:
/// member-restricted records are excluded outright, and so are records
/// whose artifact already exists.
pub open spec fn spec_needs_work(status: u16, output_exists: bool) -> bool {
    status != 1 && !output_exists
}

/// The indices of the records a run must process, in record order: those
/// not member-restricted whose artifact does not yet exist. One artifact
/// existence bit per record.
pub fn select_for_processing(musics: &Vec<Music>, output_exists: &Vec<bool>) -> (r: Vec<usize>)
    requires
        musics.len() == output_exists.len(),
    ensures
        forall|j: int|
            0 <= j < r@.len() ==> 0 <= #[trigger] r@[j] < musics@.len() && spec_needs_work(
                musics@[r@[j] as int].status,
                output_exists@[r@[j] as int],
            ),
        forall|j1: int, j2: int| 0 <= j1 < j2 < r@.len() ==> r@[j1] < r@[j2],
        forall|i: int|
            0 <= i < musics@.len() && spec_needs_work(
                musics@[i].status,
                output_exists@[i],
            ) ==> r@.contains(i as usize),
{
    let n = musics.len();
    let mut r: Vec<usize> = Vec::new();
    let mut i: usize = 0;
    while i < n
        invariant
            n == musics.len(),
            n == output_exists.len(),
            i <= n,
            forall|j: int|
                0 <= j < r@.len() ==> 0 <= #[trigger] r@[j] < i && spec_needs_work(
                    musics@[r@[j] as int].status,
                    output_exists@[r@[j] as int],
                ),
            forall|j1: int, j2: int| 0 <= j1 < j2 < r@.len() ==> r@[j1] < r@[j2],
            forall|k: int|
                0 <= k < i && spec_needs_work(musics@[k].status, output_exists@[k])
                    ==> r@.contains(k as usize),
        decreases n - i,
    {
        let ghost before = r@;
        if !musics[i].is_member_only() && !output_exists[i] {
            r.push(i);
            assert(r@[r@.len() - 1] == i);
            assert forall|k: int|
                0 <= k < i && spec_needs_work(
                    musics@[k].status,
                    output_exists@[k],
                ) implies r@.contains(k as usize) by {
                assert(before.contains(k as usize));
                let j = choose|j: int| 0 <= j < before.len() && before[j] == k as usize;
                assert(r@[j] == k as usize);
            }
            assert(r@.contains(i as usize)) by {
                assert(r@[r@.len() - 1] == i as usize);
            }
        }
        i = i + 1;
    }
    r
}

} // verus!
