//! Core of a media-clip build pipeline: validated records are normalized into
//! domain records, each given a stable content identity, resolved against the
//! artifacts already on disk, driven through a downloader and a transcoder with
//! in-run failure memoization, and finally compared against the previously
//! persisted catalog to yield an added/removed diff.

mod catalog;
mod clip;
mod datetime;
mod hashing;
mod interactive;
mod maybemusic;
mod music;
mod options;
mod platform;
mod process;
mod strutil;

pub use catalog::contains_entry;
pub use catalog::diff_catalogs;
pub use catalog::filter_by_mask;
pub use catalog::OutputDiff;
pub use catalog::OutputMusic;
pub use clip::ClipBound;
pub use hashing::identity_hex;
pub use interactive::IsHidden;
pub use interactive::Prefix;
pub use maybemusic::MaybeMusic;
pub use music::check_logic;
pub use music::convert_records;
pub use music::lemma_identity_determinism;
pub use music::LogicError;
pub use music::Music;
pub use music::RejectionReason;
pub use options::build_interactive;
pub use options::select_for_processing;
pub use options::BuildAnswers;
pub use options::BuildOpt;
pub use options::CheckOpt;
pub use platform::Platform;
pub use platform::PlatformSettings;
pub use process::after_download;
pub use process::convert_args;
pub use process::download_args;
pub use process::lemma_failure_memoized;
pub use process::lemma_idempotent_rerun;
pub use process::output_filename;
pub use process::output_path;
pub use process::plan_record;
pub use process::progress_line;
pub use process::resolve;
pub use process::source_filename;
pub use process::source_path;
pub use process::EnvConf;
pub use process::GlobalStat;
pub use process::PlanKind;
pub use process::RecordPlan;
pub use process::Resolution;
pub use strutil::basename;
