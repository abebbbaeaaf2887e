//! The persisted catalog: one entry per produced artifact, and the
//! added/removed diff between the previous run's catalog and the current
//! one.
//!
//! Entry equality is structural, field by field. Diffing is skipped
//! entirely on a first run (no previous catalog), which is different from
//! diffing against an empty previous catalog.

use vstd::prelude::*;

use crate::music::Music;
use crate::process::spec_audio_ext;
use crate::strutil::{spec_subst, subst_placeholder};
use vstd::string::StringExecFns;

verus! {

/// One catalog entry: the projection of a domain record that is persisted,
/// plus the public artifact URL and the human-facing source URL.
#[derive(Debug)]
pub struct OutputMusic {
    /// Public artifact URL: the base URL with the identity and the audio
    /// extension substituted.
    pub url: String,
    /// Canonical RFC 3339 rendering of the recording timestamp.
    pub datetime: String,
    pub title: String,
    pub artist: String,
    pub performer: String,
    pub status: u16,
    /// Human-facing source URL on the record's platform.
    pub source: String,
}

/// Structural, field-wise equality of two catalog entries.
pub open spec fn om_eq(a: OutputMusic, b: OutputMusic) -> bool {
    &&& a.url@ == b.url@
    &&& a.datetime@ == b.datetime@
    &&& a.title@ == b.title@
    &&& a.artist@ == b.artist@
    &&& a.performer@ == b.performer@
    &&& a.status == b.status
    &&& a.source@ == b.source@
}

impl PartialEq for OutputMusic {
    fn eq(&self, other: &OutputMusic) -> (r: bool) {
        self.url == other.url && self.datetime == other.datetime && self.title == other.title
            && self.artist == other.artist && self.performer == other.performer && self.status
            == other.status && self.source == other.source
    }
}

impl vstd::std_specs::cmp::PartialEqSpecImpl for OutputMusic {
    open spec fn obeys_eq_spec() -> bool {
        true
    }

    open spec fn eq_spec(&self, other: &OutputMusic) -> bool {
        om_eq(*self, *other)
    }
}

impl OutputMusic {
    /// The catalog entry of a domain record: the base URL gets the identity
    /// substituted for its first placeholder and the audio extension for
    /// its second; the source URL is the platform's template with the id
    /// substituted; the remaining fields are the record's own.
    pub fn from(mu: &Music, baseurl: &String) -> (r: OutputMusic)
        ensures
            r.url@ == spec_subst(spec_subst(baseurl@, mu.xxhash@), spec_audio_ext()),
            r.datetime@ == mu.datetime@,
            r.title@ == mu.title@,
            r.artist@ == mu.artist@,
            r.performer@ == mu.performer@,
            r.status == mu.status,
            r.source@ == spec_subst(mu.video_type.spec_settings().0, mu.video_id@),
    {
        let settings = mu.video_type.settings();
        let with_hash = subst_placeholder(baseurl.as_str(), mu.xxhash.as_str());
        let url = subst_placeholder(with_hash.as_str(), "m4a");
        let source = subst_placeholder(settings.url_template.as_str(), mu.video_id.as_str());
        OutputMusic {
            url,
            datetime: mu.datetime.clone(),
            title: mu.title.clone(),
            artist: mu.artist.clone(),
            performer: mu.performer.clone(),
            status: mu.status,
            source,
        }
    }
}

impl OutputMusic {
    /// A field-identical copy of the entry.
    pub fn duplicate(&self) -> (r: OutputMusic)
        ensures
            r == *self,
    {
        OutputMusic {
            url: self.url.clone(),
            datetime: self.datetime.clone(),
            title: self.title.clone(),
            artist: self.artist.clone(),
            performer: self.performer.clone(),
            status: self.status,
            source: self.source.clone(),
        }
    }
}

/// Whether the list holds an entry structurally equal to the given one.
pub open spec fn spec_in(list: Seq<OutputMusic>, x: OutputMusic) -> bool {
    exists|i: int| 0 <= i < list.len() && om_eq(list[i], x)
}

/// Whether the list holds an entry structurally equal to the given one.
pub fn contains_entry(list: &Vec<OutputMusic>, x: &OutputMusic) -> (r: bool)
    ensures
        r == spec_in(list@, *x),
{
    let n = list.len();
    let mut i: usize = 0;
    while i < n
        invariant
            n == list.len(),
            i <= n,
            forall|j: int| 0 <= j < i ==> !om_eq(#[trigger] list@[j], *x),
        decreases n - i,
    {
        if list[i] == *x {
            return true;
        }
        i = i + 1;
    }
    false
}

/// The entries kept by a parallel mask of booleans, in order.
pub open spec fn mask_filter(s: Seq<OutputMusic>, keep: Seq<bool>) -> Seq<OutputMusic>
    decreases s.len(),
{
    if s.len() == 0 {
        Seq::empty()
    } else {
        mask_filter(s.drop_last(), keep.drop_last()) + if keep[s.len() - 1] {
            seq![s.last()]
        } else {
            Seq::empty()
        }
    }
}

/// Keeps the entries whose mask bit is set, in order. Used to drop stale
/// previous-catalog entries whose backing artifact is gone, and to keep in
/// the new catalog only records whose artifact exists: the caller supplies
/// one existence bit per entry.
pub fn filter_by_mask(entries: Vec<OutputMusic>, keep: &Vec<bool>) -> (r: Vec<OutputMusic>)
    requires
        entries.len() == keep.len(),
    ensures
        r@ == mask_filter(entries@, keep@),
{
    let n = entries.len();
    let rest = entries;
    let mut out: Vec<OutputMusic> = Vec::new();
    let mut taken: usize = 0;
    proof {
        assert(mask_filter(rest@.take(0), keep@.take(0)) =~= Seq::<OutputMusic>::empty());
    }
    while taken < n
        invariant
            n == rest.len(),
            n == keep.len(),
            taken <= n,
            out@ =~= mask_filter(rest@.take(taken as int), keep@.take(taken as int)),
        decreases n - taken,
    {
        let e = &rest[taken];
        if keep[taken] {
            out.push(e.duplicate());
        }
        proof {
            assert(rest@.take(taken + 1).drop_last() =~= rest@.take(taken as int));
            assert(keep@.take(taken + 1).drop_last() =~= keep@.take(taken as int));
            assert(rest@.take(taken + 1).last() == rest@[taken as int]);
        }
        taken = taken + 1;
    }
    proof {
        assert(rest@.take(n as int) =~= rest@);
        assert(keep@.take(n as int) =~= keep@);
    }
    out
}

/// The added/removed diff between the effective previous catalog and the
/// current one, stamped with the time it was computed.
pub struct OutputDiff {
    /// Entries of the current catalog with no structurally equal
    /// counterpart in the previous one, in current-catalog order.
    pub added: Vec<OutputMusic>,
    /// Entries of the previous catalog with no structurally equal
    /// counterpart in the current one, in previous-catalog order.
    pub removed: Vec<OutputMusic>,
    /// RFC 3339 UTC rendering of the moment the diff was computed.
    pub last_updated: String,
}

/// Diffs the current catalog against the previous one, if any: `added` are
/// current entries absent from the previous catalog, `removed` the
/// converse, each keeping its input order. On a first run — no previous
/// catalog at all — no diff is produced, which is not the same as an empty
/// previous catalog (that would mark every current entry as added).
pub fn diff_catalogs(
    previous: Option<&Vec<OutputMusic>>,
    current: &Vec<OutputMusic>,
    computed_at: String,
) -> (r: Option<OutputDiff>)
    ensures
        r is Some <==> previous is Some,
        r matches Some(d) ==> {
            &&& d.added@ == current@.filter(|x: OutputMusic| !spec_in(previous->0@, x))
            &&& d.removed@ == previous->0@.filter(|x: OutputMusic| !spec_in(current@, x))
            &&& d.last_updated@ == computed_at@
        },
{
    let prev = match previous {
        Some(p) => p,
        None => {
            return None;
        },
    };
    let mut added: Vec<OutputMusic> = Vec::new();
    let n = current.len();
    let mut i: usize = 0;
    proof {
        assert(current@.take(0).filter(|x: OutputMusic| !spec_in(prev@, x)) =~= Seq::<
            OutputMusic,
        >::empty());
    }
    while i < n
        invariant
            n == current.len(),
            i <= n,
            added@ =~= current@.take(i as int).filter(|x: OutputMusic| !spec_in(prev@, x)),
        decreases n - i,
    {
        let e = &current[i];
        if !contains_entry(prev, e) {
            added.push(e.duplicate());
        }
        proof {
            assert(current@.take(i + 1) =~= current@.take(i as int).push(current@[i as int]));
            current@.take(i as int).lemma_filter_push(
                current@[i as int],
                |x: OutputMusic| !spec_in(prev@, x),
            );
        }
        i = i + 1;
    }
    proof {
        assert(current@.take(n as int) =~= current@);
    }

    let mut removed: Vec<OutputMusic> = Vec::new();
    let pn = prev.len();
    let mut j: usize = 0;
    proof {
        assert(prev@.take(0).filter(|x: OutputMusic| !spec_in(current@, x)) =~= Seq::<
            OutputMusic,
        >::empty());
    }
    while j < pn
        invariant
            pn == prev.len(),
            n == current.len(),
            j <= pn,
            removed@ =~= prev@.take(j as int).filter(|x: OutputMusic| !spec_in(current@, x)),
        decreases pn - j,
    {
        let e = &prev[j];
        if !contains_entry(current, e) {
            removed.push(e.duplicate());
        }
        proof {
            assert(prev@.take(j + 1) =~= prev@.take(j as int).push(prev@[j as int]));
            prev@.take(j as int).lemma_filter_push(
                prev@[j as int],
                |x: OutputMusic| !spec_in(current@, x),
            );
        }
        j = j + 1;
    }
    proof {
        assert(prev@.take(pn as int) =~= prev@);
    }

    Some(OutputDiff { added, removed, last_updated: computed_at })
}

} // verus!
