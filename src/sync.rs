//! The decisions of an index synchronisation, as a state machine. The caller
//! performs each action (a metadata request, a download, a cache read or
//! write) and hands back what came of it as the next event.
use vstd::prelude::*;
use crate::archive::Archive;
use crate::config::RepositoryRef;
use crate::entry::{check_index_file, entry_fields, index_file_outcome, index_reference, IndexReference};
use crate::error::Error;
use crate::index::opt_chars;
use crate::json::{decode_json, json_decoded};
use crate::scheme::SigningScheme;
use crate::text::str_equal;
use crate::verify::{archive_outcome, verify_and_return_json};

verus! {

/// Where a synchronisation stands.
#[derive(Debug, Clone, Copy, PartialEq, Eq, Structural)]
pub enum Phase {
    /// Nothing has been asked yet.
    Start,
    /// The archive's current ETag has been asked for.
    AwaitHead,
    /// The ETag is the cached one, and the cached index has been asked for.
    AwaitCachedIndex,
    /// The archive is being downloaded and extracted.
    AwaitArchive,
    /// The index file that the entry descriptor names is being downloaded.
    AwaitIndexFile,
    /// The synchronisation is over.
    Done,
}

/// What the caller is to do next.
pub enum Action {
    /// Ask for the archive's current ETag.
    RequestHead,
    /// Read the cached index.
    LoadCachedIndex,
    /// Download the archive and extract it.
    DownloadArchive,
    /// Download the index file at this path relative to the repository.
    DownloadIndexFile(String),
    /// Write the verified index and its archive's ETag to the cache, then use
    /// the index.
    Store { index: Vec<u8>, etag: String },
    /// Use the cached index.
    Deliver(Vec<u8>),
    /// Stop: the synchronisation failed.
    Abort(Error),
}

/// What came of the last action.
pub enum Event {
    /// The archive's ETag, if the response carried one.
    Head(Option<String>),
    /// The cached index.
    CachedIndex(Vec<u8>),
    /// The files extracted from the downloaded archive.
    ArchiveExtracted(Archive),
    /// The downloaded index file.
    IndexFile(Vec<u8>),
}

pub ghost enum ActionView {
    RequestHead,
    LoadCachedIndex,
    DownloadArchive,
    DownloadIndexFile(Seq<char>),
    Store(Seq<u8>, Seq<char>),
    Deliver(Seq<u8>),
    Abort(Error),
}

pub ghost enum EventView {
    Head(Option<Seq<char>>),
    CachedIndex(Seq<u8>),
    ArchiveExtracted(Seq<(Seq<char>, Seq<u8>)>),
    IndexFile(Seq<u8>),
}

pub ghost struct SyncView {
    pub phase: Phase,
    pub scheme: SigningScheme,
    pub verify: bool,
    pub fingerprint: Seq<u8>,
    pub cached_etag: Option<Seq<char>>,
    pub etag: Option<Seq<char>>,
    pub reference: Option<(Seq<char>, Seq<char>)>,
}

impl View for Action {
    type V = ActionView;

    open spec fn view(&self) -> ActionView {
        match self {
            Action::RequestHead => ActionView::RequestHead,
            Action::LoadCachedIndex => ActionView::LoadCachedIndex,
            Action::DownloadArchive => ActionView::DownloadArchive,
            Action::DownloadIndexFile(p) => ActionView::DownloadIndexFile(p@),
            Action::Store { index, etag } => ActionView::Store(index@, etag@),
            Action::Deliver(b) => ActionView::Deliver(b@),
            Action::Abort(e) => ActionView::Abort(*e),
        }
    }
}

impl View for Event {
    type V = EventView;

    open spec fn view(&self) -> EventView {
        match self {
            Event::Head(t) => EventView::Head(opt_chars(*t)),
            Event::CachedIndex(b) => EventView::CachedIndex(b@),
            Event::ArchiveExtracted(a) => EventView::ArchiveExtracted(a@),
            Event::IndexFile(b) => EventView::IndexFile(b@),
        }
    }
}

/// An index synchronisation of one repository under one signing scheme.
pub struct Sync {
    pub repo: RepositoryRef,
    pub scheme: SigningScheme,
    pub verify: bool,
    /// The ETag of the archive whose index the cache holds.
    pub cached_etag: Option<String>,
    /// The archive's current ETag, once known.
    pub etag: Option<String>,
    /// The index file that the entry descriptor named.
    pub reference: Option<IndexReference>,
    pub phase: Phase,
}

impl View for Sync {
    type V = SyncView;

    open spec fn view(&self) -> SyncView {
        SyncView {
            phase: self.phase,
            scheme: self.scheme,
            verify: self.verify,
            fingerprint: self.repo.fingerprint@,
            cached_etag: opt_chars(self.cached_etag),
            etag: opt_chars(self.etag),
            reference: match self.reference {
                Some(r) => Some((r.name@, r.sha256@)),
                None => None,
            },
        }
    }
}

/// Whether a synchronisation in state `s` expects event `e`.
pub open spec fn expects(s: SyncView, e: EventView) -> bool {
    match (s.phase, e) {
        (Phase::AwaitHead, EventView::Head(_)) => true,
        (Phase::AwaitCachedIndex, EventView::CachedIndex(_)) => true,
        (Phase::AwaitArchive, EventView::ArchiveExtracted(_)) => s.etag is Some,
        (Phase::AwaitIndexFile, EventView::IndexFile(_)) => s.etag is Some && s.reference is Some,
        _ => false,
    }
}

pub open spec fn done(s: SyncView) -> SyncView {
    SyncView { phase: Phase::Done, ..s }
}

/// The last step of a refresh: an index that is a JSON document is stored
/// with the archive's ETag; any other is refused.
pub open spec fn finish(s: SyncView, index: Seq<u8>) -> (SyncView, ActionView) {
    match json_decoded(index) {
        Some(_) => (done(s), ActionView::Store(index, s.etag->Some_0)),
        None => (done(s), ActionView::Abort(Error::SchemaError)),
    }
}

/// The state and action that follow event `e` in state `s`.
pub open spec fn next(s: SyncView, e: EventView) -> (SyncView, ActionView) {
    match e {
        EventView::Head(None) => (done(s), ActionView::Abort(Error::TransportError)),
        EventView::Head(Some(t)) => if s.cached_etag == Some(t) {
            (SyncView { phase: Phase::AwaitCachedIndex, etag: Some(t), ..s }, ActionView::LoadCachedIndex)
        } else {
            (SyncView { phase: Phase::AwaitArchive, etag: Some(t), ..s }, ActionView::DownloadArchive)
        },
        EventView::CachedIndex(b) => (done(s), ActionView::Deliver(b)),
        EventView::ArchiveExtracted(a) => match archive_outcome(a, s.fingerprint, s.verify, s.scheme) {
            Err(err) => (done(s), ActionView::Abort(err)),
            Ok(payload) => if s.scheme is Legacy {
                finish(s, payload)
            } else {
                match json_decoded(payload) {
                    None => (done(s), ActionView::Abort(Error::SchemaError)),
                    Some(j) => match entry_fields(j) {
                        None => (done(s), ActionView::Abort(Error::SchemaError)),
                        Some(fields) => (
                            SyncView { phase: Phase::AwaitIndexFile, reference: Some(fields), ..s },
                            ActionView::DownloadIndexFile(fields.0),
                        ),
                    },
                }
            },
        },
        EventView::IndexFile(d) => match index_file_outcome(s.reference->Some_0.1, d, s.verify) {
            Err(err) => (done(s), ActionView::Abort(err)),
            Ok(index) => finish(s, index),
        },
    }
}

fn same_etag(a: &Option<String>, b: &String) -> (r: bool)
    ensures
        r == (opt_chars(*a) == Some(b@)),
{
    match a {
        Some(s) => str_equal(s.as_str(), b.as_str()),
        None => false,
    }
}

impl Sync {
    /// A synchronisation that has asked nothing yet, given the ETag that the
    /// cache holds, if any.
    pub fn new(repo: RepositoryRef, scheme: SigningScheme, verify: bool, cached_etag: Option<String>) -> (r: Sync)
        ensures
            r@ == (SyncView {
                phase: Phase::Start,
                scheme,
                verify,
                fingerprint: repo.fingerprint@,
                cached_etag: opt_chars(cached_etag),
                etag: None,
                reference: None,
            }),
    {
        Sync { repo, scheme, verify, cached_etag, etag: None, reference: None, phase: Phase::Start }
    }

    /// The first action: a single metadata request for the archive.
    pub fn begin(&mut self) -> (r: Action)
        requires
            old(self).phase == Phase::Start,
        ensures
            final(self)@ == (SyncView { phase: Phase::AwaitHead, ..old(self)@ }),
            r@ == ActionView::RequestHead,
    {
        self.phase = Phase::AwaitHead;
        Action::RequestHead
    }

    /// Whether the synchronisation expects `e` now.
    pub fn accepts(&self, e: &Event) -> (r: bool)
        ensures
            r == expects(self@, e@),
    {
        match (self.phase, e) {
            (Phase::AwaitHead, Event::Head(_)) => true,
            (Phase::AwaitCachedIndex, Event::CachedIndex(_)) => true,
            (Phase::AwaitArchive, Event::ArchiveExtracted(_)) => self.etag.is_some(),
            (Phase::AwaitIndexFile, Event::IndexFile(_)) => self.etag.is_some() && self.reference.is_some(),
            _ => false,
        }
    }

    fn finish(&mut self, index: Vec<u8>) -> (r: Action)
        requires
            old(self).etag is Some,
        ensures
            (final(self)@, r@) == finish(old(self)@, index@),
    {
        self.phase = Phase::Done;
        match decode_json(index.as_slice()) {
            None => Action::Abort(Error::SchemaError),
            Some(_) => {
                let etag = match &self.etag {
                    Some(t) => t.clone(),
                    None => String::new(),
                };
                Action::Store { index, etag }
            },
        }
    }

    /// Takes in what came of the last action and decides the next one.
    pub fn step(&mut self, e: Event) -> (r: Action)
        requires
            expects(old(self)@, e@),
        ensures
            (final(self)@, r@) == next(old(self)@, e@),
    {
        let ghost s0 = self@;
        match e {
            Event::Head(None) => {
                self.phase = Phase::Done;
                let r = Action::Abort(Error::TransportError);
                assert((self@, r@) == next(s0, e@));
                r
            },
            Event::Head(Some(t)) => {
                let hit = same_etag(&self.cached_etag, &t);
                self.etag = Some(t);
                let r = if hit {
                    self.phase = Phase::AwaitCachedIndex;
                    Action::LoadCachedIndex
                } else {
                    self.phase = Phase::AwaitArchive;
                    Action::DownloadArchive
                };
                assert((self@, r@) == next(s0, e@));
                r
            },
            Event::CachedIndex(b) => {
                self.phase = Phase::Done;
                let r = Action::Deliver(b);
                assert((self@, r@) == next(s0, e@));
                r
            },
            Event::ArchiveExtracted(a) => {
                let out = verify_and_return_json(&a, &self.repo.fingerprint, self.verify, self.scheme);
                let payload = match out {
                    Err(err) => {
                        self.phase = Phase::Done;
                        let r = Action::Abort(err);
                        assert((self@, r@) == next(s0, e@));
                        return r;
                    },
                    Ok(p) => p,
                };
                if !self.scheme.is_two_level() {
                    let r = self.finish(payload);
                    assert((self@, r@) == next(s0, e@));
                    return r;
                }
                let entry = match decode_json(payload.as_slice()) {
                    None => {
                        self.phase = Phase::Done;
                        let r = Action::Abort(Error::SchemaError);
                        assert((self@, r@) == next(s0, e@));
                        return r;
                    },
                    Some(j) => j,
                };
                match index_reference(&entry) {
                    Err(err) => {
                        self.phase = Phase::Done;
                        let r = Action::Abort(err);
                        assert((self@, r@) == next(s0, e@));
                        r
                    },
                    Ok(reference) => {
                        let name = reference.name.clone();
                        self.reference = Some(reference);
                        self.phase = Phase::AwaitIndexFile;
                        let r = Action::DownloadIndexFile(name);
                        assert((self@, r@) == next(s0, e@));
                        r
                    },
                }
            },
            Event::IndexFile(d) => {
                let checked = match &self.reference {
                    Some(reference) => check_index_file(reference, d, self.verify),
                    None => Err(Error::SchemaError),
                };
                match checked {
                    Err(err) => {
                        self.phase = Phase::Done;
                        let r = Action::Abort(err);
                        assert((self@, r@) == next(s0, e@));
                        r
                    },
                    Ok(index) => {
                        let r = self.finish(index);
                        assert((self@, r@) == next(s0, e@));
                        r
                    },
                }
            },
        }
    }
}

/// A finished synchronisation expects no further event.
pub open spec fn finished(s: SyncView) -> bool {
    forall|e: EventView| !(#[trigger] expects(s, e))
}

/// Two consecutive synchronisations against an unchanged ETag: after one has
/// stored an index under the ETag `e`, the next one, starting from a cache
/// that holds `e` and that index, makes its one metadata request, downloads
/// nothing, verifies nothing, and delivers the stored index byte for byte.
pub proof fn lemma_unchanged_etag_uses_cache(
    first: SyncView,
    first_event: EventView,
    s: SyncView,
    e: Seq<char>,
    stored: Seq<u8>,
)
    requires
        next(first, first_event).1 == ActionView::Store(stored, e),
        s.phase == Phase::Start,
        s.cached_etag == Some(e),
    ensures
        ({
            let s1 = SyncView { phase: Phase::AwaitHead, ..s };
            let (s2, a2) = next(s1, EventView::Head(Some(e)));
            let (s3, a3) = next(s2, EventView::CachedIndex(stored));
            &&& a2 == ActionView::LoadCachedIndex
            &&& expects(s2, EventView::CachedIndex(stored))
            &&& a3 == ActionView::Deliver(stored)
            &&& finished(s3)
        }),
{
}

/// A changed ETag forces a refresh: the synchronisation downloads the archive
/// once, verifies it in full, and then either fails with the verification's
/// error or stores the verified index under the new ETag, and is finished.
pub proof fn lemma_changed_etag_refreshes(
    s: SyncView,
    e: Seq<char>,
    a: Seq<(Seq<char>, Seq<u8>)>,
)
    requires
        s.phase == Phase::AwaitHead,
        s.cached_etag != Some(e),
        s.scheme == SigningScheme::Legacy,
    ensures
        ({
            let (s1, a1) = next(s, EventView::Head(Some(e)));
            let (s2, a2) = next(s1, EventView::ArchiveExtracted(a));
            &&& a1 == ActionView::DownloadArchive
            &&& expects(s1, EventView::ArchiveExtracted(a))
            &&& finished(s2)
            &&& match archive_outcome(a, s.fingerprint, s.verify, s.scheme) {
                Err(err) => a2 == ActionView::Abort(err),
                Ok(index) => json_decoded(index) is Some ==> a2 == ActionView::Store(index, e),
            }
        }),
{
}

/// Under the two-level scheme a changed ETag leads, after the archive, to one
/// download of the index file that the entry names; an index file that passes
/// its check is stored under the new ETag.
pub proof fn lemma_changed_etag_refreshes_entry(
    s: SyncView,
    e: Seq<char>,
    a: Seq<(Seq<char>, Seq<u8>)>,
    d: Seq<u8>,
    entry: Seq<u8>,
)
    requires
        s.phase == Phase::AwaitHead,
        s.cached_etag != Some(e),
        s.scheme == SigningScheme::Entry,
        archive_outcome(a, s.fingerprint, s.verify, s.scheme) == Ok::<Seq<u8>, Error>(entry),
        json_decoded(entry) is Some,
        entry_fields(json_decoded(entry)->Some_0) is Some,
    ensures
        ({
            let fields = entry_fields(json_decoded(entry)->Some_0)->Some_0;
            let (s1, a1) = next(s, EventView::Head(Some(e)));
            let (s2, a2) = next(s1, EventView::ArchiveExtracted(a));
            let (s3, a3) = next(s2, EventView::IndexFile(d));
            &&& a1 == ActionView::DownloadArchive
            &&& a2 == ActionView::DownloadIndexFile(fields.0)
            &&& expects(s2, EventView::IndexFile(d))
            &&& finished(s3)
            &&& match index_file_outcome(fields.1, d, s.verify) {
                Err(err) => a3 == ActionView::Abort(err),
                Ok(index) => json_decoded(index) is Some ==> a3 == ActionView::Store(index, e),
            }
        }),
{
}

/// A refresh stores an index only after the archive passed verification:
/// under the single-level scheme the stored index is the verified signed
/// JSON file; under the two-level scheme it is an index file that passed the
/// check against the verified entry descriptor.
pub proof fn lemma_store_only_after_verification(s: SyncView, e: EventView, index: Seq<u8>, etag: Seq<char>)
    requires
        expects(s, e),
        next(s, e).1 == ActionView::Store(index, etag),
    ensures
        json_decoded(index) is Some,
        s.etag == Some(etag),
        e matches EventView::ArchiveExtracted(a) ==> s.scheme == SigningScheme::Legacy && archive_outcome(
            a,
            s.fingerprint,
            s.verify,
            s.scheme,
        ) == Ok::<Seq<u8>, Error>(index),
        e matches EventView::IndexFile(d) ==> index_file_outcome(s.reference->Some_0.1, d, s.verify)
            == Ok::<Seq<u8>, Error>(index),
        !(e is Head) && !(e is CachedIndex),
{
}

} // verus!
