//! The shared download registry and the download-queue command.
//!
//! The registry records download *requests*: nothing here moves bytes. A
//! record is keyed by its identifier, no identifier occurs twice
//! ([`DownloadStore::wf`]), and every recorded URL passed the
//! network-destination guard ([`DownloadStore::guarded`]). Records are only
//! ever inserted; the host never updates or removes them.

use vstd::prelude::*;

use crate::guard::{guard_error, url_allowed, validate_url};
use crate::ident::{download_id_chars, download_id_string};
use crate::text::str_eq;

verus! {

broadcast use vstd::seq::group_seq_axioms;

/// Lifecycle label of a download request. The host only ever records
/// `Pending`; progressing a download belongs to the external backend and
/// never happens in this process.
#[derive(Clone, Copy, PartialEq, Eq, Structural, Debug)]
pub enum DownloadStatus {
    Pending,
}

/// One requested (not yet executed) download.
///
/// `progress_millionths` is the completed fraction in parts per million;
/// the registry only ever records zero, and nothing in this process
/// advances it.
pub struct DownloadRecord {
    pub id: String,
    pub url: String,
    pub filename: String,
    pub status: DownloadStatus,
    pub progress_millionths: u64,
}

/// The in-memory registry of download requests, keyed by identifier.
pub struct DownloadStore {
    entries: Vec<DownloadRecord>,
}

impl DownloadStore {
    /// The recorded requests, in insertion order.
    pub closed spec fn records(self) -> Seq<DownloadRecord> {
        self.entries@
    }

    /// Whether a request with identifier `id` is recorded.
    pub open spec fn contains_id(self, id: Seq<char>) -> bool {
        exists|i: int| 0 <= i < self.records().len() && self.records()[i].id@ == id
    }

    /// The position of the request with identifier `id`.
    pub open spec fn index_of(self, id: Seq<char>) -> int {
        choose|i: int| 0 <= i < self.records().len() && self.records()[i].id@ == id
    }

    /// The request recorded under `id`.
    pub open spec fn spec_get(self, id: Seq<char>) -> DownloadRecord
        recommends
            self.contains_id(id),
    {
        self.records()[self.index_of(id)]
    }

    /// The registry behaves as a map: no identifier occurs twice.
    pub open spec fn wf(self) -> bool {
        forall|i: int, j: int|
            0 <= i < j < self.records().len() ==> self.records()[i].id@ != self.records()[j].id@
    }

    /// Every recorded request carries a URL the guard approved.
    pub open spec fn guarded(self) -> bool {
        forall|i: int|
            0 <= i < self.records().len() ==> url_allowed(#[trigger] self.records()[i].url@)
    }

    /// An empty registry, as built once at startup.
    pub fn new() -> (r: DownloadStore)
        ensures
            r.wf(),
            r.guarded(),
            r.records() =~= Seq::<DownloadRecord>::empty(),
    {
        DownloadStore { entries: Vec::new() }
    }

    /// The number of recorded requests.
    pub fn len(&self) -> (r: usize)
        ensures
            r == self.records().len(),
    {
        self.entries.len()
    }

    /// Looks up the request recorded under `id`.
    pub fn get(&self, id: &str) -> (r: Option<&DownloadRecord>)
        requires
            self.wf(),
        ensures
            r is Some <==> self.contains_id(id@),
            r matches Some(rec) ==> *rec == self.spec_get(id@),
    {
        let found = self.find_index(id);
        match found {
            Some(i) => {
                proof {
                    lemma_index_unique(*self, id@);
                }
                Some(&self.entries[i])
            },
            None => None,
        }
    }

    /// The position of the request with identifier `id`, if any.
    fn find_index(&self, id: &str) -> (r: Option<usize>)
        ensures
            r matches Some(i) ==> i < self.records().len() && self.records()[i as int].id@ == id@,
            r is None ==> !self.contains_id(id@),
    {
        let n = self.entries.len();
        let mut i: usize = 0;
        while i < n
            invariant
                i <= n,
                n == self.records().len(),
                forall|j: int| 0 <= j < i ==> self.records()[j].id@ != id@,
            decreases n - i,
        {
            if str_eq(self.entries[i].id.as_str(), id) {
                return Some(i);
            }
            i = i + 1;
        }
        None
    }

    /// Records `rec`, keyed by its identifier: the request previously
    /// recorded under the same identifier, if any, is replaced, and every
    /// other request stays as it was.
    pub fn insert(&mut self, rec: DownloadRecord)
        requires
            old(self).wf(),
        ensures
            final(self).wf(),
            final(self).contains_id(rec.id@),
            final(self).spec_get(rec.id@) == rec,
            old(self).contains_id(rec.id@) ==> final(self).records() =~= old(self).records().update(
                old(self).index_of(rec.id@),
                rec,
            ),
            !old(self).contains_id(rec.id@) ==> final(self).records() =~= old(
                self,
            ).records().push(rec),
            forall|id: Seq<char>|
                old(self).contains_id(id) && id != rec.id@ ==> #[trigger] final(self).contains_id(
                    id,
                ) && final(self).spec_get(id) == old(self).spec_get(id),
            forall|id: Seq<char>|
                #[trigger] final(self).contains_id(id) ==> old(self).contains_id(id) || id
                    == rec.id@,
    {
        let ghost prev = *self;
        let found = self.find_index(rec.id.as_str());
        match found {
            Some(i) => {
                proof {
                    assert(prev.contains_id(rec.id@));
                    lemma_index_unique(prev, rec.id@);
                    assert(prev.index_of(rec.id@) == i);
                }
                self.entries[i] = rec;
                proof {
                    lemma_insert_post(prev, *self, rec, i as int);
                }
            },
            None => {
                self.entries.push(rec);
                proof {
                    lemma_append_post(prev, *self, rec);
                }
            },
        }
    }
}

impl Default for DownloadStore {
    /// An empty registry, as [`DownloadStore::new`] builds it.
    fn default() -> (r: DownloadStore)
        ensures
            r.wf(),
            r.guarded(),
            r.records() =~= Seq::<DownloadRecord>::empty(),
    {
        DownloadStore::new()
    }
}

/// In a well-formed registry the position of a recorded identifier is the
/// one position that carries it.
proof fn lemma_index_unique(s: DownloadStore, id: Seq<char>)
    requires
        s.wf(),
        s.contains_id(id),
    ensures
        0 <= s.index_of(id) < s.records().len(),
        s.records()[s.index_of(id)].id@ == id,
        forall|j: int| 0 <= j < s.records().len() && s.records()[j].id@ == id ==> j == s.index_of(
            id,
        ),
{
    let k = s.index_of(id);
    assert(0 <= k < s.records().len() && s.records()[k].id@ == id);
    assert forall|j: int|
        0 <= j < s.records().len() && s.records()[j].id@ == id implies j == k by {
        if j < k {
            assert(s.records()[j].id@ != s.records()[k].id@);
        } else if k < j {
            assert(s.records()[k].id@ != s.records()[j].id@);
        }
    }
}

proof fn lemma_insert_post(prev: DownloadStore, cur: DownloadStore, rec: DownloadRecord, i: int)
    requires
        prev.wf(),
        prev.contains_id(rec.id@),
        prev.index_of(rec.id@) == i,
        0 <= i < prev.records().len(),
        prev.records()[i].id@ == rec.id@,
        cur.records() == prev.records().update(i, rec),
    ensures
        cur.wf(),
        cur.contains_id(rec.id@),
        cur.spec_get(rec.id@) == rec,
        forall|id: Seq<char>|
            prev.contains_id(id) && id != rec.id@ ==> #[trigger] cur.contains_id(id)
                && cur.spec_get(id) == prev.spec_get(id),
        forall|id: Seq<char>| #[trigger] cur.contains_id(id) ==> prev.contains_id(id) || id
            == rec.id@,
{
    assert forall|a: int, b: int|
        0 <= a < b < cur.records().len() implies cur.records()[a].id@ != cur.records()[b].id@ by {
        assert(cur.records()[a].id@ == prev.records()[a].id@);
        assert(cur.records()[b].id@ == prev.records()[b].id@);
        assert(prev.records()[a].id@ != prev.records()[b].id@);
    }
    assert(cur.records()[i].id@ == rec.id@);
    assert(cur.contains_id(rec.id@));
    lemma_index_unique(cur, rec.id@);
    assert(cur.index_of(rec.id@) == i);
    assert forall|id: Seq<char>|
        prev.contains_id(id) && id != rec.id@ implies #[trigger] cur.contains_id(id)
        && cur.spec_get(id) == prev.spec_get(id) by {
        lemma_index_unique(prev, id);
        let j = prev.index_of(id);
        assert(j != i);
        assert(cur.records()[j] == prev.records()[j]);
        assert(cur.contains_id(id));
        lemma_index_unique(cur, id);
        assert(cur.index_of(id) == j);
    }
    assert forall|id: Seq<char>|
        #[trigger] cur.contains_id(id) implies prev.contains_id(id) || id == rec.id@ by {
        let j = choose|j: int| 0 <= j < cur.records().len() && cur.records()[j].id@ == id;
        if j != i {
            assert(cur.records()[j] == prev.records()[j]);
        }
    }
}

proof fn lemma_append_post(prev: DownloadStore, cur: DownloadStore, rec: DownloadRecord)
    requires
        prev.wf(),
        !prev.contains_id(rec.id@),
        cur.records() == prev.records().push(rec),
    ensures
        cur.wf(),
        cur.contains_id(rec.id@),
        cur.spec_get(rec.id@) == rec,
        forall|id: Seq<char>|
            prev.contains_id(id) && id != rec.id@ ==> #[trigger] cur.contains_id(id)
                && cur.spec_get(id) == prev.spec_get(id),
        forall|id: Seq<char>| #[trigger] cur.contains_id(id) ==> prev.contains_id(id) || id
            == rec.id@,
{
    let n = prev.records().len() as int;
    assert forall|a: int, b: int|
        0 <= a < b < cur.records().len() implies cur.records()[a].id@ != cur.records()[b].id@ by {
        if b < n {
            assert(cur.records()[a].id@ == prev.records()[a].id@);
            assert(cur.records()[b].id@ == prev.records()[b].id@);
            assert(prev.records()[a].id@ != prev.records()[b].id@);
        } else {
            assert(cur.records()[b] == rec);
            assert(cur.records()[a].id@ == prev.records()[a].id@);
            if prev.records()[a].id@ == rec.id@ {
                assert(prev.contains_id(rec.id@));
            }
        }
    }
    assert(cur.records()[n].id@ == rec.id@);
    assert(cur.contains_id(rec.id@));
    lemma_index_unique(cur, rec.id@);
    assert(cur.index_of(rec.id@) == n);
    assert forall|id: Seq<char>|
        prev.contains_id(id) && id != rec.id@ implies #[trigger] cur.contains_id(id)
        && cur.spec_get(id) == prev.spec_get(id) by {
        let j = choose|j: int| 0 <= j < prev.records().len() && prev.records()[j].id@ == id;
        assert(cur.records()[j] == prev.records()[j]);
        assert(cur.contains_id(id));
        lemma_index_unique(cur, id);
        assert(cur.index_of(id) == j);
        assert(prev.wf());
        lemma_index_unique(prev, id);
        assert(prev.index_of(id) == j);
    }
    assert forall|id: Seq<char>|
        #[trigger] cur.contains_id(id) implies prev.contains_id(id) || id == rec.id@ by {
        let j = choose|j: int| 0 <= j < cur.records().len() && cur.records()[j].id@ == id;
        if j < n {
            assert(cur.records()[j] == prev.records()[j]);
        }
    }
}

/// Relies on `std::time::SystemTime::now`, chrono's `From<SystemTime> for
/// DateTime<Utc>`, and `DateTime::timestamp_millis` for the wall-clock
/// reading in milliseconds since the epoch. The `From` conversion is the
/// route taken because, unlike `chrono::Utc::now`, it handles a clock set
/// before the epoch without panicking and hands back a negative reading.
/// The reading depends on the machine's clock, so nothing is promised of
/// the value; everything the host derives from it is verified for every
/// possible reading.
#[verifier::external_body]
fn now_millis() -> i64 {
    let now = std::time::SystemTime::now();
    chrono::DateTime::<chrono::Utc>::from(now).timestamp_millis()
}

/// Records a guard-approved download request at clock reading `millis`.
///
/// Returns the identifier `download_<millis>`; the registry afterwards
/// holds, under that identifier, a pending record with the given URL and
/// filename and zero progress, and every request recorded under another
/// identifier stays as it was.
pub fn queue_download(
    store: &mut DownloadStore,
    url: String,
    filename: String,
    millis: i64,
) -> (r: String)
    requires
        old(store).wf(),
        url_allowed(url@),
    ensures
        final(store).wf(),
        old(store).guarded() ==> final(store).guarded(),
        r@ == download_id_chars(millis as int),
        final(store).contains_id(r@),
        ({
            let rec = final(store).spec_get(r@);
            rec.id@ == r@ && rec.url@ == url@ && rec.filename@ == filename@ && rec.status
                == DownloadStatus::Pending && rec.progress_millionths == 0
        }),
        forall|id: Seq<char>|
            old(store).contains_id(id) && id != r@ ==> #[trigger] final(store).contains_id(id)
                && final(store).spec_get(id) == old(store).spec_get(id),
        forall|id: Seq<char>| #[trigger] final(store).contains_id(id) ==> old(store).contains_id(
            id,
        ) || id == r@,
        !old(store).contains_id(r@) ==> final(store).records().len() == old(store).records().len()
            + 1,
        old(store).contains_id(r@) ==> final(store).records().len() == old(store).records().len(),
{
    let ghost prev = *store;
    let id = download_id_string(millis);
    let id_copy = id.clone();
    let rec = DownloadRecord {
        id,
        url,
        filename,
        status: DownloadStatus::Pending,
        progress_millionths: 0,
    };
    let ghost grec = rec;
    store.insert(rec);
    proof {
        if prev.guarded() {
            assert forall|i: int|
                0 <= i < store.records().len() implies url_allowed(
                #[trigger] store.records()[i].url@,
            ) by {
                if prev.contains_id(grec.id@) {
                    assert(store.records() == prev.records().update(prev.index_of(grec.id@), grec));
                } else {
                    assert(store.records() == prev.records().push(grec));
                }
                if store.records()[i] != grec {
                    assert(url_allowed(prev.records()[i].url@));
                }
            }
        }
    }
    id_copy
}

/// The download-queue command.
///
/// Runs the network-destination guard on `url`. On rejection the guard's
/// error is returned unchanged and the registry is left exactly as it was.
/// On approval a pending record is inserted under a fresh clock-derived
/// identifier, which is returned. Nothing is downloaded here: the command
/// only records intent.
pub fn download_file(store: &mut DownloadStore, url: String, filename: String) -> (r: Result<
    String,
    String,
>)
    requires
        old(store).wf(),
    ensures
        final(store).wf(),
        old(store).guarded() ==> final(store).guarded(),
        r is Ok <==> url_allowed(url@),
        r matches Err(e) ==> e@ == guard_error(url@) && *final(store) == *old(store),
        r matches Ok(id) ==> exists|m: int| id@ == download_id_chars(m),
        r matches Ok(id) ==> final(store).contains_id(id@) && ({
            let rec = final(store).spec_get(id@);
            rec.id@ == id@ && rec.url@ == url@ && rec.filename@ == filename@ && rec.status
                == DownloadStatus::Pending && rec.progress_millionths == 0
        }),
        r matches Ok(id) ==> forall|id0: Seq<char>|
            old(store).contains_id(id0) && id0 != id@ ==> #[trigger] final(store).contains_id(id0)
                && final(store).spec_get(id0) == old(store).spec_get(id0),
        r matches Ok(id) ==> forall|id0: Seq<char>| #[trigger]
            final(store).contains_id(id0) ==> old(store).contains_id(id0) || id0 == id@,
        r matches Ok(id) ==> (!old(store).contains_id(id@) ==> final(store).records().len() == old(
            store,
        ).records().len() + 1),
        r matches Ok(id) ==> (old(store).contains_id(id@) ==> final(store).records().len() == old(
            store,
        ).records().len()),
{
    let ghost prev = *store;
    match validate_url(url.as_str()) {
        Err(e) => Err(e),
        Ok(_) => {
            let millis = now_millis();
            let id = queue_download(store, url, filename, millis);
            proof {
                assert forall|id0: Seq<char>| #[trigger]
                    store.contains_id(id0) implies prev.contains_id(id0) || id0 == id@ by {
                    assert(store.contains_id(id0) ==> prev.contains_id(id0) || id0 == id@);
                }
            }
            Ok(id)
        },
    }
}

} // verus!
