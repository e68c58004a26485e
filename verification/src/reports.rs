//! Listing and describing crash-report files.
//!
//! Crash reports are opaque files kept in a `crash-reports` subdirectory of
//! a caller-supplied base path. Listing them is best-effort: a missing or
//! unreadable subdirectory yields an empty listing rather than an error,
//! and a file whose creation time cannot be read is still listed, with its
//! timestamp defaulted to the epoch. The listing is sorted by creation
//! time, newest first; entries never carry file content.
//!
//! The directory is enumerated outside the library; the enumeration's
//! outcome is handed in as a [`DirectoryScan`] and everything from there —
//! selecting regular files, defaulting timestamps, sorting — is verified
//! here.

use vstd::prelude::*;
use vstd::string::StringExecFns;

verus! {

/// Metadata of one crash-report file, as produced by a listing.
/// `content` is populated only by an explicit read of a single report,
/// never by listing.
pub struct CrashReport {
    /// The file's base name.
    pub name: String,
    /// The file's full path.
    pub path: String,
    /// Creation time in seconds since the epoch; 0 when unavailable.
    pub created: u64,
    /// The report's text, absent in every listed entry.
    pub content: Option<String>,
}

/// Abstract value of a [`CrashReport`]: the same fields with strings taken
/// as character sequences.
pub struct CrashReportAbs {
    pub name: Seq<char>,
    pub path: Seq<char>,
    pub created: u64,
    pub content: Option<Seq<char>>,
}

impl View for CrashReport {
    type V = CrashReportAbs;

    open spec fn view(&self) -> CrashReportAbs {
        CrashReportAbs {
            name: self.name@,
            path: self.path@,
            created: self.created,
            content: match self.content {
                Some(c) => Some(c@),
                None => None,
            },
        }
    }
}

/// One entry found while enumerating the crash-report directory, reduced
/// to what the listing needs: its name, its path, whether it is a regular
/// file, and its creation time where the filesystem could provide one.
pub struct ScannedEntry {
    /// The entry's base name.
    pub name: String,
    /// The entry's full path.
    pub path: String,
    /// Whether the entry is a regular file.
    pub is_file: bool,
    /// Creation time in seconds since the epoch, if metadata gave one.
    pub created: Option<u64>,
}

/// Outcome of enumerating the crash-report subdirectory.
pub enum DirectoryScan {
    /// The subdirectory does not exist.
    Missing,
    /// The subdirectory exists but could not be opened for enumeration.
    Unreadable,
    /// The subdirectory was enumerated; its entries, in directory order.
    Found(Vec<ScannedEntry>),
}

/// The report entry a scanned regular file turns into: creation time
/// defaulted to the epoch when missing, content absent.
pub open spec fn report_of(e: ScannedEntry) -> CrashReportAbs {
    CrashReportAbs {
        name: e.name@,
        path: e.path@,
        created: match e.created {
            Some(t) => t,
            None => 0u64,
        },
        content: None,
    }
}

/// The reports a sequence of scanned entries yields, in scan order:
/// one per regular file, nothing for any other entry kind.
pub open spec fn reports_of(s: Seq<ScannedEntry>) -> Seq<CrashReportAbs>
    decreases s.len(),
{
    if s.len() == 0 {
        Seq::empty()
    } else if s.last().is_file {
        reports_of(s.drop_last()).push(report_of(s.last()))
    } else {
        reports_of(s.drop_last())
    }
}

/// How many of the scanned entries are regular files.
pub open spec fn file_count(s: Seq<ScannedEntry>) -> nat
    decreases s.len(),
{
    if s.len() == 0 {
        0
    } else if s.last().is_file {
        file_count(s.drop_last()) + 1
    } else {
        file_count(s.drop_last())
    }
}

/// A scan yields exactly one report per regular file: entries of any
/// other kind contribute nothing to the listing.
pub proof fn lemma_reports_count_files(s: Seq<ScannedEntry>)
    ensures
        reports_of(s).len() == file_count(s),
    decreases s.len(),
{
    if s.len() > 0 {
        lemma_reports_count_files(s.drop_last());
    }
}

/// The abstract values of a sequence of reports.
pub open spec fn abs_seq(s: Seq<CrashReport>) -> Seq<CrashReportAbs> {
    s.map_values(|r: CrashReport| r@)
}

/// Sorted newest-first: creation times never increase along the sequence.
pub open spec fn sorted_by_created_desc(s: Seq<CrashReportAbs>) -> bool {
    forall|i: int, j: int| 0 <= i <= j < s.len() ==> s[i].created >= s[j].created
}

/// Every report a scan yields has absent content: listing never loads
/// file contents.
pub proof fn lemma_reports_have_no_content(s: Seq<ScannedEntry>)
    ensures
        forall|i: int| 0 <= i < reports_of(s).len() ==> reports_of(s)[i].content is None,
    decreases s.len(),
{
    if s.len() > 0 {
        lemma_reports_have_no_content(s.drop_last());
    }
}

proof fn lemma_abs_push(s: Seq<CrashReport>, x: CrashReport)
    ensures
        abs_seq(s.push(x)) =~= abs_seq(s).push(x@),
{
}

proof fn lemma_abs_remove(s: Seq<CrashReport>, i: int)
    requires
        0 <= i < s.len(),
    ensures
        abs_seq(s.remove(i)) =~= abs_seq(s).remove(i),
{
}

/// Sequences with equal multisets of elements hold the same elements.
proof fn lemma_equal_multisets_share_elements(a: Seq<CrashReportAbs>, b: Seq<CrashReportAbs>)
    requires
        a.to_multiset() == b.to_multiset(),
    ensures
        forall|i: int| 0 <= i < a.len() ==> b.contains(a[i]),
{
    broadcast use vstd::seq_lib::group_to_multiset_ensures;

    assert forall|i: int| 0 <= i < a.len() implies b.contains(a[i]) by {
        assert(a.contains(a[i]));
        assert(a.to_multiset().count(a[i]) > 0);
        assert(b.to_multiset().count(a[i]) > 0);
    }
}

/// Index of an entry whose creation time is maximal.
fn max_created_index(v: &Vec<CrashReport>) -> (m: usize)
    requires
        v@.len() > 0,
    ensures
        m < v@.len(),
        forall|j: int| 0 <= j < v@.len() ==> v@[m as int].created >= v@[j].created,
{
    let mut m: usize = 0;
    let mut i: usize = 1;
    while i < v.len()
        invariant
            0 < v@.len(),
            m < i,
            i <= v@.len(),
            forall|j: int| 0 <= j < i ==> v@[m as int].created >= v@[j].created,
        decreases v@.len() - i,
    {
        if v[i].created > v[m].created {
            m = i;
        }
        i = i + 1;
    }
    m
}

/// Sort reports by creation time, newest first. The result holds exactly
/// the given reports; reports with equal creation times may come out in
/// any order.
pub fn sort_reports_by_created_desc(reports: Vec<CrashReport>) -> (sorted: Vec<CrashReport>)
    ensures
        sorted_by_created_desc(abs_seq(sorted@)),
        abs_seq(sorted@).to_multiset() == abs_seq(reports@).to_multiset(),
        sorted@.len() == reports@.len(),
{
    let ghost orig: Seq<CrashReport> = reports@;
    let mut rest = reports;
    let mut sorted: Vec<CrashReport> = Vec::new();
    proof {
        broadcast use vstd::seq_lib::group_to_multiset_ensures;
        broadcast use vstd::multiset::group_multiset_axioms;

        assert(abs_seq(sorted@) =~= Seq::<CrashReportAbs>::empty());
        assert(abs_seq(sorted@).to_multiset().len() == 0);
        assert(abs_seq(sorted@).to_multiset().add(abs_seq(rest@).to_multiset()) =~= abs_seq(
            orig,
        ).to_multiset());
    }
    while rest.len() > 0
        invariant
            abs_seq(sorted@).to_multiset().add(abs_seq(rest@).to_multiset())
                == abs_seq(orig).to_multiset(),
            sorted@.len() + rest@.len() == orig.len(),
            forall|i: int, j: int|
                0 <= i <= j < sorted@.len() ==> sorted@[i].created >= sorted@[j].created,
            forall|i: int, j: int|
                0 <= i < sorted@.len() && 0 <= j < rest@.len()
                    ==> sorted@[i].created >= rest@[j].created,
        decreases rest@.len(),
    {
        let m = max_created_index(&rest);
        let ghost pre_rest = rest@;
        let ghost pre_sorted = sorted@;
        let r = rest.remove(m);
        sorted.push(r);
        proof {
            broadcast use vstd::seq_lib::group_to_multiset_ensures;
            broadcast use vstd::multiset::group_multiset_axioms;

            lemma_abs_remove(pre_rest, m as int);
            lemma_abs_push(pre_sorted, r);
            assert(abs_seq(pre_rest)[m as int] == r@);
            assert(abs_seq(pre_rest).contains(r@));
            assert(abs_seq(sorted@).to_multiset() =~= abs_seq(pre_sorted).to_multiset().insert(
                r@,
            ));
            assert(abs_seq(rest@).to_multiset() =~= abs_seq(pre_rest).to_multiset().remove(r@));
            assert(abs_seq(sorted@).to_multiset().add(abs_seq(rest@).to_multiset())
                =~= abs_seq(orig).to_multiset());
            assert forall|j: int| 0 <= j < rest@.len() implies r.created >= rest@[j].created by {
                assert(rest@[j] == if j < m { pre_rest[j] } else { pre_rest[j + 1] });
            }
        }
    }
    proof {
        broadcast use vstd::seq_lib::group_to_multiset_ensures;
        broadcast use vstd::multiset::group_multiset_axioms;

        assert(abs_seq(rest@) =~= Seq::<CrashReportAbs>::empty());
        assert(abs_seq(rest@).to_multiset().len() == 0);
        assert(abs_seq(sorted@).to_multiset() =~= abs_seq(orig).to_multiset());
        assert forall|i: int, j: int| 0 <= i <= j < abs_seq(sorted@).len() implies abs_seq(
            sorted@,
        )[i].created >= abs_seq(sorted@)[j].created by {
            assert(abs_seq(sorted@)[i].created == sorted@[i].created);
            assert(abs_seq(sorted@)[j].created == sorted@[j].created);
        }
    }
    sorted
}

/// Build the crash-report listing from the outcome of enumerating the
/// crash-report subdirectory.
///
/// A missing or unreadable subdirectory yields an empty listing, not an
/// error. Otherwise the listing holds one entry per regular file found —
/// entries of other kinds are skipped — with the creation time defaulted
/// to the epoch where metadata gave none, sorted newest first, and with
/// content absent throughout.
pub fn list_crash_reports(scan: DirectoryScan) -> (reports: Vec<CrashReport>)
    ensures
        sorted_by_created_desc(abs_seq(reports@)),
        forall|i: int| 0 <= i < reports@.len() ==> reports@[i].content is None,
        match scan {
            DirectoryScan::Missing => reports@.len() == 0,
            DirectoryScan::Unreadable => reports@.len() == 0,
            DirectoryScan::Found(entries) => abs_seq(reports@).to_multiset() == reports_of(
                entries@,
            ).to_multiset() && reports@.len() == file_count(entries@),
        },
{
    match scan {
        DirectoryScan::Missing => Vec::new(),
        DirectoryScan::Unreadable => Vec::new(),
        DirectoryScan::Found(entries) => {
            let mut collected: Vec<CrashReport> = Vec::new();
            let mut i: usize = 0;
            while i < entries.len()
                invariant
                    i <= entries@.len(),
                    abs_seq(collected@) == reports_of(entries@.take(i as int)),
                decreases entries@.len() - i,
            {
                let ghost pre = collected@;
                let e = &entries[i];
                if e.is_file {
                    let created: u64 = match e.created {
                        Some(t) => t,
                        None => 0,
                    };
                    let report = CrashReport {
                        name: e.name.clone(),
                        path: e.path.clone(),
                        created,
                        content: None,
                    };
                    proof {
                        lemma_abs_push(pre, report);
                        assert(report@ == report_of(entries@[i as int]));
                    }
                    collected.push(report);
                }
                proof {
                    assert(entries@.take(i + 1).drop_last() =~= entries@.take(i as int));
                    assert(entries@.take(i + 1).last() == entries@[i as int]);
                    assert(abs_seq(collected@) =~= reports_of(entries@.take(i + 1)));
                }
                i = i + 1;
            }
            proof {
                assert(entries@.take(entries@.len() as int) =~= entries@);
                lemma_reports_count_files(entries@);
            }
            let sorted = sort_reports_by_created_desc(collected);
            proof {
                lemma_equal_multisets_share_elements(abs_seq(sorted@), reports_of(entries@));
                lemma_reports_have_no_content(entries@);
                assert forall|i: int| 0 <= i < sorted@.len() implies sorted@[i].content
                    is None by {
                    let elem = abs_seq(sorted@)[i];
                    assert(reports_of(entries@).contains(elem));
                    let j = choose|j: int|
                        0 <= j < reports_of(entries@).len() && reports_of(entries@)[j] == elem;
                    assert(elem.content is None);
                }
            }
            sorted
        },
    }
}

/// Path of the crash-report subdirectory under a base path.
pub fn crash_reports_dir(server_path: &str) -> (dir: String)
    ensures
        dir@ == server_path@ + "/crash-reports"@,
{
    let mut dir: String = server_path.to_owned();
    dir.append("/crash-reports");
    dir
}

} // verus!
