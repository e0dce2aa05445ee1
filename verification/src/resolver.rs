//! The build plan: from the matched tests and their records to the selections.

use crate::artifact::{record_views, ArtifactSet, RecordView, TestRecord};
use crate::error::{Failure, ProcessError, ResolveError};
use crate::listing::{listing_outcome, matched_names_in};
use crate::manifest::{lemma_line_order, manifest_from, manifest_outcome, parse_manifest};
use crate::names::NameSet;
use crate::selections::{
    select, selections_for, unlisted, unlisted_of, BuildSelections, HostPlatform,
};
use vstd::prelude::*;

verus! {

/// Whether the `i`-th of `records` is the record of a matched test.
pub open spec fn retained(matched: Set<Seq<char>>, records: Seq<RecordView>, i: int) -> bool {
    0 <= i < records.len() && matched.contains(records[i].name)
}

/// The identifiers that some matched test requires.
pub open spec fn required_artifacts(matched: Set<Seq<char>>, records: Seq<RecordView>) -> Set<
    Seq<char>,
> {
    Set::new(
        |id: Seq<char>|
            exists|i: int| #[trigger]
                retained(matched, records, i) && records[i].required.contains(id),
    )
}

/// The identifiers that some matched test uses where they exist.
pub open spec fn optional_artifacts(matched: Set<Seq<char>>, records: Seq<RecordView>) -> Set<
    Seq<char>,
> {
    Set::new(
        |id: Seq<char>|
            exists|i: int| #[trigger]
                retained(matched, records, i) && records[i].optional.contains(id),
    )
}

/// The identifiers that some matched test names, as required or as optional.
pub open spec fn combined_artifacts(matched: Set<Seq<char>>, records: Seq<RecordView>) -> Set<
    Seq<char>,
> {
    required_artifacts(matched, records).union(optional_artifacts(matched, records))
}

/// The build plan: the selections that the artifacts of the matched tests ask
/// for on `host`. Records of tests that did not match count for nothing.
pub open spec fn plan_for(
    matched: Set<Seq<char>>,
    records: Seq<RecordView>,
    host: HostPlatform,
) -> BuildSelections {
    selections_for(combined_artifacts(matched, records), host)
}

/// What resolving a listing text and a manifest text gives: the plan, or the
/// failure of the listing, or else that of the manifest.
pub open spec fn plan_outcome(listing: Seq<char>, manifest: Seq<char>, host: HostPlatform) -> Result<
    BuildSelections,
    Failure,
> {
    match listing_outcome(listing) {
        Err(failure) => Err(failure),
        Ok(matched) => match manifest_outcome(manifest) {
            Err(failure) => Err(failure),
            Ok(records) => Ok(plan_for(matched, records, host)),
        },
    }
}

/// The artifacts of the matched tests: those required, and those optional.
#[derive(Clone, Debug)]
pub struct Requirements {
    pub required: ArtifactSet,
    pub optional: ArtifactSet,
}

impl Requirements {
    /// Every identifier of either set.
    pub fn combined(&self) -> (r: ArtifactSet)
        ensures
            r@ == self.required@.union(self.optional@),
    {
        let mut all = ArtifactSet::new();
        all.extend_from(&self.required);
        all.extend_from(&self.optional);
        assert(all@ =~= self.required@.union(self.optional@));
        all
    }
}

/// Gathers the artifacts of the records whose test is in `matched`.
pub fn gather(matched: &NameSet, records: &Vec<TestRecord>) -> (r: Requirements)
    ensures
        r.required@ == required_artifacts(matched@, record_views(records@)),
        r.optional@ == optional_artifacts(matched@, record_views(records@)),
{
    let ghost views = record_views(records@);
    let mut required = ArtifactSet::new();
    let mut optional = ArtifactSet::new();
    let mut i: usize = 0;
    while i < records.len()
        invariant
            i <= records.len(),
            views == record_views(records@),
            required@ == required_artifacts(matched@, views.take(i as int)),
            optional@ == optional_artifacts(matched@, views.take(i as int)),
        decreases records.len() - i,
    {
        let record = &records[i];
        let ghost before = views.take(i as int);
        let ghost after = views.take(i + 1);
        proof {
            assert(views[i as int] == record@);
            assert(after =~= before.push(record@));
            lemma_push_record(matched@, before, record@);
        }
        if matched.contains(record.name.as_str()) {
            required.extend_from(&record.required);
            optional.extend_from(&record.optional);
        }
        i += 1;
    }
    proof {
        assert(views.take(i as int) =~= views);
    }
    Requirements { required, optional }
}

/// One more record adds its artifacts where its test matched, and nothing
/// where it did not.
pub proof fn lemma_push_record(matched: Set<Seq<char>>, records: Seq<RecordView>, next: RecordView)
    ensures
        required_artifacts(matched, records.push(next)) == if matched.contains(next.name) {
            required_artifacts(matched, records).union(next.required)
        } else {
            required_artifacts(matched, records)
        },
        optional_artifacts(matched, records.push(next)) == if matched.contains(next.name) {
            optional_artifacts(matched, records).union(next.optional)
        } else {
            optional_artifacts(matched, records)
        },
{
    let longer = records.push(next);
    let n = records.len() as int;
    let required_longer = required_artifacts(matched, longer);
    let optional_longer = optional_artifacts(matched, longer);
    assert forall|id: Seq<char>| #[trigger]
        required_longer.contains(id) == (required_artifacts(matched, records).contains(id) || (
        matched.contains(next.name) && next.required.contains(id))) by {
        if required_artifacts(matched, longer).contains(id) {
            let i = choose|i: int| #[trigger]
                retained(matched, longer, i) && longer[i].required.contains(id);
            if i < n {
                assert(retained(matched, records, i) && records[i].required.contains(id));
            }
        }
        if required_artifacts(matched, records).contains(id) {
            let i = choose|i: int| #[trigger]
                retained(matched, records, i) && records[i].required.contains(id);
            assert(retained(matched, longer, i) && longer[i].required.contains(id));
        }
        if matched.contains(next.name) && next.required.contains(id) {
            assert(retained(matched, longer, n) && longer[n].required.contains(id));
        }
    }
    assert forall|id: Seq<char>| #[trigger]
        optional_longer.contains(id) == (optional_artifacts(matched, records).contains(id) || (
        matched.contains(next.name) && next.optional.contains(id))) by {
        if optional_artifacts(matched, longer).contains(id) {
            let i = choose|i: int| #[trigger]
                retained(matched, longer, i) && longer[i].optional.contains(id);
            if i < n {
                assert(retained(matched, records, i) && records[i].optional.contains(id));
            }
        }
        if optional_artifacts(matched, records).contains(id) {
            let i = choose|i: int| #[trigger]
                retained(matched, records, i) && records[i].optional.contains(id);
            assert(retained(matched, longer, i) && longer[i].optional.contains(id));
        }
        if matched.contains(next.name) && next.optional.contains(id) {
            assert(retained(matched, longer, n) && longer[n].optional.contains(id));
        }
    }
    if matched.contains(next.name) {
        assert(required_longer =~= required_artifacts(matched, records).union(next.required));
        assert(optional_longer =~= optional_artifacts(matched, records).union(next.optional));
    } else {
        assert(required_longer =~= required_artifacts(matched, records));
        assert(optional_longer =~= optional_artifacts(matched, records));
    }
}

/// The plan looks at the records only through their artifacts' membership:
/// two sequences of records that hold the same records, in whatever order and
/// however often, give the same plan.
pub proof fn lemma_same_records(
    matched: Set<Seq<char>>,
    a: Seq<RecordView>,
    b: Seq<RecordView>,
    host: HostPlatform,
)
    requires
        a.to_set() == b.to_set(),
    ensures
        required_artifacts(matched, a) == required_artifacts(matched, b),
        optional_artifacts(matched, a) == optional_artifacts(matched, b),
        plan_for(matched, a, host) == plan_for(matched, b, host),
{
    lemma_records_within(matched, a, b);
    lemma_records_within(matched, b, a);
    assert(required_artifacts(matched, a) =~= required_artifacts(matched, b));
    assert(optional_artifacts(matched, a) =~= optional_artifacts(matched, b));
}

/// Where every record of `a` is one of `b`, every artifact gathered from `a`
/// is gathered from `b`.
proof fn lemma_records_within(matched: Set<Seq<char>>, a: Seq<RecordView>, b: Seq<RecordView>)
    requires
        a.to_set().subset_of(b.to_set()),
    ensures
        required_artifacts(matched, a).subset_of(required_artifacts(matched, b)),
        optional_artifacts(matched, a).subset_of(optional_artifacts(matched, b)),
{
    assert forall|id: Seq<char>| required_artifacts(matched, a).contains(id) implies (
    #[trigger] required_artifacts(matched, b).contains(id)) by {
        let i = choose|i: int| #[trigger] retained(matched, a, i) && a[i].required.contains(id);
        assert(a.to_set().contains(a[i]));
        assert(b.contains(a[i]));
        let j = choose|j: int| 0 <= j < b.len() && b[j] == a[i];
        assert(retained(matched, b, j) && b[j].required.contains(id));
    }
    assert forall|id: Seq<char>| optional_artifacts(matched, a).contains(id) implies (
    #[trigger] optional_artifacts(matched, b).contains(id)) by {
        let i = choose|i: int| #[trigger] retained(matched, a, i) && a[i].optional.contains(id);
        assert(a.to_set().contains(a[i]));
        assert(b.contains(a[i]));
        let j = choose|j: int| 0 <= j < b.len() && b[j] == a[i];
        assert(retained(matched, b, j) && b[j].optional.contains(id));
    }
}

/// The order of the records does not matter: a permutation of the records
/// gives the same plan.
pub proof fn lemma_record_order(
    matched: Set<Seq<char>>,
    a: Seq<RecordView>,
    b: Seq<RecordView>,
    host: HostPlatform,
)
    requires
        a.to_multiset() == b.to_multiset(),
    ensures
        plan_for(matched, a, host) == plan_for(matched, b, host),
{
    broadcast use vstd::seq_lib::to_multiset_contains;

    assert forall|r: RecordView| a.to_set().contains(r) == b.to_set().contains(r) by {
        assert(a.contains(r) == (a.to_multiset().count(r) > 0));
        assert(b.contains(r) == (b.to_multiset().count(r) > 0));
    }
    assert(a.to_set() =~= b.to_set());
    lemma_same_records(matched, a, b, host);
}

/// The order of the manifest's lines does not matter: where the lines are
/// read with success, a permutation of them is too, and gives the same plan.
pub proof fn lemma_manifest_line_order(
    matched: Set<Seq<char>>,
    a: Seq<Seq<char>>,
    b: Seq<Seq<char>>,
    host: HostPlatform,
)
    requires
        a.to_multiset() == b.to_multiset(),
        manifest_from(a, 0) is Ok,
    ensures
        manifest_from(b, 0) is Ok,
        plan_for(matched, manifest_from(a, 0)->Ok_0, host) == plan_for(
            matched,
            manifest_from(b, 0)->Ok_0,
            host,
        ),
{
    lemma_line_order(a, b);
    lemma_same_records(matched, manifest_from(a, 0)->Ok_0, manifest_from(b, 0)->Ok_0, host);
}

/// With no test matched, nothing is built.
pub proof fn lemma_no_match(records: Seq<RecordView>, host: HostPlatform)
    ensures
        plan_for(Set::empty(), records, host) == BuildSelections::none(),
{
    assert(combined_artifacts(Set::empty(), records) =~= Set::<Seq<char>>::empty());
}

/// The record of a test that did not match counts for nothing, whatever
/// artifacts it names: the plan is the same with any other record of that
/// test in its place.
pub proof fn lemma_unmatched_record(
    matched: Set<Seq<char>>,
    records: Seq<RecordView>,
    i: int,
    other: RecordView,
    host: HostPlatform,
)
    requires
        0 <= i < records.len(),
        !matched.contains(records[i].name),
        other.name == records[i].name,
    ensures
        plan_for(matched, records.update(i, other), host) == plan_for(matched, records, host),
{
    let changed = records.update(i, other);
    assert forall|id: Seq<char>|
        required_artifacts(matched, changed).contains(id) == (#[trigger] required_artifacts(
            matched,
            records,
        ).contains(id)) by {
        if required_artifacts(matched, changed).contains(id) {
            let k = choose|k: int| #[trigger]
                retained(matched, changed, k) && changed[k].required.contains(id);
            assert(retained(matched, records, k) && records[k].required.contains(id));
        }
        if required_artifacts(matched, records).contains(id) {
            let k = choose|k: int| #[trigger]
                retained(matched, records, k) && records[k].required.contains(id);
            assert(retained(matched, changed, k) && changed[k].required.contains(id));
        }
    }
    assert forall|id: Seq<char>|
        optional_artifacts(matched, changed).contains(id) == (#[trigger] optional_artifacts(
            matched,
            records,
        ).contains(id)) by {
        if optional_artifacts(matched, changed).contains(id) {
            let k = choose|k: int| #[trigger]
                retained(matched, changed, k) && changed[k].optional.contains(id);
            assert(retained(matched, records, k) && records[k].optional.contains(id));
        }
        if optional_artifacts(matched, records).contains(id) {
            let k = choose|k: int| #[trigger]
                retained(matched, records, k) && records[k].optional.contains(id);
            assert(retained(matched, changed, k) && changed[k].optional.contains(id));
        }
    }
    assert(required_artifacts(matched, changed) =~= required_artifacts(matched, records));
    assert(optional_artifacts(matched, changed) =~= optional_artifacts(matched, records));
}

/// The record of a test that did not match counts for nothing: the plan is
/// the same without it.
pub proof fn lemma_unmatched_record_removed(
    matched: Set<Seq<char>>,
    records: Seq<RecordView>,
    i: int,
    host: HostPlatform,
)
    requires
        0 <= i < records.len(),
        !matched.contains(records[i].name),
    ensures
        plan_for(matched, records.remove(i), host) == plan_for(matched, records, host),
{
    let fewer = records.remove(i);
    assert forall|id: Seq<char>|
        required_artifacts(matched, fewer).contains(id) == (#[trigger] required_artifacts(
            matched,
            records,
        ).contains(id)) by {
        if required_artifacts(matched, fewer).contains(id) {
            let k = choose|k: int| #[trigger]
                retained(matched, fewer, k) && fewer[k].required.contains(id);
            let j = if k < i {
                k
            } else {
                k + 1
            };
            assert(retained(matched, records, j) && records[j].required.contains(id));
        }
        if required_artifacts(matched, records).contains(id) {
            let k = choose|k: int| #[trigger]
                retained(matched, records, k) && records[k].required.contains(id);
            let j = if k < i {
                k
            } else {
                k - 1
            };
            assert(retained(matched, fewer, j) && fewer[j].required.contains(id));
        }
    }
    assert forall|id: Seq<char>|
        optional_artifacts(matched, fewer).contains(id) == (#[trigger] optional_artifacts(
            matched,
            records,
        ).contains(id)) by {
        if optional_artifacts(matched, fewer).contains(id) {
            let k = choose|k: int| #[trigger]
                retained(matched, fewer, k) && fewer[k].optional.contains(id);
            let j = if k < i {
                k
            } else {
                k + 1
            };
            assert(retained(matched, records, j) && records[j].optional.contains(id));
        }
        if optional_artifacts(matched, records).contains(id) {
            let k = choose|k: int| #[trigger]
                retained(matched, records, k) && records[k].optional.contains(id);
            let j = if k < i {
                k
            } else {
                k - 1
            };
            assert(retained(matched, fewer, j) && fewer[j].optional.contains(id));
        }
    }
    assert(required_artifacts(matched, fewer) =~= required_artifacts(matched, records));
    assert(optional_artifacts(matched, fewer) =~= optional_artifacts(matched, records));
}

/// One more artifact among those gathered never turns a switch of the plan
/// off.
pub proof fn lemma_plan_grows(
    matched: Set<Seq<char>>,
    records: Seq<RecordView>,
    id: Seq<char>,
    host: HostPlatform,
)
    ensures
        selections_for(combined_artifacts(matched, records).insert(id), host).covers(
            plan_for(matched, records, host),
        ),
{
    crate::selections::lemma_added_artifact(combined_artifacts(matched, records), id, host);
}

/// Whether `r` is what resolving the two texts on `host` returns: the plan,
/// or the failure.
pub open spec fn resolves_to(
    r: Result<BuildSelections, ResolveError>,
    listing: Seq<char>,
    manifest: Seq<char>,
    host: HostPlatform,
) -> bool {
    match plan_outcome(listing, manifest, host) {
        Ok(plan) => r == Ok::<BuildSelections, ResolveError>(plan),
        Err(failure) => r matches Err(e) && e@ == failure,
    }
}

/// Resolving the same texts on the same host twice gives the same: the same
/// plan, or the same failure.
pub proof fn lemma_resolution_repeats(
    first: Result<BuildSelections, ResolveError>,
    second: Result<BuildSelections, ResolveError>,
    listing: Seq<char>,
    manifest: Seq<char>,
    host: HostPlatform,
)
    requires
        resolves_to(first, listing, manifest, host),
        resolves_to(second, listing, manifest, host),
    ensures
        match first {
            Ok(plan) => second == Ok::<BuildSelections, ResolveError>(plan),
            Err(e) => second is Err && second->Err_0@ == e@,
        },
{
}

/// The build plan for the tests in `matched`, from their records, on `host`.
pub fn resolve(matched: &NameSet, records: &Vec<TestRecord>, host: HostPlatform) -> (r:
    BuildSelections)
    ensures
        r == plan_for(matched@, record_views(records@), host),
{
    let requirements = gather(matched, records);
    let all = requirements.combined();
    select(&all, host)
}

/// A build plan with what it was made from.
#[derive(Clone, Debug)]
pub struct Resolution {
    /// The plan.
    pub selections: BuildSelections,
    /// The names of the tests that the filter matched.
    pub matched: NameSet,
    /// The artifacts of the matched tests.
    pub requirements: Requirements,
    /// Those of the artifacts that the classification table does not list.
    pub unlisted: ArtifactSet,
}

/// Whether `resolution` is the plan for `matched` and `records` on `host`,
/// with what it was made from.
pub open spec fn is_resolution(
    resolution: Resolution,
    matched: Set<Seq<char>>,
    records: Seq<RecordView>,
    host: HostPlatform,
) -> bool {
    &&& resolution.selections == plan_for(matched, records, host)
    &&& resolution.matched@ == matched
    &&& resolution.requirements.required@ == required_artifacts(matched, records)
    &&& resolution.requirements.optional@ == optional_artifacts(matched, records)
    &&& resolution.unlisted@ == unlisted(combined_artifacts(matched, records))
}

/// Whether `r` is what resolving the two texts on `host` reports: the plan
/// with what it was made from, or the failure.
pub open spec fn reports(
    r: Result<Resolution, ResolveError>,
    listing: Seq<char>,
    manifest: Seq<char>,
    host: HostPlatform,
) -> bool {
    match listing_outcome(listing) {
        Err(failure) => r matches Err(e) && e@ == failure,
        Ok(matched) => match manifest_outcome(manifest) {
            Err(failure) => r matches Err(e) && e@ == failure,
            Ok(records) => r matches Ok(resolution) && is_resolution(
                resolution,
                matched,
                records,
                host,
            ),
        },
    }
}

/// Resolves the build plan from the text of the test listing and the text of
/// the artifact manifest, and reports what the plan was made from.
///
/// A failure of the listing comes before one of the manifest. On any failure
/// no plan is returned.
pub fn resolve_with_report(listing: &str, manifest: &str, host: HostPlatform) -> (r: Result<
    Resolution,
    ResolveError,
>)
    ensures
        reports(r, listing@, manifest@, host),
{
    let matched = match matched_names_in(listing) {
        Ok(names) => names,
        Err(e) => {
            return Err(e);
        },
    };
    let records = match parse_manifest(manifest) {
        Ok(records) => records,
        Err(e) => {
            return Err(e);
        },
    };
    let requirements = gather(&matched, &records);
    let all = requirements.combined();
    let selections = select(&all, host);
    let unlisted = unlisted_of(&all);
    Ok(Resolution { selections, matched, requirements, unlisted })
}

/// Resolves the build plan from the text of the test listing and the text of
/// the artifact manifest.
///
/// A failure of the listing comes before one of the manifest. On any failure
/// no plan is returned.
pub fn resolve_build_plan(listing: &str, manifest: &str, host: HostPlatform) -> (r: Result<
    BuildSelections,
    ResolveError,
>)
    ensures
        resolves_to(r, listing@, manifest@, host),
{
    match resolve_with_report(listing, manifest, host) {
        Ok(resolution) => Ok(resolution.selections),
        Err(e) => Err(e),
    }
}

/// What resolving gives once both commands have run: the failure of the
/// listing command, or else that of the manifest command, or else what the
/// two outputs resolve to.
pub open spec fn reports_runs(
    r: Result<Resolution, ResolveError>,
    listing: Result<String, ProcessError>,
    manifest: Result<String, ProcessError>,
    host: HostPlatform,
) -> bool {
    match (listing, manifest) {
        (Err(p), _) => r matches Err(e) && e@ == (Failure::Process {
            status: p.status,
            output: p.output@,
        }),
        (Ok(_), Err(p)) => r matches Err(e) && e@ == (Failure::Process {
            status: p.status,
            output: p.output@,
        }),
        (Ok(l), Ok(m)) => reports(r, l@, m@, host),
    }
}

/// Resolves the build plan from what the listing command and the manifest
/// command gave. Nothing is resolved unless both commands succeeded: a
/// command's failure is the failure of the resolution.
pub fn resolve_from_runs(
    listing: Result<String, ProcessError>,
    manifest: Result<String, ProcessError>,
    host: HostPlatform,
) -> (r: Result<Resolution, ResolveError>)
    ensures
        reports_runs(r, listing, manifest, host),
{
    let listing_text = match listing {
        Ok(text) => text,
        Err(p) => {
            return Err(ResolveError::Process(p));
        },
    };
    let manifest_text = match manifest {
        Ok(text) => text,
        Err(p) => {
            return Err(ResolveError::Process(p));
        },
    };
    resolve_with_report(listing_text.as_str(), manifest_text.as_str(), host)
}

} // verus!
