//! The test listing: which tests of which suites the filter matched.

use crate::error::{Failure, ResolveError, SchemaError, SchemaRule};
use crate::json::{json_document, member_of, Json, JsonValue};
use crate::names::NameSet;
use vstd::prelude::*;

verus! {

/// Whether the filter selected a test.
#[derive(Clone, Copy, Debug, PartialEq, Eq, Structural)]
pub enum MatchStatus {
    Matches,
    Mismatch,
    Other,
}

/// One test of a suite, with its match status.
#[derive(Clone, Debug)]
pub struct TestCase {
    pub name: String,
    pub status: MatchStatus,
}

/// One suite of the listing, with its tests.
#[derive(Clone, Debug)]
pub struct Suite {
    pub name: String,
    pub cases: Vec<TestCase>,
}

/// The listing: for each suite, for each of its tests, the match status.
#[derive(Clone, Debug)]
pub struct FilterMatchResult {
    pub suites: Vec<Suite>,
}

/// The view of a [`TestCase`].
pub struct CaseView {
    pub name: Seq<char>,
    pub status: MatchStatus,
}

/// The view of a [`Suite`].
pub struct SuiteView {
    pub name: Seq<char>,
    pub cases: Seq<CaseView>,
}

impl View for TestCase {
    type V = CaseView;

    open spec fn view(&self) -> CaseView {
        CaseView { name: self.name@, status: self.status }
    }
}

impl View for Suite {
    type V = SuiteView;

    open spec fn view(&self) -> SuiteView {
        SuiteView { name: self.name@, cases: self.cases@.map_values(|c: TestCase| c@) }
    }
}

impl View for FilterMatchResult {
    type V = Seq<SuiteView>;

    open spec fn view(&self) -> Seq<SuiteView> {
        self.suites@.map_values(|s: Suite| s@)
    }
}

/// The status that a status string stands for.
pub open spec fn status_named(s: Seq<char>) -> MatchStatus {
    if s == "matches"@ {
        MatchStatus::Matches
    } else if s == "mismatch"@ {
        MatchStatus::Mismatch
    } else {
        MatchStatus::Other
    }
}

/// The match status of a test case: the string under `filter-match`, then
/// `status`. A case without such a string has the status `Other`.
pub open spec fn status_of(case: JsonValue) -> MatchStatus {
    match member_of(case, "filter-match"@) {
        Some(m) => match member_of(m, "status"@) {
            Some(JsonValue::Text(s)) => status_named(s),
            _ => MatchStatus::Other,
        },
        None => MatchStatus::Other,
    }
}

/// The test case that one member of a `testcases` object describes.
pub open spec fn case_of(m: (Seq<char>, JsonValue)) -> CaseView {
    CaseView { name: m.0, status: status_of(m.1) }
}

/// The test cases of a suite: the members of the object under `testcases`.
/// A suite without such an object has none.
pub open spec fn cases_of(suite: JsonValue) -> Seq<CaseView> {
    match member_of(suite, "testcases"@) {
        Some(JsonValue::Record(ms)) => ms.map_values(|m: (Seq<char>, JsonValue)| case_of(m)),
        _ => Seq::empty(),
    }
}

/// The suite that one member of the `rust-suites` object describes.
pub open spec fn suite_of(m: (Seq<char>, JsonValue)) -> SuiteView {
    SuiteView { name: m.0, cases: cases_of(m.1) }
}

/// The listing that a document holds: the members of the object under
/// `rust-suites`. A document without such an object holds none.
pub open spec fn listing_of(doc: JsonValue) -> Option<Seq<SuiteView>> {
    match member_of(doc, "rust-suites"@) {
        Some(JsonValue::Record(ms)) => Some(
            ms.map_values(|m: (Seq<char>, JsonValue)| suite_of(m)),
        ),
        _ => None,
    }
}

/// Whether some suite of `listing` holds a test `name` that matches.
pub open spec fn is_matched(listing: Seq<SuiteView>, name: Seq<char>) -> bool {
    exists|s: int, c: int|
        0 <= s < listing.len() && 0 <= c < listing[s].cases.len() && (
        #[trigger] listing[s].cases[c]) == (CaseView { name, status: MatchStatus::Matches })
}

/// The names of the tests that match, whatever their suite.
pub open spec fn matched_names(listing: Seq<SuiteView>) -> Set<Seq<char>> {
    Set::new(|name: Seq<char>| is_matched(listing, name))
}

/// What reading a listing text gives: the names that match, or the failure.
pub open spec fn listing_outcome(text: Seq<char>) -> Result<Set<Seq<char>>, Failure> {
    match json_document(text) {
        Err(cause) => Err(Failure::Parse { content: text, cause }),
        Ok(doc) => match listing_of(doc) {
            None => Err(Failure::Schema { content: text, rule: SchemaRule::SuitesObject }),
            Some(listing) => Ok(matched_names(listing)),
        },
    }
}

/// Where every suite of `a` is one of `b`, every name matched in `a` is
/// matched in `b`.
proof fn lemma_suites_within(a: Seq<SuiteView>, b: Seq<SuiteView>)
    requires
        a.to_set().subset_of(b.to_set()),
    ensures
        matched_names(a).subset_of(matched_names(b)),
{
    assert forall|name: Seq<char>| matched_names(a).contains(name) implies (
    #[trigger] matched_names(b).contains(name)) by {
        let (s, c) = choose|s: int, c: int|
            0 <= s < a.len() && 0 <= c < a[s].cases.len() && (#[trigger] a[s].cases[c]) == (
            CaseView { name, status: MatchStatus::Matches });
        assert(a.to_set().contains(a[s]));
        assert(b.contains(a[s]));
        let t = choose|t: int| 0 <= t < b.len() && b[t] == a[s];
        assert(b[t].cases[c] == (CaseView { name, status: MatchStatus::Matches }));
    }
}

/// The order of the suites does not matter: a permutation of the suites gives
/// the same matched names.
pub proof fn lemma_suite_order(a: Seq<SuiteView>, b: Seq<SuiteView>)
    requires
        a.to_multiset() == b.to_multiset(),
    ensures
        matched_names(a) == matched_names(b),
{
    broadcast use vstd::seq_lib::to_multiset_contains;

    assert forall|s: SuiteView| a.to_set().contains(s) == b.to_set().contains(s) by {
        assert(a.contains(s) == (a.to_multiset().count(s) > 0));
        assert(b.contains(s) == (b.to_multiset().count(s) > 0));
    }
    assert(a.to_set() =~= b.to_set());
    lemma_suites_within(a, b);
    lemma_suites_within(b, a);
    assert(matched_names(a) =~= matched_names(b));
}

/// The order of the tests within a suite does not matter: a permutation of
/// the tests of any one suite gives the same matched names.
pub proof fn lemma_case_order(listing: Seq<SuiteView>, s: int, cases: Seq<CaseView>)
    requires
        0 <= s < listing.len(),
        cases.to_multiset() == listing[s].cases.to_multiset(),
    ensures
        matched_names(listing.update(s, SuiteView { name: listing[s].name, cases }))
            == matched_names(listing),
{
    broadcast use vstd::seq_lib::to_multiset_contains;

    let changed = listing.update(s, SuiteView { name: listing[s].name, cases });
    assert forall|name: Seq<char>|
        matched_names(changed).contains(name) == (#[trigger] matched_names(listing).contains(
            name,
        )) by {
        let wanted = CaseView { name, status: MatchStatus::Matches };
        assert(cases.contains(wanted) == (cases.to_multiset().count(wanted) > 0));
        assert(listing[s].cases.contains(wanted) == (listing[s].cases.to_multiset().count(wanted)
            > 0));
        if matched_names(changed).contains(name) {
            let (a, c) = choose|a: int, c: int|
                0 <= a < changed.len() && 0 <= c < changed[a].cases.len() && (
                #[trigger] changed[a].cases[c]) == wanted;
            if a == s {
                assert(cases.contains(wanted));
                let d = choose|d: int|
                    0 <= d < listing[s].cases.len() && listing[s].cases[d] == wanted;
                assert(listing[s].cases[d] == wanted);
            } else {
                assert(listing[a].cases[c] == wanted);
            }
        }
        if matched_names(listing).contains(name) {
            let (a, c) = choose|a: int, c: int|
                0 <= a < listing.len() && 0 <= c < listing[a].cases.len() && (
                #[trigger] listing[a].cases[c]) == wanted;
            if a == s {
                assert(listing[s].cases.contains(wanted));
                let d = choose|d: int| 0 <= d < cases.len() && cases[d] == wanted;
                assert(changed[s].cases[d] == wanted);
            } else {
                assert(changed[a].cases[c] == wanted);
            }
        }
    }
    assert(matched_names(changed) =~= matched_names(listing));
}

impl MatchStatus {
    /// The status that the string `s` stands for.
    pub fn named(s: &String) -> (r: MatchStatus)
        ensures
            r == status_named(s@),
    {
        if *s == String::from_str("matches") {
            MatchStatus::Matches
        } else if *s == String::from_str("mismatch") {
            MatchStatus::Mismatch
        } else {
            MatchStatus::Other
        }
    }

    /// The match status that a test case of the listing holds.
    pub fn decode(case: &Json) -> (r: MatchStatus)
        ensures
            r == status_of(case@),
    {
        match case.member("filter-match") {
            Some(m) => match m.member("status") {
                Some(Json::Text(s)) => MatchStatus::named(s),
                _ => MatchStatus::Other,
            },
            None => MatchStatus::Other,
        }
    }
}

impl Suite {
    /// The suite `name` that `suite` describes.
    pub fn decode(name: &String, suite: &Json) -> (r: Suite)
        ensures
            r@ == suite_of((name@, suite@)),
    {
        let mut cases: Vec<TestCase> = Vec::new();
        match suite.member("testcases") {
            Some(Json::Record(ms)) => {
                let ghost found = member_of(suite@, "testcases"@)->Some_0;
                proof {
                    Json::Record(*ms).lemma_view_record();
                }
                let mut i: usize = 0;
                while i < ms.len()
                    invariant
                        i <= ms.len(),
                        found is Record,
                        found->Record_0.len() == ms@.len(),
                        forall|k: int|
                            0 <= k < ms@.len() ==> #[trigger] found->Record_0[k] == (
                                ms@[k].0@,
                                ms@[k].1@,
                            ),
                        cases@.len() == i,
                        forall|k: int|
                            0 <= k < i ==> (#[trigger] cases@[k])@ == case_of(found->Record_0[k]),
                    decreases ms.len() - i,
                {
                    let status = MatchStatus::decode(&ms[i].1);
                    cases.push(TestCase { name: ms[i].0.clone(), status });
                    i += 1;
                }
                let r = Suite { name: name.clone(), cases };
                assert(r@.cases =~= cases_of(suite@));
                r
            },
            _ => {
                let r = Suite { name: name.clone(), cases };
                assert(r@.cases =~= cases_of(suite@));
                r
            },
        }
    }
}

impl FilterMatchResult {
    /// The listing that `doc` holds.
    ///
    /// Fails with [`SchemaRule::SuitesObject`] exactly when `doc` holds no
    /// object under `rust-suites`.
    pub fn decode(doc: &Json) -> (r: Result<FilterMatchResult, SchemaRule>)
        ensures
            match listing_of(doc@) {
                Some(listing) => r matches Ok(f) && f@ == listing,
                None => r == Err::<FilterMatchResult, SchemaRule>(SchemaRule::SuitesObject),
            },
    {
        match doc.member("rust-suites") {
            Some(Json::Record(ms)) => {
                let ghost found = member_of(doc@, "rust-suites"@)->Some_0;
                proof {
                    Json::Record(*ms).lemma_view_record();
                }
                let mut suites: Vec<Suite> = Vec::new();
                let mut i: usize = 0;
                while i < ms.len()
                    invariant
                        i <= ms.len(),
                        found is Record,
                        found->Record_0.len() == ms@.len(),
                        forall|k: int|
                            0 <= k < ms@.len() ==> #[trigger] found->Record_0[k] == (
                                ms@[k].0@,
                                ms@[k].1@,
                            ),
                        suites@.len() == i,
                        forall|k: int|
                            0 <= k < i ==> (#[trigger] suites@[k])@ == suite_of(
                                found->Record_0[k],
                            ),
                    decreases ms.len() - i,
                {
                    let suite = Suite::decode(&ms[i].0, &ms[i].1);
                    suites.push(suite);
                    i += 1;
                }
                let f = FilterMatchResult { suites };
                assert(f@ =~= listing_of(doc@)->Some_0);
                Ok(f)
            },
            _ => Err(SchemaRule::SuitesObject),
        }
    }

    /// The names of the tests that match, whatever their suite.
    pub fn matched_names(&self) -> (r: NameSet)
        ensures
            r@ == matched_names(self@),
    {
        let mut names = NameSet::new();
        let mut s: usize = 0;
        while s < self.suites.len()
            invariant
                s <= self.suites.len(),
                forall|n: Seq<char>|
                    names@.contains(n) <==> exists|a: int, c: int|
                        0 <= a < s && 0 <= c < self@[a].cases.len() && (
                        #[trigger] self@[a].cases[c]) == (CaseView {
                            name: n,
                            status: MatchStatus::Matches,
                        }),
            decreases self.suites.len() - s,
        {
            let suite = &self.suites[s];
            let mut c: usize = 0;
            while c < suite.cases.len()
                invariant
                    s < self.suites.len(),
                    suite == &self.suites@[s as int],
                    c <= suite.cases.len(),
                    forall|n: Seq<char>|
                        names@.contains(n) <==> (exists|a: int, b: int|
                            0 <= a < s && 0 <= b < self@[a].cases.len() && (
                            #[trigger] self@[a].cases[b]) == (CaseView {
                                name: n,
                                status: MatchStatus::Matches,
                            })) || (exists|b: int|
                            0 <= b < c && (#[trigger] self@[s as int].cases[b]) == (CaseView {
                                name: n,
                                status: MatchStatus::Matches,
                            })),
                decreases suite.cases.len() - c,
            {
                let case = &suite.cases[c];
                assert(self@[s as int].cases[c as int] == case@);
                match case.status {
                    MatchStatus::Matches => {
                        names.insert(case.name.clone());
                    },
                    _ => {},
                }
                c += 1;
            }
            assert(self@[s as int].cases.len() == suite.cases@.len());
            s += 1;
        }
        assert(names@ =~= matched_names(self@));
        names
    }

    /// Reads a listing text.
    ///
    /// Fails with a parse error exactly when the text is not well-formed
    /// JSON, and with a schema error exactly when it is and holds no object
    /// under `rust-suites`. Either error holds the whole text.
    pub fn parse(text: &str) -> (r: Result<FilterMatchResult, ResolveError>)
        ensures
            match json_document(text@) {
                Err(cause) => r matches Err(e) && e@ == (Failure::Parse { content: text@, cause }),
                Ok(doc) => match listing_of(doc) {
                    None => r matches Err(e) && e@ == (Failure::Schema {
                        content: text@,
                        rule: SchemaRule::SuitesObject,
                    }),
                    Some(listing) => r matches Ok(f) && f@ == listing,
                },
            },
    {
        match Json::parse(text) {
            Err(e) => Err(e),
            Ok(doc) => match FilterMatchResult::decode(&doc) {
                Ok(f) => Ok(f),
                Err(rule) => Err(
                    ResolveError::Schema(SchemaError { content: String::from_str(text), rule }),
                ),
            },
        }
    }
}

/// The names of the tests that the listing `text` marks as matching.
pub fn matched_names_in(text: &str) -> (r: Result<NameSet, ResolveError>)
    ensures
        match listing_outcome(text@) {
            Ok(names) => r matches Ok(set) && set@ == names,
            Err(failure) => r matches Err(e) && e@ == failure,
        },
{
    match FilterMatchResult::parse(text) {
        Ok(f) => Ok(f.matched_names()),
        Err(e) => Err(e),
    }
}

} // verus!
