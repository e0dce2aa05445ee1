//! The artifact manifest: what each test reports that it needs.
//!
//! The manifest is text with one JSON array on each line. Each element of an
//! array is an object with the test's `name` and its `required` and `optional`
//! artifact identifiers. Blank lines carry nothing.

use crate::artifact::{record_views, ArtifactSet, RecordView, TestRecord};
use crate::identifier::ArtifactIdentifier;
use crate::error::{Failure, ResolveError, SchemaError, SchemaRule};
use crate::json::{json_document, member_of, Json, JsonValue};
use crate::text::{content_lines, content_lines_of, texts};
use vstd::prelude::*;

verus! {

/// Whether `tree` is an array of strings.
pub open spec fn is_id_list(tree: JsonValue) -> bool {
    tree matches JsonValue::List(items) && forall|i: int|
        0 <= i < items.len() ==> #[trigger] items[i] is Text
}

/// The identifiers that an array of strings names.
pub open spec fn ids_of(tree: JsonValue) -> Set<Seq<char>> {
    Set::new(
        |id: Seq<char>|
            tree matches JsonValue::List(items) && exists|i: int|
                0 <= i < items.len() && #[trigger] items[i] == JsonValue::Text(id),
    )
}

/// Whether an optional member is an array of strings.
pub open spec fn holds_ids(m: Option<JsonValue>) -> bool {
    m matches Some(tree) && is_id_list(tree)
}

/// The first rule that `tree` breaks as a test record, if it breaks one.
pub open spec fn record_fault(tree: JsonValue) -> Option<SchemaRule> {
    if !(tree is Record) {
        Some(SchemaRule::RecordObject)
    } else if !(member_of(tree, "name"@) matches Some(JsonValue::Text(_))) {
        Some(SchemaRule::RecordName)
    } else if !holds_ids(member_of(tree, "required"@)) {
        Some(SchemaRule::RecordRequired)
    } else if !holds_ids(member_of(tree, "optional"@)) {
        Some(SchemaRule::RecordOptional)
    } else {
        None
    }
}

/// The test record that `tree` holds, where it breaks no rule.
pub open spec fn record_of(tree: JsonValue) -> RecordView {
    RecordView {
        name: member_of(tree, "name"@)->Some_0->Text_0,
        required: ids_of(member_of(tree, "required"@)->Some_0),
        optional: ids_of(member_of(tree, "optional"@)->Some_0),
    }
}

/// The rule that the first of `items` from index `from` on that breaks one
/// breaks.
pub open spec fn first_fault(items: Seq<JsonValue>, from: int) -> Option<SchemaRule>
    decreases items.len() - from,
{
    if from < 0 || from >= items.len() {
        None
    } else if record_fault(items[from]) is Some {
        record_fault(items[from])
    } else {
        first_fault(items, from + 1)
    }
}

/// The records that one parsed line holds, or the first rule that it breaks.
pub open spec fn line_records(tree: JsonValue) -> Result<Seq<RecordView>, SchemaRule> {
    match tree {
        JsonValue::List(items) => match first_fault(items, 0) {
            Some(rule) => Err(rule),
            None => Ok(items.map_values(|item: JsonValue| record_of(item))),
        },
        _ => Err(SchemaRule::RecordArray),
    }
}

/// The records that one line of text holds, or why it holds none. Either
/// failure holds the line.
pub open spec fn line_outcome(line: Seq<char>) -> Result<Seq<RecordView>, Failure> {
    match json_document(line) {
        Err(cause) => Err(Failure::Parse { content: line, cause }),
        Ok(tree) => match line_records(tree) {
            Err(rule) => Err(Failure::Schema { content: line, rule }),
            Ok(records) => Ok(records),
        },
    }
}

/// `records`, followed by what `rest` holds; the failure of `rest` where it
/// is one.
pub open spec fn followed_by(
    records: Seq<RecordView>,
    rest: Result<Seq<RecordView>, Failure>,
) -> Result<Seq<RecordView>, Failure> {
    match rest {
        Ok(more) => Ok(records + more),
        Err(failure) => Err(failure),
    }
}

/// The records of the lines from index `from` on, in order, or the failure of
/// the first line that has one.
pub open spec fn manifest_from(lines: Seq<Seq<char>>, from: int) -> Result<
    Seq<RecordView>,
    Failure,
>
    decreases lines.len() - from,
{
    if from < 0 || from >= lines.len() {
        Ok(Seq::empty())
    } else {
        match line_outcome(lines[from]) {
            Err(failure) => Err(failure),
            Ok(records) => followed_by(records, manifest_from(lines, from + 1)),
        }
    }
}

/// What reading a manifest text gives: the records of all its lines, in
/// order, or the failure of the first line that has one.
pub open spec fn manifest_outcome(text: Seq<char>) -> Result<Seq<RecordView>, Failure> {
    manifest_from(content_lines(text), 0)
}

/// Reading succeeds exactly when every line does, and then gives exactly the
/// records of the lines.
pub proof fn lemma_manifest_lines(lines: Seq<Seq<char>>, from: int)
    requires
        0 <= from <= lines.len(),
    ensures
        manifest_from(lines, from) is Ok <==> forall|i: int|
            from <= i < lines.len() ==> #[trigger] line_outcome(lines[i]) is Ok,
        manifest_from(lines, from) is Ok ==> forall|r: RecordView|
            #[trigger] manifest_from(lines, from)->Ok_0.contains(r) <==> exists|i: int|
                from <= i < lines.len() && (#[trigger] line_outcome(lines[i]))->Ok_0.contains(r),
    decreases lines.len() - from,
{
    if from < lines.len() {
        lemma_manifest_lines(lines, from + 1);
        let first = line_outcome(lines[from]);
        let rest = manifest_from(lines, from + 1);
        if first is Ok && rest is Ok {
            let all = manifest_from(lines, from)->Ok_0;
            assert(all == first->Ok_0 + rest->Ok_0);
            assert forall|r: RecordView| #[trigger] all.contains(r) <==> exists|i: int|
                from <= i < lines.len() && (#[trigger] line_outcome(lines[i]))->Ok_0.contains(
                    r,
                ) by {
                if all.contains(r) {
                    let k = choose|k: int| 0 <= k < all.len() && all[k] == r;
                    if k < first->Ok_0.len() {
                        assert(first->Ok_0[k] == r);
                        assert(line_outcome(lines[from])->Ok_0.contains(r));
                    } else {
                        assert(rest->Ok_0[k - first->Ok_0.len()] == r);
                        assert(rest->Ok_0.contains(r));
                    }
                }
                if exists|i: int|
                    from <= i < lines.len() && (#[trigger] line_outcome(lines[i]))->Ok_0.contains(
                        r,
                    ) {
                    let i = choose|i: int|
                        from <= i < lines.len() && (#[trigger] line_outcome(
                            lines[i],
                        ))->Ok_0.contains(r);
                    if i == from {
                        let k = choose|k: int| 0 <= k < first->Ok_0.len() && first->Ok_0[k] == r;
                        assert(all[k] == r);
                    } else {
                        assert(rest->Ok_0.contains(r));
                        let k = choose|k: int| 0 <= k < rest->Ok_0.len() && rest->Ok_0[k] == r;
                        assert(all[first->Ok_0.len() + k] == r);
                    }
                }
            }
        }
    }
}

/// Where reading succeeds, the order of the lines does not matter: a
/// permutation of the lines is read with success too, and gives the same
/// records, in another order.
pub proof fn lemma_line_order(a: Seq<Seq<char>>, b: Seq<Seq<char>>)
    requires
        a.to_multiset() == b.to_multiset(),
        manifest_from(a, 0) is Ok,
    ensures
        manifest_from(b, 0) is Ok,
        manifest_from(a, 0)->Ok_0.to_set() == manifest_from(b, 0)->Ok_0.to_set(),
{
    broadcast use vstd::seq_lib::to_multiset_contains;

    lemma_manifest_lines(a, 0);
    lemma_manifest_lines(b, 0);
    assert forall|line: Seq<char>| a.contains(line) == b.contains(line) by {
        assert(a.contains(line) == (a.to_multiset().count(line) > 0));
        assert(b.contains(line) == (b.to_multiset().count(line) > 0));
    }
    assert forall|j: int| 0 <= j < b.len() implies #[trigger] line_outcome(b[j]) is Ok by {
        assert(b.contains(b[j]));
        let i = choose|i: int| 0 <= i < a.len() && a[i] == b[j];
        assert(line_outcome(a[i]) is Ok);
    }
    let ra = manifest_from(a, 0)->Ok_0;
    let rb = manifest_from(b, 0)->Ok_0;
    assert forall|r: RecordView| ra.contains(r) == rb.contains(r) by {
        if ra.contains(r) {
            let i = choose|i: int|
                0 <= i < a.len() && (#[trigger] line_outcome(a[i]))->Ok_0.contains(r);
            assert(a.contains(a[i]));
            let j = choose|j: int| 0 <= j < b.len() && b[j] == a[i];
            assert(line_outcome(b[j])->Ok_0.contains(r));
        }
        if rb.contains(r) {
            let j = choose|j: int|
                0 <= j < b.len() && (#[trigger] line_outcome(b[j]))->Ok_0.contains(r);
            assert(b.contains(b[j]));
            let i = choose|i: int| 0 <= i < a.len() && a[i] == b[j];
            assert(line_outcome(a[i])->Ok_0.contains(r));
        }
    }
    assert(ra.to_set() =~= rb.to_set());
}

/// The identifiers that `tree` names, where it is an array of strings.
pub fn decode_ids(tree: &Json) -> (r: Option<ArtifactSet>)
    ensures
        match r {
            Some(set) => is_id_list(tree@) && set@ == ids_of(tree@),
            None => !is_id_list(tree@),
        },
{
    match tree {
        Json::List(items) => {
            proof {
                Json::List(*items).lemma_view_list();
            }
            let ghost trees = tree@->List_0;
            let mut set = ArtifactSet::new();
            let mut i: usize = 0;
            while i < items.len()
                invariant
                    i <= items.len(),
                    tree@ == JsonValue::List(trees),
                    trees.len() == items@.len(),
                    forall|k: int| 0 <= k < items@.len() ==> #[trigger] trees[k] == items@[k]@,
                    forall|k: int| 0 <= k < i ==> #[trigger] trees[k] is Text,
                    forall|id: Seq<char>|
                        set@.contains(id) <==> exists|k: int|
                            0 <= k < i && #[trigger] trees[k] == JsonValue::Text(id),
                decreases items.len() - i,
            {
                match &items[i] {
                    Json::Text(s) => {
                        set.insert(ArtifactIdentifier::new(s.clone()));
                        assert(trees[i as int] == JsonValue::Text(s@));
                    },
                    _ => {
                        assert(!(trees[i as int] is Text));
                        return None;
                    },
                }
                i += 1;
            }
            assert(set@ =~= ids_of(tree@));
            Some(set)
        },
        _ => None,
    }
}

/// The identifiers under `key` in `tree`, where it holds an array of strings
/// there.
fn decode_ids_under(tree: &Json, key: &str) -> (r: Option<ArtifactSet>)
    ensures
        match r {
            Some(set) => holds_ids(member_of(tree@, key@)) && set@ == ids_of(
                member_of(tree@, key@)->Some_0,
            ),
            None => !holds_ids(member_of(tree@, key@)),
        },
{
    match tree.member(key) {
        Some(m) => decode_ids(m),
        None => None,
    }
}

impl TestRecord {
    /// The test record that `tree` holds.
    ///
    /// Fails with the first rule that `tree` breaks, exactly when it breaks
    /// one.
    pub fn decode(tree: &Json) -> (r: Result<TestRecord, SchemaRule>)
        ensures
            match record_fault(tree@) {
                Some(rule) => r == Err::<TestRecord, SchemaRule>(rule),
                None => r matches Ok(record) && record@ == record_of(tree@),
            },
    {
        match tree {
            Json::Record(_) => {},
            _ => {
                return Err(SchemaRule::RecordObject);
            },
        }
        let name = match tree.member("name") {
            Some(Json::Text(s)) => s.clone(),
            _ => {
                return Err(SchemaRule::RecordName);
            },
        };
        let required = match decode_ids_under(tree, "required") {
            Some(set) => set,
            None => {
                return Err(SchemaRule::RecordRequired);
            },
        };
        let optional = match decode_ids_under(tree, "optional") {
            Some(set) => set,
            None => {
                return Err(SchemaRule::RecordOptional);
            },
        };
        Ok(TestRecord { name, required, optional })
    }
}

/// The test records that one parsed manifest line holds.
///
/// Fails with the first rule that the line breaks, exactly when it breaks
/// one.
pub fn decode_line(doc: &Json) -> (r: Result<Vec<TestRecord>, SchemaRule>)
    ensures
        match line_records(doc@) {
            Err(rule) => r == Err::<Vec<TestRecord>, SchemaRule>(rule),
            Ok(records) => r matches Ok(v) && record_views(v@) == records,
        },
{
    match doc {
        Json::List(items) => {
            proof {
                Json::List(*items).lemma_view_list();
            }
            let ghost trees = doc@->List_0;
            let mut records: Vec<TestRecord> = Vec::new();
            let mut i: usize = 0;
            while i < items.len()
                invariant
                    i <= items.len(),
                    doc@ == JsonValue::List(trees),
                    trees.len() == items@.len(),
                    forall|k: int| 0 <= k < items@.len() ==> #[trigger] trees[k] == items@[k]@,
                    first_fault(trees, 0) == first_fault(trees, i as int),
                    records@.len() == i,
                    forall|k: int|
                        0 <= k < i ==> (#[trigger] records@[k])@ == record_of(trees[k]),
                decreases items.len() - i,
            {
                match TestRecord::decode(&items[i]) {
                    Ok(record) => {
                        records.push(record);
                    },
                    Err(rule) => {
                        return Err(rule);
                    },
                }
                i += 1;
            }
            assert(record_views(records@) =~= trees.map_values(|item: JsonValue| record_of(item)));
            Ok(records)
        },
        _ => Err(SchemaRule::RecordArray),
    }
}

/// The test records that one line of the manifest holds.
pub fn parse_line(line: &str) -> (r: Result<Vec<TestRecord>, ResolveError>)
    ensures
        match line_outcome(line@) {
            Err(failure) => r matches Err(e) && e@ == failure,
            Ok(records) => r matches Ok(v) && record_views(v@) == records,
        },
{
    match Json::parse(line) {
        Err(e) => Err(e),
        Ok(doc) => match decode_line(&doc) {
            Ok(records) => Ok(records),
            Err(rule) => Err(
                ResolveError::Schema(SchemaError { content: String::from_str(line), rule }),
            ),
        },
    }
}

/// Reads a manifest text: the records of all its lines, in order.
///
/// Lines are trimmed, and blank lines are passed over. The first line that
/// is not well-formed JSON, or that is and breaks a rule of the schema, ends
/// the reading with its failure: no record of any line is returned then.
pub fn parse_manifest(text: &str) -> (r: Result<Vec<TestRecord>, ResolveError>)
    ensures
        match manifest_outcome(text@) {
            Err(failure) => r matches Err(e) && e@ == failure,
            Ok(records) => r matches Ok(v) && record_views(v@) == records,
        },
{
    let lines = content_lines_of(text);
    let ghost all = texts(lines@);
    let mut records: Vec<TestRecord> = Vec::new();
    let mut i: usize = 0;
    while i < lines.len()
        invariant
            i <= lines.len(),
            all == texts(lines@),
            all == content_lines(text@),
            manifest_from(all, 0) == followed_by(record_views(records@), manifest_from(all, i as int)),
        decreases lines.len() - i,
    {
        assert(all[i as int] == lines@[i as int]@);
        let ghost before = record_views(records@);
        match parse_line(lines[i].as_str()) {
            Err(e) => {
                return Err(e);
            },
            Ok(mut found) => {
                let ghost added = record_views(found@);
                records.append(&mut found);
                proof {
                    assert(record_views(records@) =~= before + added);
                    let rest = manifest_from(all, i + 1);
                    if rest is Ok {
                        assert((before + added) + rest->Ok_0 =~= before + (added + rest->Ok_0));
                    }
                }
            },
        }
        i += 1;
    }
    proof {
        assert(record_views(records@) + Seq::<RecordView>::empty() =~= record_views(records@));
    }
    Ok(records)
}

} // verus!
