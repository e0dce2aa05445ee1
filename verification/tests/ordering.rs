use artifact_resolver::artifact::ArtifactSet;
use artifact_resolver::identifier::ArtifactIdentifier;
use artifact_resolver::names::NameSet;
use artifact_resolver::text::{compare, Rank};
use std::cmp::Ordering;
use std::collections::BTreeSet;

fn id(name: &str) -> ArtifactIdentifier {
    ArtifactIdentifier::new(name.to_string())
}

const SAMPLES: [&str; 12] = [
    "",
    "A",
    "AA",
    "AB",
    "B",
    "a",
    "ab",
    "TMK_VMM_NATIVE",
    "TMK_VMM_LINUX_X64_MUSL",
    "é",
    "\u{ffff}",
    "\u{10000}",
];

#[test]
fn texts_stand_in_the_order_of_str() {
    for a in SAMPLES {
        for b in SAMPLES {
            let expected = match a.cmp(b) {
                Ordering::Less => Rank::Before,
                Ordering::Equal => Rank::Same,
                Ordering::Greater => Rank::After,
            };
            assert_eq!(compare(a, b), expected, "{:?} {:?}", a, b);
        }
    }
    assert_eq!(compare("abc", "abd"), Rank::Before);
    assert_eq!(compare("abc", "ab"), Rank::After);
    assert_eq!(compare("abc", "abc"), Rank::Same);
}

#[test]
fn identifiers_are_equal_by_name() {
    assert!(id("OPENVMM_NATIVE") == id("OPENVMM_NATIVE"));
    assert!(id("OPENVMM_NATIVE") != id("OPENVMM_NATIVE "));
    assert!(id("a") != id("A"));
    assert_eq!(id("x").clone(), id("x"));
    assert_eq!(id("x").name(), "x");
    assert_eq!(id("x").into_name(), "x");
}

#[test]
fn identifiers_are_totally_ordered() {
    for a in SAMPLES {
        for b in SAMPLES {
            assert_eq!(id(a).partial_cmp(&id(b)), Some(a.cmp(b)));
            assert_eq!(id(a).cmp(&id(b)), a.cmp(b));
            assert_eq!(id(a) < id(b), a < b);
            assert_eq!(id(a) == id(b), a == b);
            assert_eq!(id(a).rank(&id(b)) == Rank::Before, a < b);
            for c in SAMPLES {
                if id(a) < id(b) && id(b) < id(c) {
                    assert!(id(a) < id(c));
                }
            }
        }
    }
}

#[test]
fn identifiers_serve_as_set_keys() {
    let mut set = BTreeSet::new();
    for name in ["b", "a", "c", "a"] {
        set.insert(id(name));
    }
    let names: Vec<&str> = set.iter().map(|i| i.name()).collect();
    assert_eq!(names, vec!["a", "b", "c"]);
}

#[test]
fn name_set_keeps_ascending_order() {
    let mut set = NameSet::new();
    assert_eq!(set.len(), 0);
    assert!(!set.contains("m"));
    assert!(set.insert("m".to_string()));
    assert!(set.insert("z".to_string()));
    assert!(set.insert("a".to_string()));
    assert!(!set.insert("m".to_string()));
    assert!(set.insert("n".to_string()));
    assert!(set.insert("".to_string()));
    assert!(!set.insert("z".to_string()));
    assert_eq!(set.len(), 5);
    let listed: Vec<&str> = (0..set.len()).map(|i| set.get(i).as_str()).collect();
    assert_eq!(listed, vec!["", "a", "m", "n", "z"]);
    assert!(set.contains("n"));
    assert!(!set.contains("o"));
    let copy = set.clone();
    assert_eq!(copy.len(), 5);
    assert_eq!(copy.get(4), "z");
}

#[test]
fn sets_with_the_same_members_list_them_alike() {
    let mut forward = ArtifactSet::new();
    let mut backward = ArtifactSet::new();
    for name in SAMPLES {
        assert!(forward.insert(id(name)));
    }
    for name in SAMPLES.iter().rev() {
        assert!(backward.insert(id(name)));
    }
    let mut sorted: Vec<&str> = SAMPLES.to_vec();
    sorted.sort();
    assert_eq!(forward.len(), sorted.len());
    assert_eq!(backward.len(), sorted.len());
    for (i, name) in sorted.iter().enumerate() {
        assert_eq!(forward.get(i).name(), *name);
        assert_eq!(backward.get(i).name(), *name);
    }
    assert!(!forward.insert(id("A")));
    assert!(forward.contains(&id("é")));
    assert!(!forward.contains(&id("e")));
    let mut more = ArtifactSet::new();
    more.insert(id("zz"));
    more.insert(id("A"));
    more.extend_from(&forward);
    assert_eq!(more.len(), sorted.len() + 1);
}
