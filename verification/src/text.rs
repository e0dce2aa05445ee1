//! Texts: their order, and how a text splits into trimmed lines.

use vstd::prelude::*;
use vstd::string::StringSliceAdditionalSpecFns;
use vstd::utf8::{encode_utf8, encode_utf8_decode_utf8};

verus! {

/// The texts of a sequence of strings.
pub open spec fn texts(v: Seq<String>) -> Seq<Seq<char>> {
    v.map_values(|s: String| s@)
}

/// Whether `c` is white space: the code points that Unicode gives the
/// property `White_Space`.
pub open spec fn is_space(c: char) -> bool {
    ||| '\u{9}' <= c <= '\u{d}'
    ||| c == ' '
    ||| c == '\u{85}'
    ||| c == '\u{a0}'
    ||| c == '\u{1680}'
    ||| '\u{2000}' <= c <= '\u{200a}'
    ||| c == '\u{2028}'
    ||| c == '\u{2029}'
    ||| c == '\u{202f}'
    ||| c == '\u{205f}'
    ||| c == '\u{3000}'
}

/// Whether `c` is white space.
pub fn is_space_char(c: char) -> (r: bool)
    ensures
        r == is_space(c),
{
    ('\u{9}' <= c && c <= '\u{d}') || c == ' ' || c == '\u{85}' || c == '\u{a0}' || c
        == '\u{1680}' || ('\u{2000}' <= c && c <= '\u{200a}') || c == '\u{2028}' || c
        == '\u{2029}' || c == '\u{202f}' || c == '\u{205f}' || c == '\u{3000}'
}

/// The characters of `s`, one by one.
pub fn chars_of(s: &str) -> (v: Vec<char>)
    ensures
        v@ == s@,
{
    let mut v: Vec<char> = Vec::new();
    for c in it: s.chars()
        invariant
            it.seq() == s@,
            v@ == it.seq().take(it.index() as int),
    {
        v.push(c);
    }
    v
}

/// How one text stands to another in the order of texts.
#[derive(Clone, Copy, Debug, PartialEq, Eq, Structural)]
pub enum Rank {
    Before,
    Same,
    After,
}

/// How the bytes `a` stand to the bytes `b` from index `from` on: the first
/// byte that differs decides, and where none differs the shorter comes first.
pub open spec fn rank_from(a: Seq<u8>, b: Seq<u8>, from: int) -> Rank
    decreases a.len() - from,
{
    if from < 0 {
        Rank::Same
    } else if from >= a.len() {
        if from >= b.len() {
            Rank::Same
        } else {
            Rank::Before
        }
    } else if from >= b.len() {
        Rank::After
    } else if a[from] < b[from] {
        Rank::Before
    } else if a[from] > b[from] {
        Rank::After
    } else {
        rank_from(a, b, from + 1)
    }
}

/// How the text `a` stands to the text `b`: the order of their UTF-8 bytes,
/// which is the order that `str` has.
pub open spec fn rank(a: Seq<char>, b: Seq<char>) -> Rank {
    rank_from(encode_utf8(a), encode_utf8(b), 0)
}

/// Whether `s` ascends strictly: each text stands before all that follow.
pub open spec fn ascending(s: Seq<Seq<char>>) -> bool {
    forall|i: int, j: int| 0 <= i < j < s.len() ==> rank(s[i], s[j]) == Rank::Before
}

proof fn lemma_rank_from_same(a: Seq<u8>, b: Seq<u8>, from: int)
    requires
        0 <= from,
    ensures
        rank_from(a, b, from) == Rank::Same <==> (a.len() == b.len() && forall|k: int|
            from <= k < a.len() ==> a[k] == b[k]) || (from >= a.len() && from >= b.len()),
    decreases a.len() - from,
{
    if from < a.len() && from < b.len() && a[from] == b[from] {
        lemma_rank_from_same(a, b, from + 1);
    }
}

proof fn lemma_rank_from_flip(a: Seq<u8>, b: Seq<u8>, from: int)
    requires
        0 <= from,
    ensures
        rank_from(a, b, from) == Rank::Before <==> rank_from(b, a, from) == Rank::After,
        rank_from(a, b, from) == Rank::Same <==> rank_from(b, a, from) == Rank::Same,
    decreases a.len() - from,
{
    if from < a.len() && from < b.len() && a[from] == b[from] {
        lemma_rank_from_flip(a, b, from + 1);
    }
}

proof fn lemma_rank_from_chain(a: Seq<u8>, b: Seq<u8>, c: Seq<u8>, from: int)
    requires
        0 <= from,
        rank_from(a, b, from) == Rank::Before,
        rank_from(b, c, from) == Rank::Before,
    ensures
        rank_from(a, c, from) == Rank::Before,
    decreases a.len() - from,
{
    if from < a.len() && from < b.len() && from < c.len() && a[from] == b[from] && b[from]
        == c[from] {
        lemma_rank_from_chain(a, b, c, from + 1);
    }
}

/// Two texts stand the same exactly when they are the same text.
pub proof fn lemma_rank_same(a: Seq<char>, b: Seq<char>)
    ensures
        rank(a, b) == Rank::Same <==> a == b,
{
    let x = encode_utf8(a);
    let y = encode_utf8(b);
    lemma_rank_from_same(x, y, 0);
    if rank(a, b) == Rank::Same {
        assert(x =~= y);
        encode_utf8_decode_utf8(a);
        encode_utf8_decode_utf8(b);
    }
}

/// `a` stands before `b` exactly when `b` stands after `a`.
pub proof fn lemma_rank_flip(a: Seq<char>, b: Seq<char>)
    ensures
        rank(a, b) == Rank::Before <==> rank(b, a) == Rank::After,
        rank(a, b) == Rank::Same <==> rank(b, a) == Rank::Same,
{
    lemma_rank_from_flip(encode_utf8(a), encode_utf8(b), 0);
}

/// Where `a` stands before `b` and `b` before `c`, `a` stands before `c`.
pub proof fn lemma_rank_chain(a: Seq<char>, b: Seq<char>, c: Seq<char>)
    requires
        rank(a, b) == Rank::Before,
        rank(b, c) == Rank::Before,
    ensures
        rank(a, c) == Rank::Before,
{
    lemma_rank_from_chain(encode_utf8(a), encode_utf8(b), encode_utf8(c), 0);
}

/// A sequence that ascends strictly holds no text twice.
pub proof fn lemma_ascending_distinct(s: Seq<Seq<char>>)
    requires
        ascending(s),
    ensures
        s.no_duplicates(),
{
    assert forall|i: int, j: int| 0 <= i < s.len() && 0 <= j < s.len() && i != j implies s[i]
        != s[j] by {
        lemma_rank_same(s[i], s[j]);
        if i < j {
            assert(rank(s[i], s[j]) == Rank::Before);
        } else {
            assert(rank(s[j], s[i]) == Rank::Before);
            lemma_rank_flip(s[j], s[i]);
        }
    }
}

/// The order leaves no choice: two sequences that ascend strictly and hold
/// the same texts are the same sequence.
pub proof fn lemma_ascending_unique(a: Seq<Seq<char>>, b: Seq<Seq<char>>)
    requires
        ascending(a),
        ascending(b),
        a.to_set() == b.to_set(),
    ensures
        a == b,
    decreases a.len(),
{
    lemma_ascending_distinct(a);
    lemma_ascending_distinct(b);
    a.unique_seq_to_set();
    b.unique_seq_to_set();
    assert(a.len() == b.len());
    if a.len() == 0 {
        assert(a =~= b);
    } else {
        let x = a.last();
        let y = b.last();
        assert(a.to_set().contains(x));
        assert(b.contains(x));
        assert(b.to_set().contains(y));
        assert(a.contains(y));
        let j = choose|j: int| 0 <= j < b.len() && b[j] == x;
        let k = choose|k: int| 0 <= k < a.len() && a[k] == y;
        assert(x == y) by {
            if j < b.len() - 1 && k < a.len() - 1 {
                assert(rank(b[j], b[b.len() - 1]) == Rank::Before);
                assert(rank(a[k], a[a.len() - 1]) == Rank::Before);
                lemma_rank_flip(x, y);
            }
        }
        let a0 = a.drop_last();
        let b0 = b.drop_last();
        assert forall|t: Seq<char>| a0.to_set().contains(t) == b0.to_set().contains(t) by {
            if a0.contains(t) {
                let i = choose|i: int| 0 <= i < a0.len() && a0[i] == t;
                assert(a[i] == t);
                assert(a.to_set().contains(t));
                assert(b.contains(t));
                let m = choose|m: int| 0 <= m < b.len() && b[m] == t;
                assert(b0[m] == t);
            }
            if b0.contains(t) {
                let i = choose|i: int| 0 <= i < b0.len() && b0[i] == t;
                assert(b[i] == t);
                assert(b.to_set().contains(t));
                assert(a.contains(t));
                let m = choose|m: int| 0 <= m < a.len() && a[m] == t;
                assert(a0[m] == t);
            }
        }
        assert(a0.to_set() =~= b0.to_set());
        assert(ascending(a0)) by {
            assert forall|i: int, j: int| 0 <= i < j < a0.len() implies rank(a0[i], a0[j])
                == Rank::Before by {
                assert(a0[i] == a[i] && a0[j] == a[j]);
            }
        }
        assert(ascending(b0)) by {
            assert forall|i: int, j: int| 0 <= i < j < b0.len() implies rank(b0[i], b0[j])
                == Rank::Before by {
                assert(b0[i] == b[i] && b0[j] == b[j]);
            }
        }
        lemma_ascending_unique(a0, b0);
        assert(a =~= a0.push(x));
        assert(b =~= b0.push(y));
    }
}

/// How `a` stands to `b` in the order of texts.
pub fn compare(a: &str, b: &str) -> (r: Rank)
    ensures
        r == rank(a@, b@),
{
    let x = a.as_bytes();
    let y = b.as_bytes();
    let mut i: usize = 0;
    while i < x.len() && i < y.len()
        invariant
            i <= x.len(),
            i <= y.len(),
            x@ == encode_utf8(a@),
            y@ == encode_utf8(b@),
            rank(a@, b@) == rank_from(x@, y@, i as int),
        decreases x.len() - i,
    {
        if x[i] < y[i] {
            return Rank::Before;
        }
        if x[i] > y[i] {
            return Rank::After;
        }
        i += 1;
    }
    if i < y.len() {
        Rank::Before
    } else if i < x.len() {
        Rank::After
    } else {
        Rank::Same
    }
}

/// The index of the first line feed of `text` at or after `from`, or the
/// length of `text` where there is none.
pub open spec fn line_end(text: Seq<char>, from: int) -> int
    decreases text.len() - from,
{
    if from >= text.len() {
        text.len() as int
    } else if text[from] == '\n' {
        from
    } else {
        line_end(text, from + 1)
    }
}

/// `s` without the white space at its start.
pub open spec fn trim_start(s: Seq<char>) -> Seq<char>
    decreases s.len(),
{
    if s.len() > 0 && is_space(s[0]) {
        trim_start(s.drop_first())
    } else {
        s
    }
}

/// `s` without the white space at its end.
pub open spec fn trim_end(s: Seq<char>) -> Seq<char>
    decreases s.len(),
{
    if s.len() > 0 && is_space(s.last()) {
        trim_end(s.drop_last())
    } else {
        s
    }
}

/// `s` without the white space at either end.
pub open spec fn trimmed(s: Seq<char>) -> Seq<char> {
    trim_end(trim_start(s))
}

/// The lines of `text` from index `from` on, each trimmed, the blank ones left
/// out. Lines end at a line feed or at the end of the text.
pub open spec fn content_lines_from(text: Seq<char>, from: int) -> Seq<Seq<char>>
    decreases text.len() - from,
{
    if from < 0 || from >= text.len() {
        Seq::empty()
    } else {
        let end = line_end(text, from);
        let line = trimmed(text.subrange(from, end));
        let rest = if from <= end < text.len() {
            content_lines_from(text, end + 1)
        } else {
            Seq::empty()
        };
        if line.len() == 0 {
            rest
        } else {
            seq![line] + rest
        }
    }
}

/// The trimmed, non-blank lines of `text`, in order.
pub open spec fn content_lines(text: Seq<char>) -> Seq<Seq<char>> {
    content_lines_from(text, 0)
}

pub proof fn lemma_line_end_bounds(text: Seq<char>, from: int)
    requires
        0 <= from <= text.len(),
    ensures
        from <= line_end(text, from) <= text.len(),
        line_end(text, from) < text.len() ==> text[line_end(text, from)] == '\n',
        forall|k: int| from <= k < line_end(text, from) ==> text[k] != '\n',
    decreases text.len() - from,
{
    if from < text.len() && text[from] != '\n' {
        lemma_line_end_bounds(text, from + 1);
    }
}

/// Trimming the start of `s` drops exactly its leading run of white space.
pub proof fn lemma_trim_start(s: Seq<char>, a: int)
    requires
        0 <= a <= s.len(),
        forall|k: int| 0 <= k < a ==> is_space(#[trigger] s[k]),
        a < s.len() ==> !is_space(s[a]),
    ensures
        trim_start(s) == s.subrange(a, s.len() as int),
    decreases a,
{
    if a == 0 {
        assert(s.subrange(0, s.len() as int) =~= s);
    } else {
        let t = s.drop_first();
        assert forall|k: int| 0 <= k < a - 1 implies is_space(#[trigger] t[k]) by {
            assert(t[k] == s[k + 1]);
        }
        lemma_trim_start(t, a - 1);
        assert(t.subrange(a - 1, t.len() as int) =~= s.subrange(a, s.len() as int));
    }
}

/// Trimming the end of `s` drops exactly its trailing run of white space.
pub proof fn lemma_trim_end(s: Seq<char>, b: int)
    requires
        0 <= b <= s.len(),
        forall|k: int| b <= k < s.len() ==> is_space(#[trigger] s[k]),
        b > 0 ==> !is_space(s[b - 1]),
    ensures
        trim_end(s) == s.subrange(0, b),
    decreases s.len() - b,
{
    if b == s.len() {
        assert(s.subrange(0, b) =~= s);
    } else {
        let t = s.drop_last();
        assert forall|k: int| b <= k < t.len() implies is_space(#[trigger] t[k]) by {
            assert(t[k] == s[k]);
        }
        lemma_trim_end(t, b);
        assert(t.subrange(0, b) =~= s.subrange(0, b));
    }
}

/// The index of the first line feed of `chars` at or after `from`.
fn find_line_end(chars: &Vec<char>, from: usize) -> (end: usize)
    requires
        from <= chars.len(),
    ensures
        end == line_end(chars@, from as int),
        from <= end <= chars.len(),
{
    let mut end: usize = from;
    while end < chars.len() && chars[end] != '\n'
        invariant
            from <= end <= chars.len(),
            line_end(chars@, from as int) == line_end(chars@, end as int),
        decreases chars.len() - end,
    {
        end += 1;
    }
    end
}

/// The bounds of what trimming leaves of `chars[from..end]`.
fn trim_bounds(chars: &Vec<char>, from: usize, end: usize) -> (r: (usize, usize))
    requires
        from <= end <= chars.len(),
    ensures
        from <= r.0 <= r.1 <= end,
        chars@.subrange(r.0 as int, r.1 as int) == trimmed(chars@.subrange(from as int, end as int)),
{
    let ghost line = chars@.subrange(from as int, end as int);
    let mut a: usize = from;
    while a < end && is_space_char(chars[a])
        invariant
            from <= a <= end <= chars.len(),
            forall|k: int| from <= k < a ==> is_space(#[trigger] chars@[k]),
        decreases end - a,
    {
        a += 1;
    }
    let mut b: usize = end;
    while b > a && is_space_char(chars[b - 1])
        invariant
            a <= b <= end <= chars.len(),
            forall|k: int| b <= k < end ==> is_space(#[trigger] chars@[k]),
        decreases b,
    {
        b -= 1;
    }
    proof {
        assert forall|k: int| 0 <= k < a - from implies is_space(#[trigger] line[k]) by {
            assert(line[k] == chars@[from + k]);
        }
        lemma_trim_start(line, a - from);
        let rest = line.subrange(a - from, line.len() as int);
        assert(rest =~= chars@.subrange(a as int, end as int));
        assert forall|k: int| b - a <= k < rest.len() implies is_space(#[trigger] rest[k]) by {
            assert(rest[k] == chars@[a + k]);
        }
        lemma_trim_end(rest, b - a);
        assert(rest.subrange(0, b - a) =~= chars@.subrange(a as int, b as int));
    }
    (a, b)
}

/// Splits `text` into its lines, trims each, and leaves out the blank ones.
pub fn content_lines_of(text: &str) -> (lines: Vec<String>)
    ensures
        texts(lines@) == content_lines(text@),
{
    let chars = chars_of(text);
    let mut lines: Vec<String> = Vec::new();
    let mut pos: usize = 0;
    while pos < chars.len()
        invariant
            chars@ == text@,
            pos <= chars.len(),
            content_lines(text@) == texts(lines@) + content_lines_from(text@, pos as int),
        decreases chars.len() - pos,
    {
        let end = find_line_end(&chars, pos);
        let (a, b) = trim_bounds(&chars, pos, end);
        let ghost before = lines@;
        if a < b {
            let line = String::from_str(text.substring_char(a, b));
            lines.push(line);
            proof {
                assert(texts(lines@) =~= texts(before) + seq![line@]);
            }
        }
        let next = if end < chars.len() {
            end + 1
        } else {
            end
        };
        proof {
            let rest = content_lines_from(text@, next as int);
            assert(texts(lines@) + rest =~= texts(before) + content_lines_from(text@, pos as int));
        }
        pos = next;
    }
    proof {
        assert(texts(lines@) + Seq::<Seq<char>>::empty() =~= texts(lines@));
    }
    lines
}

} // verus!
