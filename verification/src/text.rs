use vstd::prelude::*;
use vstd::string::*;
use vstd::utf8::*;

verus! {

/// `core::str::from_utf8`: the bytes come back as a string slice exactly
/// when they are valid UTF-8, and the slice is then made of those bytes.
#[verifier::external_body]
pub(crate) fn str_from_utf8<'a>(bytes: &'a [u8]) -> (r: Option<&'a str>)
    ensures
        r.is_some() == valid_utf8(bytes@),
        r.is_some() ==> r.unwrap().spec_bytes() == bytes@,
{
    match core::str::from_utf8(bytes) {
        Ok(s) => Some(s),
        Err(_) => None,
    }
}

/// The text that `bytes` encode, where they are valid UTF-8.
pub fn decode(bytes: &Vec<u8>) -> (r: Option<String>)
    ensures
        r.is_some() == valid_utf8(bytes@),
        r.is_some() ==> r.unwrap()@ == decode_utf8(bytes@),
{
    match str_from_utf8(bytes.as_slice()) {
        Some(s) => {
            proof {
                encode_utf8_decode_utf8(s@);
            }
            Some(s.to_owned())
        },
        None => None,
    }
}

/// The path separator of hierarchical names.
pub open spec fn separator() -> char {
    '/'
}

/// Where the run of characters that reaches position `n` begins: just
/// behind the last separator before `n`, or at 0.
pub open spec fn run_start(s: Seq<char>, n: int) -> int
    decreases n,
{
    if n <= 0 {
        0
    } else if s[n - 1] == separator() {
        n
    } else {
        run_start(s, n - 1)
    }
}

/// The non-empty runs between separators that a separator before position
/// `n` has closed, in order.
pub open spec fn closed_segments(s: Seq<char>, n: int) -> Seq<Seq<char>>
    decreases n,
{
    if n <= 0 {
        Seq::empty()
    } else {
        let before = closed_segments(s, n - 1);
        let start = run_start(s, n - 1);
        if s[n - 1] == separator() && start < n - 1 {
            before.push(s.subrange(start, n - 1))
        } else {
            before
        }
    }
}

/// The maximal non-empty runs of characters other than the separator, in order.
pub open spec fn runs(s: Seq<char>) -> Seq<Seq<char>> {
    let n = s.len() as int;
    let start = run_start(s, n);
    if start < n {
        closed_segments(s, n).push(s.subrange(start, n))
    } else {
        closed_segments(s, n)
    }
}

/// Whether the name begins at the root: with a separator.
pub open spec fn has_root(s: Seq<char>) -> bool {
    s.len() > 0 && s[0] == separator()
}

/// The segment that stands for the root: the separator alone.
pub open spec fn root_segment() -> Seq<char> {
    seq![separator()]
}

/// The root segment of a name that has one, and nothing for any other name.
pub open spec fn root_of(s: Seq<char>) -> Seq<Seq<char>> {
    if has_root(s) {
        seq![root_segment()]
    } else {
        Seq::empty()
    }
}

/// The segments of a hierarchical name: the root, where the name begins
/// with a separator, and then its maximal non-empty runs of characters
/// other than the separator, in order. Repeated and trailing separators
/// add no segment.
pub open spec fn split_path(s: Seq<char>) -> Seq<Seq<char>> {
    root_of(s) + runs(s)
}

/// A run never begins behind the position it reaches, and holds no separator.
pub proof fn lemma_run_start(s: Seq<char>, n: int)
    requires
        0 <= n <= s.len(),
    ensures
        0 <= run_start(s, n) <= n,
        forall|k: int| run_start(s, n) <= k < n ==> s[k] != separator(),
        run_start(s, n) > 0 ==> s[run_start(s, n) - 1] == separator(),
    decreases n,
{
    if n > 0 && s[n - 1] != separator() {
        lemma_run_start(s, n - 1);
    }
}

/// A segment is plain: it is not empty and holds no separator.
pub open spec fn plain(segment: Seq<char>) -> bool {
    segment.len() > 0 && forall|k: int| 0 <= k < segment.len() ==> segment[k] != separator()
}

/// Every closed segment is plain.
pub proof fn lemma_closed_segments(s: Seq<char>, n: int)
    requires
        0 <= n <= s.len(),
    ensures
        forall|i: int| 0 <= i < closed_segments(s, n).len() ==> plain(#[trigger] closed_segments(s, n)[i]),
    decreases n,
{
    if n > 0 {
        lemma_closed_segments(s, n - 1);
        lemma_run_start(s, n - 1);
        let before = closed_segments(s, n - 1);
        let start = run_start(s, n - 1);
        let segment = s.subrange(start, n - 1);
        assert forall|i: int| 0 <= i < closed_segments(s, n).len() implies plain(
            #[trigger] closed_segments(s, n)[i],
        ) by {
            if i < before.len() {
                assert(closed_segments(s, n)[i] == before[i]);
            } else {
                assert(closed_segments(s, n)[i] == segment);
                assert forall|k: int| 0 <= k < segment.len() implies segment[k] != separator() by {
                    assert(segment[k] == s[start + k]);
                }
            }
        }
    }
}

/// Every run of a name is plain.
pub proof fn lemma_runs(s: Seq<char>)
    ensures
        forall|i: int| 0 <= i < runs(s).len() ==> plain(#[trigger] runs(s)[i]),
{
    lemma_closed_segments(s, s.len() as int);
    lemma_run_start(s, s.len() as int);
}

/// A name with a root has the root as its first segment, every other
/// segment of a name is plain, and a plain name is its own only segment.
pub proof fn lemma_split_path(s: Seq<char>)
    ensures
        has_root(s) ==> split_path(s).len() == runs(s).len() + 1 && split_path(s)[0] == root_segment(),
        !has_root(s) ==> split_path(s) == runs(s),
        forall|i: int|
            (if has_root(s) { 1int } else { 0int }) <= i < split_path(s).len() ==> plain(#[trigger] split_path(s)[i]),
        plain(s) ==> split_path(s) == seq![s],
{
    lemma_runs(s);
    if has_root(s) {
        assert forall|i: int| 1 <= i < split_path(s).len() implies plain(#[trigger] split_path(s)[i]) by {
            assert(split_path(s)[i] == runs(s)[i - 1]);
        }
    } else {
        assert(split_path(s) =~= runs(s));
    }
    if plain(s) {
        lemma_plain_prefix(s, s.len() as int);
        assert(s.subrange(0, s.len() as int) =~= s);
        assert(split_path(s) =~= seq![s]);
    }
}

/// A plain name behind one separator has two segments: the root and the name.
pub proof fn lemma_rooted_name(s: Seq<char>)
    requires
        plain(s),
    ensures
        split_path(seq![separator()] + s) == seq![root_segment(), s],
{
    let t = seq![separator()] + s;
    lemma_rooted_prefix(t, t.len() as int);
    assert(t.subrange(1, t.len() as int) =~= s);
    assert(split_path(t) =~= seq![root_segment(), s]);
}

/// Behind a root and before the next separator no segment is closed and the run begins at 1.
pub proof fn lemma_rooted_prefix(t: Seq<char>, n: int)
    requires
        1 <= n <= t.len(),
        t[0] == separator(),
        forall|k: int| 1 <= k < n ==> t[k] != separator(),
    ensures
        run_start(t, n) == 1,
        closed_segments(t, n) == Seq::<Seq<char>>::empty(),
    decreases n,
{
    if n > 1 {
        lemma_rooted_prefix(t, n - 1);
    } else {
        assert(closed_segments(t, 0) == Seq::<Seq<char>>::empty());
    }
}

/// Before the first separator no segment is closed and the run begins at 0.
pub proof fn lemma_plain_prefix(s: Seq<char>, n: int)
    requires
        0 <= n <= s.len(),
        forall|k: int| 0 <= k < n ==> s[k] != separator(),
    ensures
        run_start(s, n) == 0,
        closed_segments(s, n) == Seq::<Seq<char>>::empty(),
    decreases n,
{
    if n > 0 {
        lemma_plain_prefix(s, n - 1);
    }
}

/// The content of a vector of strings.
pub open spec fn texts(v: Seq<String>) -> Seq<Seq<char>> {
    Seq::new(v.len(), |i: int| v[i]@)
}

/// Splits a hierarchical name into its segments.
pub fn split_name(s: &str) -> (out: Vec<String>)
    ensures
        texts(out@) == split_path(s@),
{
    let n: usize = s.unicode_len();
    let mut out: Vec<String> = Vec::new();
    if n > 0 && s.get_char(0) == '/' {
        let root = s.substring_char(0, 1).to_owned();
        out.push(root);
        proof {
            assert(root@ =~= root_segment());
        }
    }
    let mut start: usize = 0;
    let mut i: usize = 0;
    proof {
        assert(texts(out@) =~= root_of(s@) + closed_segments(s@, 0));
    }
    while i < n
        invariant
            i <= n,
            n == s@.len(),
            start == run_start(s@, i as int),
            start <= i,
            texts(out@) == root_of(s@) + closed_segments(s@, i as int),
        decreases n - i,
    {
        let c = s.get_char(i);
        if c == '/' {
            if start < i {
                let ghost before = out@;
                let piece = s.substring_char(start, i).to_owned();
                out.push(piece);
                proof {
                    assert(texts(out@) =~= texts(before).push(piece@));
                    assert(texts(out@) =~= root_of(s@) + closed_segments(s@, i + 1));
                }
            }
            start = i + 1;
        }
        i += 1;
    }
    if start < n {
        let ghost before = out@;
        let piece = s.substring_char(start, n).to_owned();
        out.push(piece);
        proof {
            assert(texts(out@) =~= texts(before).push(piece@));
            assert(texts(out@) =~= root_of(s@) + runs(s@));
        }
    }
    out
}

} // verus!
