//! Path normalization and extension filtering.
//!
//! A raw OS-supplied token is either a plain filesystem path or a
//! `file://`-scheme URL.  Normalization strips exactly the `file://` prefix
//! and nothing else; filtering keeps a token when its suffix, compared
//! case-insensitively over ASCII, is one of the recognized document
//! extensions.  Canonicalization against the real filesystem is an I/O
//! concern of the host shell: it runs between normalization and filtering
//! and, on failure, leaves the normalized token unchanged.

use vstd::prelude::*;

verus! {

/// ASCII lowercasing of one character: the twenty-six uppercase ASCII
/// letters map to their lowercase counterparts, every other character is
/// unchanged.
pub open spec fn lower_char(c: char) -> char {
    if c == 'A' {
        'a'
    } else if c == 'B' {
        'b'
    } else if c == 'C' {
        'c'
    } else if c == 'D' {
        'd'
    } else if c == 'E' {
        'e'
    } else if c == 'F' {
        'f'
    } else if c == 'G' {
        'g'
    } else if c == 'H' {
        'h'
    } else if c == 'I' {
        'i'
    } else if c == 'J' {
        'j'
    } else if c == 'K' {
        'k'
    } else if c == 'L' {
        'l'
    } else if c == 'M' {
        'm'
    } else if c == 'N' {
        'n'
    } else if c == 'O' {
        'o'
    } else if c == 'P' {
        'p'
    } else if c == 'Q' {
        'q'
    } else if c == 'R' {
        'r'
    } else if c == 'S' {
        's'
    } else if c == 'T' {
        't'
    } else if c == 'U' {
        'u'
    } else if c == 'V' {
        'v'
    } else if c == 'W' {
        'w'
    } else if c == 'X' {
        'x'
    } else if c == 'Y' {
        'y'
    } else if c == 'Z' {
        'z'
    } else {
        c
    }
}

/// A sequence of characters, ASCII-lowercased element by element.
pub open spec fn lower_seq(s: Seq<char>) -> Seq<char> {
    s.map_values(|c: char| lower_char(c))
}

/// `s` ends with the suffix `suffix`.
pub open spec fn seq_ends_with(s: Seq<char>, suffix: Seq<char>) -> bool {
    suffix.len() <= s.len() && s.skip(s.len() - suffix.len()) == suffix
}

/// A token is accepted when its ASCII-lowercased form ends in one of the
/// recognized document extensions.
pub open spec fn is_bpmn(s: Seq<char>) -> bool {
    ||| seq_ends_with(lower_seq(s), ".bpmn"@)
    ||| seq_ends_with(lower_seq(s), ".bpmn20.xml"@)
    ||| seq_ends_with(lower_seq(s), ".process.bpmn20.xml"@)
}

fn to_lower_char(c: char) -> (r: char)
    ensures
        r == lower_char(c),
{
    if c == 'A' {
        'a'
    } else if c == 'B' {
        'b'
    } else if c == 'C' {
        'c'
    } else if c == 'D' {
        'd'
    } else if c == 'E' {
        'e'
    } else if c == 'F' {
        'f'
    } else if c == 'G' {
        'g'
    } else if c == 'H' {
        'h'
    } else if c == 'I' {
        'i'
    } else if c == 'J' {
        'j'
    } else if c == 'K' {
        'k'
    } else if c == 'L' {
        'l'
    } else if c == 'M' {
        'm'
    } else if c == 'N' {
        'n'
    } else if c == 'O' {
        'o'
    } else if c == 'P' {
        'p'
    } else if c == 'Q' {
        'q'
    } else if c == 'R' {
        'r'
    } else if c == 'S' {
        's'
    } else if c == 'T' {
        't'
    } else if c == 'U' {
        'u'
    } else if c == 'V' {
        'v'
    } else if c == 'W' {
        'w'
    } else if c == 'X' {
        'x'
    } else if c == 'Y' {
        'y'
    } else if c == 'Z' {
        'z'
    } else {
        c
    }
}

/// `s` ends with `suffix`, compared case-insensitively over ASCII.
fn ends_with_ci(s: &str, suffix: &str) -> (r: bool)
    ensures
        r == seq_ends_with(lower_seq(s@), lower_seq(suffix@)),
{
    let n: usize = s.unicode_len();
    let m: usize = suffix.unicode_len();
    if m > n {
        return false;
    }
    let mut i: usize = 0;
    while i < m
        invariant
            m <= n,
            n == s@.len(),
            m == suffix@.len(),
            i <= m,
            forall|j: int|
                0 <= j < i ==> lower_char(s@[n - m + j]) == lower_char(suffix@[j]),
        decreases m - i,
    {
        let a = to_lower_char(s.get_char(n - m + i));
        let b = to_lower_char(suffix.get_char(i));
        if a != b {
            proof {
                assert(lower_seq(s@).skip(n - m)[i as int] == lower_char(s@[n - m + i]));
                assert(lower_seq(suffix@)[i as int] == lower_char(suffix@[i as int]));
            }
            return false;
        }
        i += 1;
    }
    proof {
        assert(lower_seq(s@).skip(n - m) =~= lower_seq(suffix@));
    }
    true
}

/// Decides whether a token names a document this application opens: its
/// suffix, in any letter case, is `.bpmn`, `.bpmn20.xml` or
/// `.process.bpmn20.xml`.
pub fn is_bpmn_path(path: &str) -> (r: bool)
    ensures
        r == is_bpmn(path@),
{
    proof {
        reveal_strlit(".bpmn");
        reveal_strlit(".bpmn20.xml");
        reveal_strlit(".process.bpmn20.xml");
        assert(lower_seq(".bpmn"@) =~= ".bpmn"@);
        assert(lower_seq(".bpmn20.xml"@) =~= ".bpmn20.xml"@);
        assert(lower_seq(".process.bpmn20.xml"@) =~= ".process.bpmn20.xml"@);
    }
    ends_with_ci(path, ".bpmn") || ends_with_ci(path, ".bpmn20.xml") || ends_with_ci(
        path,
        ".process.bpmn20.xml",
    )
}

/// Normalization of one raw token: a leading `file://` scheme prefix is
/// stripped, exactly once and with nothing else decoded; any other token
/// passes through unchanged.
pub open spec fn normalize_spec(s: Seq<char>) -> Seq<char> {
    if s.len() >= 7 && s.take(7) == "file://"@ {
        s.skip(7)
    } else {
        s
    }
}

/// `s` starts with `prefix`.
fn starts_with_prefix(s: &str, prefix: &str) -> (r: bool)
    ensures
        r == (prefix@.len() <= s@.len() && s@.take(prefix@.len() as int) == prefix@),
{
    let n: usize = s.unicode_len();
    let m: usize = prefix.unicode_len();
    if m > n {
        return false;
    }
    let mut i: usize = 0;
    while i < m
        invariant
            m <= n,
            n == s@.len(),
            m == prefix@.len(),
            i <= m,
            forall|j: int| 0 <= j < i ==> s@[j] == prefix@[j],
        decreases m - i,
    {
        let a = s.get_char(i);
        let b = prefix.get_char(i);
        if a != b {
            proof {
                assert(s@.take(m as int)[i as int] == s@[i as int]);
            }
            return false;
        }
        i += 1;
    }
    proof {
        assert(s@.take(m as int) =~= prefix@);
    }
    true
}

/// Turns a raw OS token into a path token: strips a leading `file://`
/// scheme prefix, passes everything else through unchanged.
pub fn normalize_url_to_path(u: &str) -> (r: String)
    ensures
        r@ == normalize_spec(u@),
{
    proof {
        reveal_strlit("file://");
    }
    if starts_with_prefix(u, "file://") {
        let n: usize = u.unicode_len();
        let rest = u.substring_char(7, n);
        rest.to_owned()
    } else {
        u.to_owned()
    }
}

/// ASCII lowercasing is idempotent: lowering an already-lowered sequence
/// changes nothing.
pub proof fn lemma_lower_seq_idempotent(s: Seq<char>)
    ensures
        lower_seq(lower_seq(s)) == lower_seq(s),
{
    assert forall|i: int| 0 <= i < s.len() implies lower_char(lower_char(s[i])) == lower_char(
        s[i],
    ) by {}
    assert(lower_seq(lower_seq(s)) =~= lower_seq(s));
}

/// The extension filter is insensitive to ASCII letter case: a token and
/// its ASCII-lowercased form are accepted or rejected together.
pub proof fn lemma_filter_case_insensitive(s: Seq<char>)
    ensures
        is_bpmn(lower_seq(s)) == is_bpmn(s),
{
    lemma_lower_seq_idempotent(s);
}

/// The accepted batch left by the extension filter alone: the tokens
/// satisfying [`is_bpmn`], in their original order, nothing reordered and
/// nothing deduplicated.
pub open spec fn filter_spec(files: Seq<Seq<char>>) -> Seq<Seq<char>>
    decreases files.len(),
{
    if files.len() == 0 {
        Seq::empty()
    } else {
        let tail = filter_spec(files.drop_first());
        if is_bpmn(files.first()) {
            seq![files.first()] + tail
        } else {
            tail
        }
    }
}

/// The accepted batch produced by the whole pure pipeline: each token
/// normalized, then kept exactly when the normalized form passes the
/// extension filter, in the original order.
pub open spec fn process_spec(files: Seq<Seq<char>>) -> Seq<Seq<char>> {
    filter_spec(files.map_values(|s: Seq<char>| normalize_spec(s)))
}

/// Appending one token to a batch appends to the filtered batch exactly
/// that token when accepted, and nothing when rejected.
pub proof fn lemma_filter_spec_push(files: Seq<Seq<char>>, x: Seq<char>)
    ensures
        filter_spec(files.push(x)) == filter_spec(files) + (if is_bpmn(x) {
            seq![x]
        } else {
            Seq::<Seq<char>>::empty()
        }),
    decreases files.len(),
{
    let pushed = files.push(x);
    if files.len() == 0 {
        assert(pushed.drop_first() =~= Seq::<Seq<char>>::empty());
        assert(pushed.first() == x);
        assert(filter_spec(Seq::<Seq<char>>::empty()) == Seq::<Seq<char>>::empty());
        assert(filter_spec(files) == Seq::<Seq<char>>::empty());
        if is_bpmn(x) {
            assert(filter_spec(pushed) =~= filter_spec(files) + seq![x]);
        } else {
            assert(filter_spec(pushed) =~= filter_spec(files) + Seq::<Seq<char>>::empty());
        }
    } else {
        assert(pushed.drop_first() =~= files.drop_first().push(x));
        lemma_filter_spec_push(files.drop_first(), x);
        if is_bpmn(x) {
            assert(filter_spec(pushed) =~= filter_spec(files) + seq![x]);
        } else {
            assert(filter_spec(pushed) =~= filter_spec(files) + Seq::<Seq<char>>::empty());
        }
    }
}

/// The extension filter is a stable filter: what it leaves is exactly the
/// input sequence with the non-matching tokens removed — nothing
/// reordered, nothing deduplicated, nothing added.
pub proof fn lemma_filter_spec_is_stable(files: Seq<Seq<char>>)
    ensures
        filter_spec(files) == files.filter(|s: Seq<char>| is_bpmn(s)),
    decreases files.len(),
{
    reveal(Seq::filter);
    let pred = |s: Seq<char>| is_bpmn(s);
    if files.len() == 0 {
        assert(filter_spec(files) =~= files.filter(pred));
    } else {
        let prefix = files.drop_last();
        let x = files.last();
        lemma_filter_spec_is_stable(prefix);
        assert(prefix.push(x) =~= files);
        lemma_filter_spec_push(prefix, x);
        if is_bpmn(x) {
            assert(files.filter(pred) == prefix.filter(pred).push(x));
            assert(filter_spec(files) =~= prefix.filter(pred).push(x));
        } else {
            assert(files.filter(pred) == prefix.filter(pred));
            assert(filter_spec(files) =~= prefix.filter(pred));
        }
    }
}

/// The whole resolver pipeline is order-preserving: its result is the
/// normalized input sequence with the non-matching tokens removed, by
/// vstd's own stable `filter`.
pub proof fn lemma_process_spec_is_stable(files: Seq<Seq<char>>)
    ensures
        process_spec(files) == files.map_values(|s: Seq<char>| normalize_spec(s)).filter(
            |s: Seq<char>| is_bpmn(s),
        ),
{
    lemma_filter_spec_is_stable(files.map_values(|s: Seq<char>| normalize_spec(s)));
}

/// Keeps exactly the tokens whose suffix is a recognized document
/// extension, preserving their order.  This is the filtering step run on
/// its own, after the host shell has canonicalized each normalized token
/// against the filesystem.
pub fn filter_bpmn(files: Vec<String>) -> (r: Vec<String>)
    ensures
        r.deep_view() == filter_spec(files.deep_view()),
{
    let ghost all = files.deep_view();
    let mut out: Vec<String> = Vec::new();
    let mut i: usize = 0;
    while i < files.len()
        invariant
            i <= files.len(),
            all == files.deep_view(),
            out.deep_view() == filter_spec(all.take(i as int)),
        decreases files.len() - i,
    {
        let ghost prev = out.deep_view();
        let keep = is_bpmn_path(files[i].as_str());
        if keep {
            let item = files[i].clone();
            out.push(item);
            proof {
                assert(out.deep_view() =~= prev.push(all[i as int]));
            }
        }
        proof {
            assert(all.take(i + 1) =~= all.take(i as int).push(all[i as int]));
            lemma_filter_spec_push(all.take(i as int), all[i as int]);
            assert(out.deep_view() =~= filter_spec(all.take(i + 1)));
        }
        i += 1;
    }
    proof {
        assert(all.take(files.len() as int) =~= all);
    }
    out
}

/// Normalizes each token of a batch in order, without filtering.  The host
/// shell canonicalizes each result against the filesystem before the
/// filter runs.
pub fn normalize_batch(files: &Vec<String>) -> (r: Vec<String>)
    ensures
        r.deep_view() == files.deep_view().map_values(|s: Seq<char>| normalize_spec(s)),
{
    let ghost all = files.deep_view();
    let ghost mapped = all.map_values(|s: Seq<char>| normalize_spec(s));
    let mut out: Vec<String> = Vec::new();
    let mut i: usize = 0;
    while i < files.len()
        invariant
            i <= files.len(),
            all == files.deep_view(),
            mapped == all.map_values(|s: Seq<char>| normalize_spec(s)),
            out.deep_view() == mapped.take(i as int),
        decreases files.len() - i,
    {
        let ghost prev = out.deep_view();
        let item = normalize_url_to_path(files[i].as_str());
        out.push(item);
        proof {
            assert(out.deep_view() =~= prev.push(mapped[i as int]));
            assert(mapped.take(i + 1) =~= mapped.take(i as int).push(mapped[i as int]));
        }
        i += 1;
    }
    proof {
        assert(mapped.take(files.len() as int) =~= mapped);
    }
    out
}

/// The pure resolver pipeline over one batch: normalize every token, keep
/// exactly those whose normalized form carries a recognized document
/// extension, in the original order.
pub fn process_paths(files: Vec<String>) -> (r: Vec<String>)
    ensures
        r.deep_view() == process_spec(files.deep_view()),
{
    let normalized = normalize_batch(&files);
    filter_bpmn(normalized)
}

} // verus!
