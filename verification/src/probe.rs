//! Status-label extraction. The external status query answers with a text
//! that, on success, contains a fragment of the shape `"label"="VALUE"`;
//! the probe's result is that VALUE, and the neutral sentinel `"0"` when no
//! such fragment is present (a failed or empty lookup degrades to the
//! sentinel instead of failing).

use vstd::prelude::*;

verus! {

/// The neutral sentinel returned when no label can be located.
pub open spec fn sentinel() -> Seq<char> {
    seq!['0']
}

/// The opening fragment `"label"="` occurs in `s` starting at position `i`.
pub open spec fn pat_at(s: Seq<char>, i: int) -> bool {
    &&& 0 <= i
    &&& i + 9 <= s.len()
    &&& s[i] == '"'
    &&& s[i + 1] == 'l'
    &&& s[i + 2] == 'a'
    &&& s[i + 3] == 'b'
    &&& s[i + 4] == 'e'
    &&& s[i + 5] == 'l'
    &&& s[i + 6] == '"'
    &&& s[i + 7] == '='
    &&& s[i + 8] == '"'
}

/// Some occurrence of the pattern exists in `s`.
pub open spec fn has_pat(s: Seq<char>) -> bool {
    exists|i: int| pat_at(s, i)
}

/// `i` is the first occurrence of the pattern in `s`.
pub open spec fn is_first_pat(s: Seq<char>, i: int) -> bool {
    pat_at(s, i) && forall|j: int| 0 <= j < i ==> !pat_at(s, j)
}

/// The position of the first occurrence of the pattern in `s`; meaningful
/// only when `has_pat(s)` holds.
pub open spec fn first_pat_index(s: Seq<char>) -> int {
    choose|i: int| is_first_pat(s, i)
}

/// No double quote occurs in `s` at a position in `[from, to)`.
pub open spec fn quote_free(s: Seq<char>, from: int, to: int) -> bool {
    forall|k: int| from <= k < to ==> s[k] != '"'
}

/// `[start, end)` is the label span beginning at `start`: it runs up to the
/// first double quote at or after `start`, or to the end of the text.
pub open spec fn is_label_span(s: Seq<char>, start: int, end: int) -> bool {
    &&& start <= end <= s.len()
    &&& quote_free(s, start, end)
    &&& (end == s.len() || s[end] == '"')
}

/// `out` is the label extracted from `s`: the text between the first
/// `"label"="` fragment and the next double quote (or the end of the text),
/// and the sentinel when no such fragment occurs.
pub open spec fn extracted(s: Seq<char>, out: Seq<char>) -> bool {
    if has_pat(s) {
        let start = first_pat_index(s) + 9;
        exists|e: int| #[trigger] is_label_span(s, start, e) && out == s.subrange(start, e)
    } else {
        out == sentinel()
    }
}

/// The first occurrence of the pattern is unique, so `first_pat_index` is
/// pinned down by any witness.
proof fn lemma_first_pat_index(s: Seq<char>, i: int)
    requires
        is_first_pat(s, i),
    ensures
        has_pat(s),
        first_pat_index(s) == i,
{
    assert(pat_at(s, i));
    let w = first_pat_index(s);
    assert(is_first_pat(s, w));
    if w < i {
        assert(!pat_at(s, w));
    }
    if i < w {
        assert(!pat_at(s, i));
    }
}

/// Whether the opening fragment `"label"="` starts at position `i` of `text`.
fn pat_match_at(text: &str, i: usize) -> (b: bool)
    requires
        i + 9 <= text@.len(),
        text@.len() <= usize::MAX,
    ensures
        b == pat_at(text@, i as int),
{
    text.get_char(i) == '"' && text.get_char(i + 1) == 'l' && text.get_char(i + 2) == 'a'
        && text.get_char(i + 3) == 'b' && text.get_char(i + 4) == 'e' && text.get_char(i + 5)
        == 'l' && text.get_char(i + 6) == '"' && text.get_char(i + 7) == '=' && text.get_char(
        i + 8,
    ) == '"'
}

/// Extract the status label from the query response `text`: the characters
/// between the first `"label"="` fragment and the next double quote (or the
/// end of the text), and the sentinel `"0"` when no such fragment occurs.
pub fn extract_status_label(text: &str) -> (r: String)
    ensures
        extracted(text@, r@),
{
    let n = text.unicode_len();
    if n < 9 {
        let r = "0".to_owned();
        proof {
            reveal_strlit("0");
            assert(r@ =~= sentinel());
        }
        return r;
    }
    let mut i: usize = 0;
    let mut found = false;
    while !found && i <= n - 9
        invariant
            n == text@.len(),
            9 <= n,
            i + 8 <= n,
            forall|j: int| 0 <= j < i ==> !pat_at(text@, j),
            found ==> pat_at(text@, i as int),
        decreases n - i + (if found {
            0int
        } else {
            1int
        }),
    {
        if pat_match_at(text, i) {
            found = true;
        } else {
            i += 1;
        }
    }
    if !found {
        let r = "0".to_owned();
        proof {
            reveal_strlit("0");
            assert(r@ =~= sentinel());
            assert(forall|j: int| pat_at(text@, j) ==> j + 9 <= n && j >= i);
        }
        return r;
    }
    let start = i + 9;
    let mut e: usize = start;
    let mut stop = false;
    while !stop && e < n
        invariant
            n == text@.len(),
            start <= e <= n,
            quote_free(text@, start as int, e as int),
            stop ==> e < n && text@[e as int] == '"',
        decreases n - e + (if stop {
            0int
        } else {
            1int
        }),
    {
        if text.get_char(e) == '"' {
            stop = true;
        } else {
            e += 1;
        }
    }
    let lab = text.substring_char(start, e);
    let r = lab.to_owned();
    proof {
        lemma_first_pat_index(text@, i as int);
        assert(is_label_span(text@, first_pat_index(text@) + 9, e as int));
        assert(r@ == text@.subrange(first_pat_index(text@) + 9, e as int));
    }
    r
}

} // verus!
