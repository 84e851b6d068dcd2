//! Verified utilities over strings and their `Seq<char>` views: equality,
//! prefix tests, substring search, and concatenation of many pieces.
use vstd::prelude::*;

verus! {

/// The pattern `pat` occurs in `t` starting at index `i`.
pub open spec fn matches_at(t: Seq<char>, pat: Seq<char>, i: int) -> bool {
    0 <= i && i + pat.len() <= t.len() && t.subrange(i, i + pat.len() as int) == pat
}

/// Index of the first occurrence of `pat` in `t` at or after `from`,
/// or `None` when there is none.
pub open spec fn first_match_from(t: Seq<char>, pat: Seq<char>, from: int) -> Option<int>
    decreases t.len() - from + 1,
{
    if from < 0 || from + pat.len() > t.len() {
        None
    } else if matches_at(t, pat, from) {
        Some(from)
    } else {
        first_match_from(t, pat, from + 1)
    }
}

/// A found index really is the first: nothing matches earlier (at or after `from`).
pub proof fn lemma_first_match_properties(t: Seq<char>, pat: Seq<char>, from: int)
    requires
        0 <= from,
    ensures
        match first_match_from(t, pat, from) {
            Some(i) => matches_at(t, pat, i) && from <= i
                && forall|k: int| from <= k < i ==> !matches_at(t, pat, k),
            None => forall|k: int| from <= k ==> !matches_at(t, pat, k),
        },
    decreases t.len() - from + 1,
{
    if from + pat.len() > t.len() {
        assert forall|k: int| from <= k implies !matches_at(t, pat, k) by {
            assert(k + pat.len() > t.len());
        }
    } else if matches_at(t, pat, from) {
    } else {
        if pat.len() == 0 {
            assert(t.subrange(from, from + pat.len() as int) =~= pat);
        }
        lemma_first_match_properties(t, pat, from + 1);
    }
}

/// Searching from further left finds the same match, when nothing matches in between.
pub proof fn lemma_first_match_step(t: Seq<char>, pat: Seq<char>, from: int, upto: int)
    requires
        0 <= from <= upto,
        forall|k: int| from <= k < upto ==> !matches_at(t, pat, k),
    ensures
        first_match_from(t, pat, from) == first_match_from(t, pat, upto),
    decreases upto - from,
{
    if from < upto {
        if from + pat.len() > t.len() {
            lemma_first_match_none_when_short(t, pat, from);
            lemma_first_match_none_when_short(t, pat, upto);
        } else {
            lemma_first_match_step(t, pat, from + 1, upto);
        }
    }
}

/// Once the window no longer fits, the search fails.
pub proof fn lemma_first_match_none_when_short(t: Seq<char>, pat: Seq<char>, from: int)
    requires
        from + pat.len() > t.len(),
        0 <= from,
    ensures
        first_match_from(t, pat, from) is None,
    decreases t.len() - from + 1,
{
    if from + pat.len() <= t.len() {
    } else if from <= t.len() {
        if from < t.len() {
            lemma_first_match_none_when_short(t, pat, from + 1)
        }
    }
}

/// String equality decided over views.
pub fn str_eq(a: &str, b: &str) -> (r: bool)
    ensures
        r == (a@ == b@),
{
    let a_len = a.unicode_len();
    let b_len = b.unicode_len();
    if a_len != b_len {
        assert(a@ != b@) by {
            assert(a@.len() != b@.len());
        }
        return false;
    }
    let mut i: usize = 0;
    while i < a_len
        invariant
            i <= a_len,
            a_len == a@.len(),
            a_len == b@.len(),
            forall|k: int| 0 <= k < i ==> a@[k] == b@[k],
        decreases a_len - i,
    {
        if a.get_char(i) != b.get_char(i) {
            return false;
        }
        i += 1;
    }
    proof {
        assert(a@ =~= b@);
    }
    true
}

/// `prefix` is an initial segment of `s`.
pub open spec fn is_prefix(prefix: Seq<char>, s: Seq<char>) -> bool {
    prefix.len() <= s.len() && s.subrange(0, prefix.len() as int) == prefix
}

/// Decides whether `s` starts with `prefix`.
pub fn starts_with(s: &str, prefix: &str) -> (r: bool)
    ensures
        r == is_prefix(prefix@, s@),
{
    let s_len = s.unicode_len();
    let p_len = prefix.unicode_len();
    if p_len > s_len {
        return false;
    }
    let mut i: usize = 0;
    while i < p_len
        invariant
            i <= p_len,
            p_len == prefix@.len(),
            p_len <= s@.len(),
            s_len == s@.len(),
            forall|k: int| 0 <= k < i ==> s@[k] == prefix@[k],
        decreases p_len - i,
    {
        if s.get_char(i) != prefix.get_char(i) {
            proof {
                assert(!is_prefix(prefix@, s@)) by {
                    assert(s@.subrange(0, prefix@.len() as int)[i as int] != prefix@[i as int]);
                }
            }
            return false;
        }
        i += 1;
    }
    proof {
        assert(s@.subrange(0, prefix@.len() as int) =~= prefix@);
    }
    true
}

/// The tail of `s` after removing `prefix`, when `s` starts with it.
pub fn strip_prefix_of<'a>(s: &'a str, prefix: &str) -> (r: Option<&'a str>)
    ensures
        match r {
            Some(rest) => is_prefix(prefix@, s@)
                && rest@ == s@.subrange(prefix@.len() as int, s@.len() as int),
            None => !is_prefix(prefix@, s@),
        },
{
    if starts_with(s, prefix) {
        let s_len = s.unicode_len();
        let p_len = prefix.unicode_len();
        Some(s.substring_char(p_len, s_len))
    } else {
        None
    }
}

/// Index of the first occurrence of `pat` in `t` at or after `from`.
pub fn find_sub(t: &str, pat: &str, from: usize) -> (r: Option<usize>)
    requires
        from <= t@.len(),
    ensures
        match r {
            Some(i) => first_match_from(t@, pat@, from as int) == Some(i as int),
            None => first_match_from(t@, pat@, from as int) is None,
        },
{
    let t_len = t.unicode_len();
    let p_len = pat.unicode_len();
    if p_len == 0 {
        proof {
            assert(t@.subrange(from as int, from as int) =~= pat@);
        }
        return Some(from);
    }
    if p_len > t_len || from > t_len - p_len {
        proof {
            lemma_first_match_none_when_short(t@, pat@, from as int);
        }
        return None;
    }
    let mut i: usize = from;
    while i <= t_len - p_len
        invariant
            from <= i <= t_len - p_len + 1,
            1 <= p_len <= t_len,
            t_len == t@.len(),
            p_len == pat@.len(),
            first_match_from(t@, pat@, from as int) == first_match_from(t@, pat@, i as int),
        decreases t_len - i,
    {
        let mut j: usize = 0;
        let mut hit: bool = true;
        while j < p_len
            invariant
                j <= p_len,
                i + p_len <= t_len,
                t_len == t@.len(),
                p_len == pat@.len(),
                hit ==> forall|k: int| 0 <= k < j ==> t@[i + k] == pat@[k],
                !hit ==> !matches_at(t@, pat@, i as int),
            decreases p_len - j,
        {
            if t.get_char(i + j) != pat.get_char(j) {
                proof {
                    assert(!matches_at(t@, pat@, i as int)) by {
                        assert(t@.subrange(i as int, i + pat@.len() as int)[j as int]
                            != pat@[j as int]);
                    }
                }
                hit = false;
                j = p_len;
            } else {
                j += 1;
            }
        }
        if hit {
            proof {
                assert(t@.subrange(i as int, i + pat@.len() as int) =~= pat@);
            }
            return Some(i);
        }
        proof {
            lemma_first_match_step(t@, pat@, i as int, i + 1);
        }
        i += 1;
    }
    proof {
        lemma_first_match_none_when_short(t@, pat@, i as int);
    }
    None
}

/// Whether `pat` occurs anywhere in `t`.
pub fn contains_sub(t: &str, pat: &str) -> (r: bool)
    ensures
        r == (first_match_from(t@, pat@, 0) is Some),
{
    find_sub(t, pat, 0).is_some()
}

/// Concatenation of a sequence of strings, in order.
pub open spec fn concat_seqs(parts: Seq<Seq<char>>) -> Seq<char>
    decreases parts.len(),
{
    if parts.len() == 0 {
        Seq::empty()
    } else {
        concat_seqs(parts.drop_last()) + parts.last()
    }
}

/// Appending one more part extends the concatenation on the right.
pub proof fn lemma_concat_seqs_push(parts: Seq<Seq<char>>, part: Seq<char>)
    ensures
        concat_seqs(parts.push(part)) == concat_seqs(parts) + part,
{
    assert(parts.push(part).drop_last() =~= parts);
    assert(parts.push(part).last() == part);
}

/// Concatenates all strings of `parts` in order.
pub fn concat_all(parts: &Vec<String>) -> (r: String)
    ensures
        r@ == concat_seqs(parts.deep_view()),
{
    let mut out = String::new();
    let mut i: usize = 0;
    proof {
        assert(parts.deep_view().subrange(0, 0) =~= Seq::<Seq<char>>::empty());
        assert(concat_seqs(Seq::<Seq<char>>::empty()) =~= Seq::<char>::empty());
    }
    while i < parts.len()
        invariant
            i <= parts.len(),
            parts.deep_view().len() == parts.len(),
            forall|k: int| 0 <= k < parts.len() ==> parts.deep_view()[k] == parts[k]@,
            out@ == concat_seqs(parts.deep_view().subrange(0, i as int)),
        decreases parts.len() - i,
    {
        out.append(parts[i].as_str());
        proof {
            let dv = parts.deep_view();
            assert(dv.subrange(0, i + 1).drop_last() =~= dv.subrange(0, i as int));
            assert(dv.subrange(0, i + 1).last() == parts[i as int]@);
        }
        i += 1;
    }
    proof {
        assert(parts.deep_view().subrange(0, parts.len() as int) =~= parts.deep_view());
    }
    out
}

/// Copies a string slice into an owned string.
pub fn string_of(s: &str) -> (r: String)
    ensures
        r@ == s@,
{
    String::from_str(s)
}

/// A line-feed character, as a pattern.
pub open spec fn newline() -> Seq<char> {
    seq!['\n']
}

/// A line without its trailing carriage return, as reading lines strips
/// it.
pub open spec fn strip_cr(l: Seq<char>) -> Seq<char> {
    if l.len() > 0 && l.last() == '\r' {
        l.drop_last()
    } else {
        l
    }
}

/// The lines of a text: segments between line feeds, each without a
/// trailing carriage return, with no entry for a trailing line feed.
pub open spec fn split_lines_spec(s: Seq<char>) -> Seq<Seq<char>>
    decreases s.len(),
    via split_lines_spec_decreases
{
    if s.len() == 0 {
        Seq::empty()
    } else {
        match first_match_from(s, newline(), 0) {
            None => seq![strip_cr(s)],
            Some(i) => seq![strip_cr(s.subrange(0, i))]
                + split_lines_spec(s.subrange(i + 1, s.len() as int)),
        }
    }
}

#[via_fn]
proof fn split_lines_spec_decreases(s: Seq<char>) {
    if s.len() > 0 {
        match first_match_from(s, newline(), 0) {
            None => {},
            Some(i) => {
                lemma_first_match_properties(s, newline(), 0);
            },
        }
    }
}

/// A copy of `l` without its trailing carriage return.
fn strip_cr_text(l: &str) -> (r: String)
    ensures
        r@ == strip_cr(l@),
{
    let n = l.unicode_len();
    if n > 0 && l.get_char(n - 1) == '\r' {
        proof {
            assert(l@.subrange(0, n - 1) =~= l@.drop_last());
        }
        string_of(l.substring_char(0, n - 1))
    } else {
        string_of(l)
    }
}

/// Splits a text into its lines, the way a buffered line reader hands
/// them out.
pub fn split_lines(t: &str) -> (r: Vec<String>)
    ensures
        r.deep_view() == split_lines_spec(t@),
    decreases t@.len(),
{
    proof {
        reveal_strlit("\n");
        assert("\n"@ =~= newline());
    }
    if t.is_empty() {
        let r: Vec<String> = Vec::new();
        proof {
            assert(r.deep_view() =~= split_lines_spec(t@));
        }
        return r;
    }
    let t_len = t.unicode_len();
    match find_sub(t, "\n", 0) {
        None => {
            let mut r: Vec<String> = Vec::new();
            r.push(strip_cr_text(t));
            proof {
                assert(r.deep_view() =~= split_lines_spec(t@));
            }
            r
        },
        Some(i) => {
            proof {
                lemma_first_match_properties(t@, newline(), 0);
            }
            let head = strip_cr_text(t.substring_char(0, i));
            let mut rest = split_lines(t.substring_char(i + 1, t_len));
            let mut r: Vec<String> = Vec::new();
            r.push(head);
            let ghost rest_view = rest.deep_view();
            r.append(&mut rest);
            proof {
                let whole = split_lines_spec(t@);
                assert(whole == seq![strip_cr(t@.subrange(0, i as int))]
                    + split_lines_spec(t@.subrange(i + 1, t@.len() as int)));
                assert(r.deep_view() =~= whole) by {
                    assert(r@.len() == 1 + rest_view.len());
                    assert(forall|k: int| 0 <= k < rest_view.len()
                        ==> r@[k + 1]@ == #[trigger] rest_view[k]);
                }
            }
            r
        },
    }
}

/// Lower-case image of one character, for the ASCII letters only.
pub open spec fn ascii_lower(c: char) -> char {
    match c {
        'A' => 'a', 'B' => 'b', 'C' => 'c', 'D' => 'd', 'E' => 'e', 'F' => 'f',
        'G' => 'g', 'H' => 'h', 'I' => 'i', 'J' => 'j', 'K' => 'k', 'L' => 'l',
        'M' => 'm', 'N' => 'n', 'O' => 'o', 'P' => 'p', 'Q' => 'q', 'R' => 'r',
        'S' => 's', 'T' => 't', 'U' => 'u', 'V' => 'v', 'W' => 'w', 'X' => 'x',
        'Y' => 'y', 'Z' => 'z', _ => c,
    }
}

/// Lower-case image of a whole string, ASCII letters folded.
pub open spec fn ascii_lower_seq(s: Seq<char>) -> Seq<char> {
    s.map_values(|c: char| ascii_lower(c))
}

/// Folds one character to lower case, ASCII letters only.
pub fn ascii_lower_char(c: char) -> (r: char)
    ensures
        r == ascii_lower(c),
{
    match c {
        'A' => 'a', 'B' => 'b', 'C' => 'c', 'D' => 'd', 'E' => 'e', 'F' => 'f',
        'G' => 'g', 'H' => 'h', 'I' => 'i', 'J' => 'j', 'K' => 'k', 'L' => 'l',
        'M' => 'm', 'N' => 'n', 'O' => 'o', 'P' => 'p', 'Q' => 'q', 'R' => 'r',
        'S' => 's', 'T' => 't', 'U' => 'u', 'V' => 'v', 'W' => 'w', 'X' => 'x',
        'Y' => 'y', 'Z' => 'z', _ => c,
    }
}

/// Equality up to ASCII case.
pub fn eq_ignore_ascii_case_str(a: &str, b: &str) -> (r: bool)
    ensures
        r == (ascii_lower_seq(a@) == ascii_lower_seq(b@)),
{
    let a_len = a.unicode_len();
    let b_len = b.unicode_len();
    if a_len != b_len {
        assert(ascii_lower_seq(a@).len() != ascii_lower_seq(b@).len());
        return false;
    }
    let mut i: usize = 0;
    while i < a_len
        invariant
            i <= a_len,
            a_len == a@.len(),
            a_len == b@.len(),
            forall|k: int| 0 <= k < i ==> ascii_lower(a@[k]) == ascii_lower(b@[k]),
        decreases a_len - i,
    {
        if ascii_lower_char(a.get_char(i)) != ascii_lower_char(b.get_char(i)) {
            assert(ascii_lower_seq(a@)[i as int] != ascii_lower_seq(b@)[i as int]);
            return false;
        }
        i += 1;
    }
    proof {
        assert(ascii_lower_seq(a@) =~= ascii_lower_seq(b@));
    }
    true
}

} // verus!
