//! The thinking filter: a two-state machine that suppresses
//! `<think>`...`</think>` spans from live streaming echo, and a post-hoc
//! pass that removes whole spans from an accumulated response.
//!
//! The live filter is modelled one character at a time, so a tag split
//! across fragment boundaries is recognized; `lemma_filter_run_concat`
//! states that feeding fragments piecewise equals feeding their
//! concatenation.
use vstd::prelude::*;

use crate::text::{concat_seqs, find_sub, first_match_from, lemma_concat_seqs_push, string_of};

verus! {

/// The opening marker recognized by the filter.
pub open spec fn open_tag() -> Seq<char> {
    seq!['<', 't', 'h', 'i', 'n', 'k', '>']
}

/// The closing marker recognized by the filter.
pub open spec fn close_tag() -> Seq<char> {
    seq!['<', '/', 't', 'h', 'i', 'n', 'k', '>']
}

/// One step of the live filter. State: suppressing or not, plus how many
/// characters of the candidate tag have been matched (those are withheld
/// in pass-through mode, discarded in suppress mode). Returns the new
/// state and the characters echoed by this step.
pub open spec fn filter_step(in_th: bool, pending: int, c: char) -> (bool, int, Seq<char>) {
    if !in_th {
        if 0 <= pending < 7 && c == open_tag()[pending] {
            if pending + 1 == 7 {
                (true, 0, Seq::empty())
            } else {
                (false, pending + 1, Seq::empty())
            }
        } else {
            let flushed = open_tag().subrange(0, if 0 <= pending < 7 { pending } else { 0 });
            if c == '<' {
                (false, 1, flushed)
            } else {
                (false, 0, flushed.push(c))
            }
        }
    } else {
        if 0 <= pending < 8 && c == close_tag()[pending] {
            if pending + 1 == 8 {
                (false, 0, Seq::empty())
            } else {
                (true, pending + 1, Seq::empty())
            }
        } else {
            if c == '<' {
                (true, 1, Seq::empty())
            } else {
                (true, 0, Seq::empty())
            }
        }
    }
}

/// The live filter run over a whole sequence of characters.
pub open spec fn filter_run(in_th: bool, pending: int, s: Seq<char>) -> (bool, int, Seq<char>)
    decreases s.len(),
{
    if s.len() == 0 {
        (in_th, pending, Seq::empty())
    } else {
        let head = filter_step(in_th, pending, s[0]);
        let rest = filter_run(head.0, head.1, s.subrange(1, s.len() as int));
        (rest.0, rest.1, head.2 + rest.2)
    }
}

/// The matched-tag counter stays inside the tag it belongs to.
pub open spec fn state_wf(in_th: bool, pending: int) -> bool {
    if in_th {
        0 <= pending < 8
    } else {
        0 <= pending < 7
    }
}

/// Running on `s.push(c)` is running on `s` and then stepping on `c`.
pub proof fn lemma_filter_run_snoc(in_th: bool, pending: int, s: Seq<char>, c: char)
    ensures
        ({
            let whole = filter_run(in_th, pending, s.push(c));
            let part = filter_run(in_th, pending, s);
            let last = filter_step(part.0, part.1, c);
            whole.0 == last.0 && whole.1 == last.1 && whole.2 == part.2 + last.2
        }),
    decreases s.len(),
{
    if s.len() == 0 {
        reveal_with_fuel(filter_run, 3);
        let head = filter_step(in_th, pending, c);
        assert(s.push(c)[0] == c);
        assert(s.push(c).subrange(1, 1) =~= Seq::<char>::empty());
        assert(filter_run(in_th, pending, s.push(c)).2 =~= head.2);
        assert(filter_run(in_th, pending, s).2 =~= Seq::<char>::empty());
        assert(Seq::<char>::empty() + head.2 =~= head.2);
    } else {
        let sc = s.push(c);
        assert(sc[0] == s[0]);
        let head = filter_step(in_th, pending, s[0]);
        assert(sc.subrange(1, sc.len() as int) =~= s.subrange(1, s.len() as int).push(c));
        lemma_filter_run_snoc(head.0, head.1, s.subrange(1, s.len() as int), c);
        let part_rest = filter_run(head.0, head.1, s.subrange(1, s.len() as int));
        let part = filter_run(in_th, pending, s);
        let last = filter_step(part.0, part.1, c);
        assert(head.2 + (part_rest.2 + last.2) =~= (head.2 + part_rest.2) + last.2);
    }
}

/// Feeding two fragments one after the other equals feeding their
/// concatenation: a tag split across the boundary is still recognized.
pub proof fn lemma_filter_run_concat(in_th: bool, pending: int, a: Seq<char>, b: Seq<char>)
    ensures
        ({
            let whole = filter_run(in_th, pending, a + b);
            let first_part = filter_run(in_th, pending, a);
            let second_part = filter_run(first_part.0, first_part.1, b);
            whole.0 == second_part.0 && whole.1 == second_part.1
                && whole.2 == first_part.2 + second_part.2
        }),
    decreases b.len(),
{
    if b.len() == 0 {
        assert(a + b =~= a);
        let first_part = filter_run(in_th, pending, a);
        assert(first_part.2 + Seq::<char>::empty() =~= first_part.2);
    } else {
        let b0 = b.subrange(0, b.len() - 1);
        let c = b[b.len() - 1];
        assert(b =~= b0.push(c));
        assert(a + b =~= (a + b0).push(c));
        lemma_filter_run_concat(in_th, pending, a, b0);
        lemma_filter_run_snoc(in_th, pending, a + b0, c);
        let first_part = filter_run(in_th, pending, a);
        lemma_filter_run_snoc(first_part.0, first_part.1, b0, c);
        let mid = filter_run(first_part.0, first_part.1, b0);
        let last = filter_step(mid.0, mid.1, c);
        assert(first_part.2 + (mid.2 + last.2) =~= (first_part.2 + mid.2) + last.2);
    }
}

/// What a whole stream looks like after live filtering, including the
/// flush of a withheld partial tag at stream end (a partial match that
/// never completed is ordinary text; suppressed content stays dropped).
pub open spec fn live_filtered(s: Seq<char>) -> Seq<char> {
    let r = filter_run(false, 0, s);
    if !r.0 {
        r.2 + open_tag().subrange(0, r.1)
    } else {
        r.2
    }
}

/// The character at position `n` of the opening tag.
fn open_tag_char(n: usize) -> (r: char)
    requires
        n < 7,
    ensures
        r == open_tag()[n as int],
{
    match n {
        0 => '<',
        1 => 't',
        2 => 'h',
        3 => 'i',
        4 => 'n',
        5 => 'k',
        _ => '>',
    }
}

/// The character at position `n` of the closing tag.
fn close_tag_char(n: usize) -> (r: char)
    requires
        n < 8,
    ensures
        r == close_tag()[n as int],
{
    match n {
        0 => '<',
        1 => '/',
        2 => 't',
        3 => 'h',
        4 => 'i',
        5 => 'n',
        6 => 'k',
        _ => '>',
    }
}

/// The first `n` characters of the opening tag, as a string slice.
fn open_tag_prefix(n: usize) -> (r: &'static str)
    requires
        n <= 7,
    ensures
        r@ == open_tag().subrange(0, n as int),
{
    let s = "<think>";
    proof {
        reveal_strlit("<think>");
        assert(s@ =~= open_tag());
    }
    s.substring_char(0, n)
}

/// The live thinking filter. Feed it the stream fragments in arrival
/// order; it returns what may be echoed. Everything else of the stream is
/// either part of a suppressed thinking span or still withheld as a
/// possible partial tag.
pub struct ThinkFilter {
    /// Whether the filter is inside a thinking span.
    pub in_thinking: bool,
    /// How many characters of the candidate tag are currently matched.
    pub pending: usize,
}

impl ThinkFilter {
    pub open spec fn wf(&self) -> bool {
        state_wf(self.in_thinking, self.pending as int)
    }

    /// A fresh filter in pass-through mode.
    pub fn new() -> (r: ThinkFilter)
        ensures
            r.wf(),
            !r.in_thinking,
            r.pending == 0,
    {
        ThinkFilter { in_thinking: false, pending: 0 }
    }

    /// Consumes one arriving fragment and returns the text to echo.
    pub fn feed(&mut self, frag: &str) -> (echoed: String)
        requires
            old(self).wf(),
        ensures
            final(self).wf(),
            ({
                let r = filter_run(old(self).in_thinking, old(self).pending as int, frag@);
                final(self).in_thinking == r.0 && final(self).pending == r.1 && echoed@ == r.2
            }),
    {
        let ghost st0: (bool, int) = (self.in_thinking, self.pending as int);
        let mut out = String::new();
        let len = frag.unicode_len();
        let mut i: usize = 0;
        proof {
            assert(frag@.subrange(0, 0) =~= Seq::<char>::empty());
        }
        while i < len
            invariant
                i <= len,
                len == frag@.len(),
                self.wf(),
                ({
                    let r = filter_run(st0.0, st0.1, frag@.subrange(0, i as int));
                    self.in_thinking == r.0 && self.pending == r.1 && out@ == r.2
                }),
            decreases len - i,
        {
            let c = frag.get_char(i);
            let ghost pre = frag@.subrange(0, i as int);
            proof {
                assert(frag@.subrange(0, i + 1) =~= pre.push(c));
                lemma_filter_run_snoc(st0.0, st0.1, pre, c);
            }
            if !self.in_thinking {
                if c == open_tag_char(self.pending) {
                    self.pending += 1;
                    if self.pending == 7 {
                        self.in_thinking = true;
                        self.pending = 0;
                    }
                } else {
                    out.append(open_tag_prefix(self.pending));
                    if c == '<' {
                        self.pending = 1;
                    } else {
                        self.pending = 0;
                        out.append(frag.substring_char(i, i + 1));
                    }
                }
            } else {
                if c == close_tag_char(self.pending) {
                    self.pending += 1;
                    if self.pending == 8 {
                        self.in_thinking = false;
                        self.pending = 0;
                    }
                } else {
                    if c == '<' {
                        self.pending = 1;
                    } else {
                        self.pending = 0;
                    }
                }
            }
            proof {
                let r_pre = filter_run(st0.0, st0.1, pre);
                let stepped = filter_step(r_pre.0, r_pre.1, c);
                assert(frag@.subrange(i as int, i + 1) =~= seq![c]);
                assert(out@ == filter_run(st0.0, st0.1, frag@.subrange(0, i + 1)).2);
            }
            i += 1;
        }
        proof {
            assert(frag@.subrange(0, len as int) =~= frag@);
        }
        out
    }

    /// Ends the stream: a withheld partial opening tag turns out to be
    /// ordinary text and is echoed; inside a span nothing more appears.
    pub fn finish(&mut self) -> (tail: String)
        requires
            old(self).wf(),
        ensures
            final(self).wf(),
            final(self).pending == 0,
            final(self).in_thinking == old(self).in_thinking,
            tail@ == if !old(self).in_thinking {
                open_tag().subrange(0, old(self).pending as int)
            } else {
                Seq::<char>::empty()
            },
    {
        let tail = if !self.in_thinking {
            string_of(open_tag_prefix(self.pending))
        } else {
            String::new()
        };
        self.pending = 0;
        tail
    }
}

/// Streams all fragments through the pipeline. The first result is the
/// accumulated response, the second what was echoed to the user. The
/// accumulated text is the concatenation of the fragments in arrival
/// order whatever the filter mode: filtering only changes the echo.
pub fn accumulate_fragments(frags: &Vec<String>, filter_live: bool) -> (res: (String, String))
    ensures
        res.0@ == concat_seqs(frags.deep_view()),
        filter_live ==> res.1@ == live_filtered(concat_seqs(frags.deep_view())),
        !filter_live ==> res.1@ == concat_seqs(frags.deep_view()),
{
    let mut accumulated = String::new();
    let mut echoed = String::new();
    let mut filter = ThinkFilter::new();
    let mut i: usize = 0;
    proof {
        assert(frags.deep_view().subrange(0, 0) =~= Seq::<Seq<char>>::empty());
        assert(concat_seqs(Seq::<Seq<char>>::empty()) =~= Seq::<char>::empty());
    }
    while i < frags.len()
        invariant
            i <= frags.len(),
            frags.deep_view().len() == frags.len(),
            forall|k: int| 0 <= k < frags.len() ==> frags.deep_view()[k] == frags[k]@,
            accumulated@ == concat_seqs(frags.deep_view().subrange(0, i as int)),
            filter.wf(),
            filter_live ==> ({
                let r = filter_run(false, 0, accumulated@);
                filter.in_thinking == r.0 && filter.pending == r.1 && echoed@ == r.2
            }),
            !filter_live ==> echoed@ == accumulated@,
        decreases frags.len() - i,
    {
        let ghost acc_pre = accumulated@;
        accumulated.append(frags[i].as_str());
        if filter_live {
            let piece = filter.feed(frags[i].as_str());
            echoed.append(piece.as_str());
        } else {
            echoed.append(frags[i].as_str());
        }
        proof {
            let dv = frags.deep_view();
            assert(dv.subrange(0, i + 1).drop_last() =~= dv.subrange(0, i as int));
            assert(dv.subrange(0, i + 1).last() == frags[i as int]@);
            lemma_concat_seqs_push(dv.subrange(0, i as int), frags[i as int]@);
            lemma_filter_run_concat(false, 0, acc_pre, frags[i as int]@);
        }
        i += 1;
    }
    if filter_live {
        let tail = filter.finish();
        echoed.append(tail.as_str());
    }
    proof {
        assert(frags.deep_view().subrange(0, frags.len() as int) =~= frags.deep_view());
    }
    (accumulated, echoed)
}

/// Whether `t` holds a complete `<think>`...`</think>` span: an opening
/// tag with a closing tag somewhere after it.
pub open spec fn has_think_span(t: Seq<char>) -> bool {
    match first_match_from(t, open_tag(), 0) {
        None => false,
        Some(i) => first_match_from(t, close_tag(), i + 7) is Some,
    }
}

/// One pass of post-hoc removal: repeatedly drop the first
/// `<think>`...`</think>` span (non-greedy: up to the first closing tag
/// after the opening one) and continue after it. An opening tag without a
/// closing tag is left as it stands.
pub open spec fn remove_think(t: Seq<char>) -> Seq<char>
    decreases t.len(),
    via remove_think_decreases
{
    match first_match_from(t, open_tag(), 0) {
        None => t,
        Some(i) => match first_match_from(t, close_tag(), i + 7) {
            None => t,
            Some(j) => t.subrange(0, i) + remove_think(t.subrange(j + 8, t.len() as int)),
        },
    }
}

#[via_fn]
proof fn remove_think_decreases(t: Seq<char>) {
    match first_match_from(t, open_tag(), 0) {
        None => {},
        Some(i) => {
            crate::text::lemma_first_match_properties(t, open_tag(), 0);
            match first_match_from(t, close_tag(), i + 7) {
                None => {},
                Some(j) => {
                    crate::text::lemma_first_match_properties(t, close_tag(), i + 7);
                },
            }
        },
    }
}

/// Text without a complete span passes through removal unchanged.
pub proof fn lemma_remove_think_identity(t: Seq<char>)
    requires
        !has_think_span(t),
    ensures
        remove_think(t) == t,
{
}

/// Removal is idempotent on every text whose once-filtered form holds no
/// complete span. (Removal can splice the two sides of a removed span
/// into a fresh span, so idempotence does not hold of every text.)
pub proof fn lemma_remove_think_idempotent(t: Seq<char>)
    requires
        !has_think_span(remove_think(t)),
    ensures
        remove_think(remove_think(t)) == remove_think(t),
{
    lemma_remove_think_identity(remove_think(t));
}

/// Removes every `<think>`...`</think>` span from an accumulated
/// response, as the post-hoc filtering mode asks.
pub fn remove_think_text(t: &str) -> (r: String)
    ensures
        r@ == remove_think(t@),
    decreases t@.len(),
{
    proof {
        reveal_strlit("<think>");
        reveal_strlit("</think>");
        assert("<think>"@ =~= open_tag());
        assert("</think>"@ =~= close_tag());
    }
    let t_len = t.unicode_len();
    match find_sub(t, "<think>", 0) {
        None => string_of(t),
        Some(i) => {
            proof {
                crate::text::lemma_first_match_properties(t@, open_tag(), 0);
            }
            match find_sub(t, "</think>", i + 7) {
                None => string_of(t),
                Some(j) => {
                    proof {
                        crate::text::lemma_first_match_properties(t@, close_tag(), i as int + 7);
                    }
                    let mut out = string_of(t.substring_char(0, i));
                    let tail = t.substring_char(j + 8, t_len);
                    let rest = remove_think_text(tail);
                    out.append(rest.as_str());
                    out
                },
            }
        },
    }
}

} // verus!
