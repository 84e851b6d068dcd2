//! Orchestration: the recursion-wave rules that decide when a fresh
//! process is spawned and with which arguments, and the in-process
//! iterative feedback session with its conversation history. Spawning the
//! process and talking to the user are outside work; every decision is
//! verified.
use vstd::prelude::*;

use crate::json::{all_dec_digits, dec_seq, dec_value, parse_u8, unsigned_digits_of, u64_dec};
use crate::text::string_of;

verus! {

/// Where one invocation stands in the recursion: its own wave number and
/// the cap the caller asked for.
pub struct RecursionContext {
    pub wave: u8,
    pub max: u8,
}

/// The environment variable the wave number travels in between
/// processes.
pub fn recursion_wave_env_name() -> (r: &'static str)
    ensures
        r@ == "OLA_RECURSION_WAVE"@,
{
    "OLA_RECURSION_WAVE"
}

/// The wave this invocation runs at: the environment value when it is a
/// plain decimal that fits, zero otherwise (and zero when unset).
pub fn current_wave(env_value: Option<&str>) -> (r: u8)
    ensures
        env_value is None ==> r == 0,
        match env_value {
            Some(s) => ({
                let digits = unsigned_digits_of(s@);
                if digits.len() > 0 && all_dec_digits(digits) && dec_value(digits) <= 255 {
                    r == dec_value(digits)
                } else {
                    r == 0
                }
            }),
            None => r == 0,
        },
{
    match env_value {
        None => 0,
        Some(s) => match parse_u8(s) {
            Some(v) => v,
            None => 0,
        },
    }
}

impl RecursionContext {
    /// The context this invocation runs in.
    pub fn new(wave: u8, max: u8) -> (r: RecursionContext)
        ensures
            r.wave == wave,
            r.max == max,
    {
        RecursionContext { wave, max }
    }

    /// Whether a child process is spawned: only while the next wave
    /// number is still below the cap, so that exactly `max` invocations
    /// run in all.
    pub fn should_spawn(&self) -> (r: bool)
        ensures
            r == (self.wave + 1 < self.max),
    {
        self.wave < u8::MAX && self.wave + 1 < self.max
    }

    /// The context the child process runs in.
    pub fn child(&self) -> (r: RecursionContext)
        requires
            self.wave + 1 < self.max,
        ensures
            r.wave == self.wave + 1,
            r.max == self.max,
            r.wave < r.max,
    {
        RecursionContext { wave: self.wave + 1, max: self.max }
    }

    /// The wave number as the child's environment value.
    pub fn child_env_value(&self) -> (r: String)
        requires
            self.wave + 1 < self.max,
        ensures
            r@ == dec_seq((self.wave + 1) as nat),
    {
        u64_dec((self.wave + 1) as u64)
    }
}

/// How many invocations run from a given wave: this one, plus the chain
/// its child starts while the next wave number is below the cap.
pub open spec fn invocations_from(wave: u8, max: u8) -> nat
    decreases max - wave,
{
    if wave + 1 < max {
        1 + invocations_from((wave + 1) as u8, max)
    } else {
        1
    }
}

/// Every wave below the cap starts a chain that runs once per remaining
/// wave number.
pub proof fn lemma_invocations_from(wave: u8, max: u8)
    requires
        wave < max,
    ensures
        invocations_from(wave, max) == max - wave,
    decreases max - wave,
{
    if wave + 1 < max {
        lemma_invocations_from((wave + 1) as u8, max);
    }
}

/// With the wave environment unset, a run with cap `max` makes exactly
/// `max` invocations in all: waves 0 through `max - 1`, and the last one
/// spawns no further process.
pub proof fn lemma_total_invocations(max: u8)
    requires
        max >= 1,
    ensures
        invocations_from(0, max) == max,
{
    lemma_invocations_from(0, max);
}

/// Whether this invocation is the one that copies to the clipboard: the
/// copy happens exactly once, after the final wave, so an invocation that
/// will spawn a child leaves the copy to it.
pub fn copy_on_this_wave(clipboard: bool, wave: u8, max: Option<u8>) -> (r: bool)
    ensures
        r == (clipboard && match max {
            Some(m) => !(wave + 1 < m),
            None => true,
        }),
{
    match max {
        Some(m) => clipboard && !(wave < u8::MAX && wave + 1 < m),
        None => clipboard,
    }
}

/// The arguments the child process is launched with: the prompt command
/// with every flag of this invocation re-serialized, and the recursion
/// cap handed on.
pub open spec fn child_args_spec(
    goals: Option<Seq<char>>,
    format: Seq<char>,
    warnings: Seq<char>,
    clipboard: bool,
    quiet: bool,
    pipe: bool,
    no_thinking: bool,
    max: u8,
    iterations: Option<u8>,
) -> Seq<Seq<char>> {
    seq!["prompt"@] + (match goals {
        Some(g) => seq!["--goals"@, g],
        None => Seq::<Seq<char>>::empty(),
    }) + seq!["--format"@, format] + (if warnings.len() > 0 {
        seq!["--warnings"@, warnings]
    } else {
        Seq::<Seq<char>>::empty()
    }) + (if clipboard {
        seq!["--clipboard"@]
    } else {
        Seq::<Seq<char>>::empty()
    }) + (if quiet {
        seq!["--quiet"@]
    } else {
        Seq::<Seq<char>>::empty()
    }) + (if pipe {
        seq!["--pipe"@]
    } else {
        Seq::<Seq<char>>::empty()
    }) + (if no_thinking {
        seq!["--no-thinking"@]
    } else {
        Seq::<Seq<char>>::empty()
    }) + seq!["--recursion"@, dec_seq(max as nat)] + (match iterations {
        Some(n) => seq!["--iterations"@, dec_seq(n as nat)],
        None => Seq::<Seq<char>>::empty(),
    })
}

/// Appends one argument.
fn push_arg(args: &mut Vec<String>, s: String)
    ensures
        final(args).deep_view() == old(args).deep_view().push(s@),
{
    let ghost pre = args.deep_view();
    args.push(s);
    proof {
        assert(args.deep_view() =~= pre.push(s@));
    }
}

/// Builds the child process's argument list.
#[verifier::rlimit(60)]
pub fn child_args(
    goals: Option<&str>,
    format: &str,
    warnings: &str,
    clipboard: bool,
    quiet: bool,
    pipe: bool,
    no_thinking: bool,
    max: u8,
    iterations: Option<u8>,
) -> (r: Vec<String>)
    ensures
        r.deep_view() == child_args_spec(
            goals.deep_view(),
            format@,
            warnings@,
            clipboard,
            quiet,
            pipe,
            no_thinking,
            max,
            iterations,
        ),
{
    let mut args: Vec<String> = Vec::new();
    push_arg(&mut args, string_of("prompt"));
    let ghost p1 = seq!["prompt"@] + (match goals.deep_view() {
        Some(g) => seq!["--goals"@, g],
        None => Seq::<Seq<char>>::empty(),
    });
    match goals {
        Some(g) => {
            push_arg(&mut args, string_of("--goals"));
            push_arg(&mut args, string_of(g));
        },
        None => {},
    }
    proof {
        assert(args.deep_view() =~= p1);
    }
    push_arg(&mut args, string_of("--format"));
    push_arg(&mut args, string_of(format));
    let ghost p2 = p1 + seq!["--format"@, format@] + (if warnings@.len() > 0 {
        seq!["--warnings"@, warnings@]
    } else {
        Seq::<Seq<char>>::empty()
    });
    if !warnings.is_empty() {
        push_arg(&mut args, string_of("--warnings"));
        push_arg(&mut args, string_of(warnings));
    }
    proof {
        assert(args.deep_view() =~= p2);
    }
    if clipboard {
        push_arg(&mut args, string_of("--clipboard"));
    }
    let ghost p3 = p2 + (if clipboard {
        seq!["--clipboard"@]
    } else {
        Seq::<Seq<char>>::empty()
    });
    proof {
        assert(args.deep_view() =~= p3);
    }
    if quiet {
        push_arg(&mut args, string_of("--quiet"));
    }
    let ghost p4 = p3 + (if quiet {
        seq!["--quiet"@]
    } else {
        Seq::<Seq<char>>::empty()
    });
    proof {
        assert(args.deep_view() =~= p4);
    }
    if pipe {
        push_arg(&mut args, string_of("--pipe"));
    }
    let ghost p5 = p4 + (if pipe {
        seq!["--pipe"@]
    } else {
        Seq::<Seq<char>>::empty()
    });
    proof {
        assert(args.deep_view() =~= p5);
    }
    if no_thinking {
        push_arg(&mut args, string_of("--no-thinking"));
    }
    let ghost p6 = p5 + (if no_thinking {
        seq!["--no-thinking"@]
    } else {
        Seq::<Seq<char>>::empty()
    });
    proof {
        assert(args.deep_view() =~= p6);
    }
    push_arg(&mut args, string_of("--recursion"));
    push_arg(&mut args, u64_dec(max as u64));
    let ghost p7 = p6 + seq!["--recursion"@, dec_seq(max as nat)];
    proof {
        assert(args.deep_view() =~= p7);
    }
    match iterations {
        Some(n) => {
            push_arg(&mut args, string_of("--iterations"));
            push_arg(&mut args, u64_dec(n as u64));
        },
        None => {},
    }
    proof {
        assert(args.deep_view() =~= child_args_spec(
            goals.deep_view(),
            format@,
            warnings@,
            clipboard,
            quiet,
            pipe,
            no_thinking,
            max,
            iterations,
        ));
    }
    args
}

/// One entry of a feedback session's conversation history.
pub enum HistoryEntry {
    /// The provider's reply of one round, 1-based.
    Response { index: u8, text: String },
    /// The feedback consumed by the round after `index`.
    Feedback { index: u8, text: String },
}

/// The generic feedback used when the user types nothing.
pub fn auto_feedback_text() -> (r: String)
    ensures
        r@ == "please improve"@,
{
    string_of("please improve")
}

/// How many response entries a history holds.
pub open spec fn count_responses(h: Seq<HistoryEntry>) -> nat
    decreases h.len(),
{
    if h.len() == 0 {
        0
    } else {
        count_responses(h.drop_last()) + (if h.last() is Response {
            1nat
        } else {
            0nat
        })
    }
}

/// How many feedback entries a history holds.
pub open spec fn count_feedback(h: Seq<HistoryEntry>) -> nat
    decreases h.len(),
{
    if h.len() == 0 {
        0
    } else {
        count_feedback(h.drop_last()) + (if h.last() is Feedback {
            1nat
        } else {
            0nat
        })
    }
}

/// Responses at even positions, feedback at odd ones.
pub open spec fn alternating(h: Seq<HistoryEntry>) -> bool {
    forall|k: int| 0 <= k < h.len()
        ==> if k % 2 == 0 {
            #[trigger] h[k] is Response
        } else {
            h[k] is Feedback
        }
}

/// An alternating history that ends on a response holds one response per
/// pair plus the last, and one feedback between each two responses.
pub proof fn lemma_alternating_counts(h: Seq<HistoryEntry>)
    requires
        alternating(h),
    ensures
        count_responses(h) == (h.len() + 1) / 2,
        count_feedback(h) == h.len() / 2,
    decreases h.len(),
{
    if h.len() > 0 {
        assert(alternating(h.drop_last()));
        lemma_alternating_counts(h.drop_last());
    }
}

/// An iterative feedback session: the history grows monotonically for
/// `max` rounds and is discarded at session end.
pub struct FeedbackSession {
    pub history: Vec<HistoryEntry>,
    pub round: u8,
    pub max: u8,
}

impl FeedbackSession {
    /// Rounds never outrun the cap.
    pub open spec fn wf(&self) -> bool {
        self.round <= self.max
    }

    /// A fresh session for `max` rounds.
    pub fn new(max: u8) -> (r: FeedbackSession)
        requires
            max >= 1,
        ensures
            r.wf(),
            r.round == 0,
            r.max == max,
            r.history@.len() == 0,
    {
        FeedbackSession { history: Vec::new(), round: 0, max }
    }

    /// Whether the session is over.
    pub fn done(&self) -> (r: bool)
        ensures
            r == (self.round == self.max),
    {
        self.round == self.max
    }

    /// Records the provider's reply of the current round and advances the
    /// round.
    pub fn record_response(&mut self, text: String)
        requires
            old(self).wf(),
            old(self).round < old(self).max,
        ensures
            final(self).wf(),
            final(self).round == old(self).round + 1,
            final(self).max == old(self).max,
            final(self).history@ == old(self).history@.push(
                HistoryEntry::Response { index: (old(self).round + 1) as u8, text },
            ),
    {
        let index = self.round + 1;
        self.history.push(HistoryEntry::Response { index, text });
        self.round = index;
    }

    /// Records the feedback the next round consumes: what the user typed,
    /// or the generic text in automatic mode.
    pub fn record_feedback(&mut self, text: String)
        requires
            old(self).wf(),
            0 < old(self).round < old(self).max,
        ensures
            final(self).wf(),
            final(self).round == old(self).round,
            final(self).max == old(self).max,
            final(self).history@ == old(self).history@.push(
                HistoryEntry::Feedback { index: old(self).round, text },
            ),
    {
        let index = self.round;
        self.history.push(HistoryEntry::Feedback { index, text });
    }

    /// The prompt of the next round: the base prompt with the history
    /// rendered after it.
    pub fn next_prompt(&self, base: &str) -> (r: String)
        ensures
            r@ == base@ + history_block(self.history@),
    {
        let mut out = string_of(base);
        let piece = render_history(&self.history);
        out.append(piece.as_str());
        out
    }
}

/// How one history entry reads inside a prompt.
pub open spec fn entry_block(e: HistoryEntry) -> Seq<char> {
    match e {
        HistoryEntry::Response { index, text } => "\n\nResponse "@ + dec_seq(index as nat)
            + ":\n"@ + text@,
        HistoryEntry::Feedback { index, text } => "\n\nFEEDBACK: "@ + text@,
    }
}

/// How a whole history reads inside a prompt, in order.
pub open spec fn history_block(h: Seq<HistoryEntry>) -> Seq<char>
    decreases h.len(),
{
    if h.len() == 0 {
        Seq::empty()
    } else {
        history_block(h.drop_last()) + entry_block(h.last())
    }
}

/// Renders a history for embedding in the next round's prompt.
pub fn render_history(h: &Vec<HistoryEntry>) -> (r: String)
    ensures
        r@ == history_block(h@),
{
    let mut out = String::new();
    let mut i: usize = 0;
    proof {
        assert(h@.subrange(0, 0) =~= Seq::<HistoryEntry>::empty());
    }
    while i < h.len()
        invariant
            i <= h@.len(),
            out@ == history_block(h@.subrange(0, i as int)),
        decreases h@.len() - i,
    {
        proof {
            assert(h@.subrange(0, i + 1).drop_last() =~= h@.subrange(0, i as int));
            assert(h@.subrange(0, i + 1).last() == h@[i as int]);
        }
        match &h[i] {
            HistoryEntry::Response { index, text } => {
                out.append("\n\nResponse ");
                let piece = u64_dec(*index as u64);
                out.append(piece.as_str());
                out.append(":\n");
                out.append(text.as_str());
            },
            HistoryEntry::Feedback { index, text } => {
                out.append("\n\nFEEDBACK: ");
                out.append(text.as_str());
            },
        }
        i += 1;
    }
    proof {
        assert(h@.subrange(0, h@.len() as int) =~= h@);
    }
    out
}

/// Runs a whole session in automatic mode over the replies the provider
/// gave, one per round: after `max` rounds the history holds exactly
/// `max` responses and `max - 1` generic feedback entries, alternating,
/// each response carrying its round's reply.
pub fn run_auto_session(responses: &Vec<String>, max: u8) -> (s: FeedbackSession)
    requires
        1 <= max,
        responses@.len() == max,
    ensures
        s.wf(),
        s.round == max,
        s.max == max,
        s.history@.len() == 2 * max - 1,
        alternating(s.history@),
        count_responses(s.history@) == max,
        count_feedback(s.history@) == max - 1,
        forall|k: int| 0 <= k < s.history@.len() && k % 2 == 0
            ==> ((#[trigger] s.history@[k]) matches HistoryEntry::Response { index, text }
                && index == (k / 2 + 1) as u8 && text@ == responses@[k / 2]@),
        forall|k: int| 0 <= k < s.history@.len() && k % 2 == 1
            ==> ((#[trigger] s.history@[k]) matches HistoryEntry::Feedback { index: _, text }
                && text@ == "please improve"@),
{
    let mut session = FeedbackSession::new(max);
    let mut i: usize = 0;
    while i < max as usize
        invariant
            i <= max,
            session.wf(),
            session.round == i,
            session.max == max,
            responses@.len() == max,
            session.history@.len() == if i == 0 { 0int } else { 2 * i - 1 },
            forall|k: int| 0 <= k < session.history@.len() && k % 2 == 0
                ==> ((#[trigger] session.history@[k]) matches HistoryEntry::Response {
                    index,
                    text,
                } && index == (k / 2 + 1) as u8 && text@ == responses@[k / 2]@),
            forall|k: int| 0 <= k < session.history@.len() && k % 2 == 1
                ==> ((#[trigger] session.history@[k]) matches HistoryEntry::Feedback {
                    index: _,
                    text,
                } && text@ == "please improve"@),
        decreases max - i,
    {
        if i > 0 {
            session.record_feedback(auto_feedback_text());
        }
        let reply = string_of(responses[i].as_str());
        proof {
            assert(responses@[i as int]@ == reply@);
        }
        session.record_response(reply);
        i += 1;
    }
    proof {
        assert(alternating(session.history@));
        lemma_alternating_counts(session.history@);
    }
    session
}

} // verus!
