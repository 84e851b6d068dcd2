use ola::think::{ThinkFilter, accumulate_fragments, remove_think_text};

fn frags(items: &[&str]) -> Vec<String> {
    items.iter().map(|s| s.to_string()).collect()
}

#[test]
fn live_filter_suppresses_thinking_span() {
    let mut filter = ThinkFilter::new();
    let mut echoed = String::new();
    echoed.push_str(&filter.feed("before <think>secret</think> after"));
    echoed.push_str(&filter.finish());
    assert_eq!(echoed, "before  after");
}

#[test]
fn live_filter_handles_tag_split_across_fragments() {
    let mut filter = ThinkFilter::new();
    let mut echoed = String::new();
    echoed.push_str(&filter.feed("hello <th"));
    echoed.push_str(&filter.feed("ink>hidden</th"));
    echoed.push_str(&filter.feed("ink>world"));
    echoed.push_str(&filter.finish());
    assert_eq!(echoed, "hello world");
}

#[test]
fn live_filter_flushes_partial_tag_that_never_completes() {
    let mut filter = ThinkFilter::new();
    let mut echoed = String::new();
    echoed.push_str(&filter.feed("a <thin"));
    echoed.push_str(&filter.feed("g happened"));
    echoed.push_str(&filter.finish());
    assert_eq!(echoed, "a <thing happened");
}

#[test]
fn live_filter_unterminated_span_suppresses_remainder() {
    let mut filter = ThinkFilter::new();
    let mut echoed = String::new();
    echoed.push_str(&filter.feed("shown <think>never closed"));
    echoed.push_str(&filter.feed(" still hidden"));
    echoed.push_str(&filter.finish());
    assert_eq!(echoed, "shown ");
}

#[test]
fn accumulated_text_ignores_filter_mode() {
    let input = frags(&["ab<th", "ink>x</think>", "cd"]);
    let (accumulated_filtered, echoed) = accumulate_fragments(&input, true);
    let (accumulated_plain, echoed_plain) = accumulate_fragments(&input, false);
    assert_eq!(accumulated_filtered, "ab<think>x</think>cd");
    assert_eq!(accumulated_plain, "ab<think>x</think>cd");
    assert_eq!(echoed, "abcd");
    assert_eq!(echoed_plain, "ab<think>x</think>cd");
}

#[test]
fn post_hoc_removal_drops_every_span() {
    let cleaned = remove_think_text("a<think>x</think>b<think>y</think>c");
    assert_eq!(cleaned, "abc");
}

#[test]
fn post_hoc_removal_is_non_greedy() {
    let cleaned = remove_think_text("a<think>x</think>keep</think>b");
    assert_eq!(cleaned, "akeep</think>b");
}

#[test]
fn post_hoc_removal_leaves_unterminated_open_alone() {
    let cleaned = remove_think_text("a<think>never closed");
    assert_eq!(cleaned, "a<think>never closed");
}

#[test]
fn post_hoc_removal_is_idempotent_on_ordinary_text() {
    let once = remove_think_text("x<think>a</think>y<think>b</think>z");
    let twice = remove_think_text(&once);
    assert_eq!(once, "xyz");
    assert_eq!(twice, once);
}

#[test]
fn post_hoc_removal_can_splice_a_new_span() {
    // The two sides of a removed span can splice into a fresh tag pair;
    // a second pass then removes more. This is the documented boundary of
    // the idempotence guarantee.
    let once = remove_think_text("<t<think>a</think>hink>X</think>");
    assert_eq!(once, "<think>X</think>");
    let twice = remove_think_text(&once);
    assert_eq!(twice, "");
}

#[test]
fn live_filter_restarts_on_repeated_angle_bracket() {
    let mut filter = ThinkFilter::new();
    let mut echoed = String::new();
    echoed.push_str(&filter.feed("<<think>x</think>y"));
    echoed.push_str(&filter.finish());
    assert_eq!(echoed, "<y");
}

#[test]
fn live_filter_recovers_a_tag_after_a_false_start() {
    let mut filter = ThinkFilter::new();
    let mut echoed = String::new();
    echoed.push_str(&filter.feed("a<th<think>x</think>b"));
    echoed.push_str(&filter.finish());
    assert_eq!(echoed, "a<thb");
}

#[test]
fn live_filter_close_tag_in_normal_mode_passes_through() {
    let mut filter = ThinkFilter::new();
    let mut echoed = String::new();
    echoed.push_str(&filter.feed("plain </think> text"));
    echoed.push_str(&filter.finish());
    assert_eq!(echoed, "plain </think> text");
}
