//! Prompt handling: assembling the final prompt text from its labeled
//! sections, resolving the model, deciding what one reasoning call sends,
//! filtering the answer, and rendering the session log entries. The
//! network call itself and the log file are outside work.
use vstd::prelude::*;

use crate::api::{ApiClient, ApiError, create_api_client_from_config, known_provider, selected_for};
use crate::config::{Config, provider_index_from, lemma_provider_index_properties};
use crate::json::{dec_seq, escape_json, escape_seq, u64_dec};
use crate::settings::Settings;
use crate::text::string_of;
use crate::think::{remove_think, remove_think_text};

verus! {

/// The assembled prompt: the three labeled sections on their own lines,
/// and the context line only when a context is given.
pub open spec fn formatted_prompt(
    goals: Seq<char>,
    return_type: Seq<char>,
    warnings: Seq<char>,
    context: Option<Seq<char>>,
    goals_prefix: Seq<char>,
    return_format_prefix: Seq<char>,
    warnings_prefix: Seq<char>,
) -> Seq<char> {
    let base = goals_prefix + goals + "\n"@ + return_format_prefix + return_type + "\n"@
        + warnings_prefix + warnings;
    match context {
        Some(c) => base + "\nContext: "@ + c,
        None => base,
    }
}

/// Assembles the prompt from goals, return format, warnings and an
/// optional context, with the labels the settings give.
pub fn format_prompt(
    goals: &str,
    return_type: &str,
    warnings: &str,
    context: Option<&str>,
    template: &crate::settings::PromptTemplate,
) -> (r: String)
    ensures
        r@ == formatted_prompt(
            goals@,
            return_type@,
            warnings@,
            context.deep_view(),
            template.goals_prefix@,
            template.return_format_prefix@,
            template.warnings_prefix@,
        ),
{
    let mut out = string_of(template.goals_prefix.as_str());
    out.append(goals);
    out.append("\n");
    out.append(template.return_format_prefix.as_str());
    out.append(return_type);
    out.append("\n");
    out.append(template.warnings_prefix.as_str());
    out.append(warnings);
    match context {
        Some(c) => {
            out.append("\nContext: ");
            out.append(c);
        },
        None => {},
    }
    out
}

/// The input with the hints block appended, when there are hints.
pub open spec fn with_hints(input: Seq<char>, hints: Seq<char>) -> Seq<char> {
    if hints.len() == 0 {
        input
    } else {
        input + "\nHINTS: "@ + hints
    }
}

/// Appends the hints block to the input, when there are hints.
pub fn append_hints(input: &mut String, hints: &str)
    ensures
        final(input)@ == with_hints(old(input)@, hints@),
{
    if !hints.is_empty() {
        input.append("\nHINTS: ");
        input.append(hints);
    }
}

/// The raw prompt of the direct mode, with its optional context line.
pub open spec fn non_think_input(prompt: Seq<char>, context: Option<Seq<char>>) -> Seq<char> {
    match context {
        Some(c) => prompt + "\nContext: "@ + c,
        None => prompt,
    }
}

/// The model one call uses: the provider entry's, or the settings
/// default.
pub open spec fn resolved_model(entry_model: Option<String>, default_model: Seq<char>)
    -> Seq<char> {
    match entry_model {
        Some(m) => m@,
        None => default_model,
    }
}

/// What one reasoning call is to send: the client to send through, the
/// assembled prompt, and the model to name.
#[derive(Debug)]
pub struct ReasoningPlan {
    pub client: ApiClient,
    pub prompt: String,
    pub model: String,
}

/// Decides what a structured-reasoning call sends: the prompt assembled
/// from the labeled sections plus the hints block, the configured
/// client, and the model of the provider entry or the settings default.
/// Fails exactly when no usable provider is configured.
pub fn structure_reasoning(
    config: &Config,
    settings: &Settings,
    goals: &str,
    return_type: &str,
    warnings: &str,
    context: Option<&str>,
    hints: &str,
) -> (r: Result<ReasoningPlan, ApiError>)
    ensures
        match provider_index_from(config.providers@, config.active_provider@, 0) {
            None => r matches Err(ApiError::NotConfigured),
            Some(i) => ({
                let pc = config.providers@[i];
                if known_provider(pc.provider@) {
                    r is Ok && selected_for(pc, r->Ok_0.client)
                        && r->Ok_0.prompt@ == with_hints(
                            formatted_prompt(
                                goals@,
                                return_type@,
                                warnings@,
                                context.deep_view(),
                                settings.prompt_template.goals_prefix@,
                                settings.prompt_template.return_format_prefix@,
                                settings.prompt_template.warnings_prefix@,
                            ),
                            hints@,
                        )
                        && r->Ok_0.model@ == resolved_model(
                            pc.model,
                            settings.default_model@,
                        )
                } else {
                    r matches Err(ApiError::UnsupportedProvider { name })
                        && name@ == pc.provider@
                }
            }),
        },
{
    proof {
        lemma_provider_index_properties(config.providers@, config.active_provider@, 0);
    }
    let mut input_data = format_prompt(goals, return_type, warnings, context,
        &settings.prompt_template);
    append_hints(&mut input_data, hints);
    let client = match create_api_client_from_config(config) {
        Ok(c) => c,
        Err(e) => {
            return Err(e);
        },
    };
    let model = match config.get_active_provider() {
        Some(pc) => match &pc.model {
            Some(m) => string_of(m.as_str()),
            None => string_of(settings.default_model.as_str()),
        },
        None => {
            return Err(ApiError::NotConfigured);
        },
    };
    Ok(ReasoningPlan { client, prompt: input_data, model })
}

/// Decides what a direct (non-structured) call sends: the raw prompt
/// with its context line and the hints block, as `structure_reasoning`.
pub fn stream_non_think(
    config: &Config,
    settings: &Settings,
    prompt: &str,
    context: Option<&str>,
    hints: &str,
) -> (r: Result<ReasoningPlan, ApiError>)
    ensures
        match provider_index_from(config.providers@, config.active_provider@, 0) {
            None => r matches Err(ApiError::NotConfigured),
            Some(i) => ({
                let pc = config.providers@[i];
                if known_provider(pc.provider@) {
                    r is Ok && selected_for(pc, r->Ok_0.client)
                        && r->Ok_0.prompt@ == with_hints(
                            non_think_input(prompt@, context.deep_view()),
                            hints@,
                        )
                        && r->Ok_0.model@ == resolved_model(
                            pc.model,
                            settings.default_model@,
                        )
                } else {
                    r matches Err(ApiError::UnsupportedProvider { name })
                        && name@ == pc.provider@
                }
            }),
        },
{
    proof {
        lemma_provider_index_properties(config.providers@, config.active_provider@, 0);
    }
    let mut input_data = string_of(prompt);
    match context {
        Some(c) => {
            input_data.append("\nContext: ");
            input_data.append(c);
        },
        None => {},
    }
    append_hints(&mut input_data, hints);
    let client = match create_api_client_from_config(config) {
        Ok(c) => c,
        Err(e) => {
            return Err(e);
        },
    };
    let model = match config.get_active_provider() {
        Some(pc) => match &pc.model {
            Some(m) => string_of(m.as_str()),
            None => string_of(settings.default_model.as_str()),
        },
        None => {
            return Err(ApiError::NotConfigured);
        },
    };
    Ok(ReasoningPlan { client, prompt: input_data, model })
}

/// What the caller keeps of a finished call: the accumulated response,
/// after the requested filtering, is what clipboard and log see.
pub fn filtered_response(response: &str, filter_thinking: bool) -> (r: String)
    ensures
        filter_thinking ==> r@ == remove_think(response@),
        !filter_thinking ==> r@ == response@,
{
    if filter_thinking {
        remove_think_text(response)
    } else {
        string_of(response)
    }
}

/// The outcome of one mocked call, used by the test paths.
#[derive(Debug)]
pub struct PromptResult {
    pub content: String,
    pub model: String,
}

/// The canned reply the mocked provider path gives.
pub open spec fn mocked_content(provider: Seq<char>) -> Seq<char> {
    "This is a mocked response from the "@ + provider + " API."@
}

/// The test path of a structured-reasoning call: no network, a canned
/// reply naming the provider, the model resolved as the real path
/// resolves it. Fails exactly when no provider entry matches the active
/// name.
pub fn structure_reasoning_test(
    config: &Config,
    settings: &Settings,
    goals: &str,
    return_type: &str,
    warnings: &str,
    clipboard: bool,
    context: Option<&str>,
    no_thinking: bool,
) -> (r: Result<PromptResult, ApiError>)
    ensures
        match provider_index_from(config.providers@, config.active_provider@, 0) {
            None => r matches Err(ApiError::NotConfigured),
            Some(i) => r is Ok
                && r->Ok_0.content@ == mocked_content(config.providers@[i].provider@)
                && r->Ok_0.model@ == resolved_model(
                    config.providers@[i].model,
                    settings.default_model@,
                ),
        },
{
    proof {
        lemma_provider_index_properties(config.providers@, config.active_provider@, 0);
    }
    match config.get_active_provider() {
        None => Err(ApiError::NotConfigured),
        Some(pc) => {
            let mut content = string_of("This is a mocked response from the ");
            content.append(pc.provider.as_str());
            content.append(" API.");
            let model = match &pc.model {
                Some(m) => string_of(m.as_str()),
                None => string_of(settings.default_model.as_str()),
            };
            Ok(PromptResult { content, model })
        },
    }
}

/// The test path of a direct call, as `structure_reasoning_test`.
pub fn stream_non_think_test(
    config: &Config,
    settings: &Settings,
    prompt: &str,
    clipboard: bool,
    context: Option<&str>,
    filter_thinking: bool,
) -> (r: Result<PromptResult, ApiError>)
    ensures
        match provider_index_from(config.providers@, config.active_provider@, 0) {
            None => r matches Err(ApiError::NotConfigured),
            Some(i) => r is Ok
                && r->Ok_0.content@ == mocked_content(config.providers@[i].provider@)
                && r->Ok_0.model@ == resolved_model(
                    config.providers@[i].model,
                    settings.default_model@,
                ),
        },
{
    proof {
        lemma_provider_index_properties(config.providers@, config.active_provider@, 0);
    }
    match config.get_active_provider() {
        None => Err(ApiError::NotConfigured),
        Some(pc) => {
            let mut content = string_of("This is a mocked response from the ");
            content.append(pc.provider.as_str());
            content.append(" API.");
            let model = match &pc.model {
                Some(m) => string_of(m.as_str()),
                None => string_of(settings.default_model.as_str()),
            };
            Ok(PromptResult { content, model })
        },
    }
}

/// The parts of a prompt joined on single line feeds.
pub open spec fn joined_lines(parts: Seq<Seq<char>>) -> Seq<char>
    decreases parts.len(),
{
    if parts.len() == 0 {
        Seq::empty()
    } else if parts.len() == 1 {
        parts[0]
    } else {
        joined_lines(parts.drop_last()) + "\n"@ + parts.last()
    }
}

/// Appends one part, for building a prompt line list.
fn push_part(parts: &mut Vec<String>, s: String)
    ensures
        final(parts).deep_view() == old(parts).deep_view().push(s@),
{
    let ghost pre = parts.deep_view();
    parts.push(s);
    proof {
        assert(parts.deep_view() =~= pre.push(s@));
    }
}

/// Joins prompt parts on line feeds.
pub fn join_lines(parts: &Vec<String>) -> (r: String)
    ensures
        r@ == joined_lines(parts.deep_view()),
{
    let mut out = String::new();
    let mut i: usize = 0;
    proof {
        assert(parts.deep_view().subrange(0, 0) =~= Seq::<Seq<char>>::empty());
    }
    while i < parts.len()
        invariant
            i <= parts.len(),
            parts.deep_view().len() == parts.len(),
            forall|k: int| 0 <= k < parts.len() ==> parts.deep_view()[k] == parts[k]@,
            out@ == joined_lines(parts.deep_view().subrange(0, i as int)),
        decreases parts.len() - i,
    {
        if i > 0 {
            out.append("\n");
        }
        out.append(parts[i].as_str());
        proof {
            let dv = parts.deep_view();
            assert(dv.subrange(0, i + 1).drop_last() =~= dv.subrange(0, i as int));
            assert(dv.subrange(0, i + 1).last() == parts[i as int]@);
            if i == 0 {
                assert(dv.subrange(0, 1)[0] == parts[0int]@);
            }
        }
        i += 1;
    }
    proof {
        assert(parts.deep_view().subrange(0, parts.len() as int) =~= parts.deep_view());
    }
    out
}

/// One numbered list line: the 1-based position, a dot, the text.
pub open spec fn numbered_line(order: u32, text: Seq<char>) -> Seq<char> {
    dec_seq((order + 1) as nat) + ". "@ + text
}

/// The numbered goal lines, in order.
pub open spec fn goal_lines(goals: Seq<crate::models::Goal>) -> Seq<Seq<char>>
    decreases goals.len(),
{
    if goals.len() == 0 {
        Seq::empty()
    } else {
        goal_lines(goals.drop_last()).push(
            numbered_line(goals.last().order, goals.last().text@),
        )
    }
}

/// The numbered context lines, in order.
pub open spec fn context_lines(contexts: Seq<crate::models::Context>) -> Seq<Seq<char>>
    decreases contexts.len(),
{
    if contexts.len() == 0 {
        Seq::empty()
    } else {
        context_lines(contexts.drop_last()).push(
            numbered_line(contexts.last().order, contexts.last().text@),
        )
    }
}

/// How many bytes one character takes in UTF-8.
pub open spec fn char_utf8_len(c: char) -> int {
    if (c as u32) < 0x80 {
        1
    } else if (c as u32) < 0x800 {
        2
    } else if (c as u32) < 0x10000 {
        3
    } else {
        4
    }
}

/// How many bytes a text takes in UTF-8.
pub open spec fn utf8_len(s: Seq<char>) -> int
    decreases s.len(),
{
    if s.len() == 0 {
        0
    } else {
        char_utf8_len(s[0]) + utf8_len(s.subrange(1, s.len() as int))
    }
}

/// A text takes at least one byte per character.
pub proof fn lemma_utf8_len_at_least(s: Seq<char>)
    ensures
        utf8_len(s) >= s.len(),
    decreases s.len(),
{
    if s.len() > 0 {
        lemma_utf8_len_at_least(s.subrange(1, s.len() as int));
    }
}

/// How many leading characters fit a byte budget.
pub open spec fn fitting_prefix_len(s: Seq<char>, budget: int) -> int
    decreases s.len(),
{
    if s.len() == 0 || char_utf8_len(s[0]) > budget {
        0
    } else {
        1 + fitting_prefix_len(s.subrange(1, s.len() as int), budget - char_utf8_len(s[0]))
    }
}

/// The byte ceiling for one embedded file.
pub open spec fn file_byte_ceiling() -> int {
    10000
}

/// How one file's content appears in the prompt: whole when it fits the
/// byte ceiling, else the longest fitting prefix with a truncation notice
/// naming the stored size.
pub open spec fn rendered_file_text(t: Seq<char>, size: u64) -> Seq<char> {
    if utf8_len(t) > file_byte_ceiling() {
        t.subrange(0, fitting_prefix_len(t, file_byte_ceiling()))
            + "...\n[Content truncated - file is "@ + dec_seq(size as nat) + " bytes]"@
    } else {
        t
    }
}

/// How many bytes one character takes in UTF-8.
fn char_byte_len(c: char) -> (r: u32)
    ensures
        r == char_utf8_len(c),
{
    let code = c as u32;
    if code < 0x80 {
        1
    } else if code < 0x800 {
        2
    } else if code < 0x10000 {
        3
    } else {
        4
    }
}

/// Scans a text against the byte ceiling: how many leading characters
/// fit, and whether the whole text is over the ceiling.
fn scan_byte_budget(t: &str) -> (r: (usize, bool))
    ensures
        r.0 == fitting_prefix_len(t@, file_byte_ceiling()),
        r.1 == (utf8_len(t@) > file_byte_ceiling()),
        r.0 <= t@.len(),
{
    let len = t.unicode_len();
    let mut i: usize = 0;
    let mut used: u32 = 0;
    proof {
        assert(t@.subrange(0, len as int) =~= t@);
    }
    while i < len
        invariant
            i <= len,
            len == t@.len(),
            used <= 10000,
            utf8_len(t@) == used + utf8_len(t@.subrange(i as int, len as int)),
            fitting_prefix_len(t@, file_byte_ceiling()) == i + fitting_prefix_len(
                t@.subrange(i as int, len as int),
                file_byte_ceiling() - used,
            ),
        decreases len - i,
    {
        let c = t.get_char(i);
        let cl = char_byte_len(c);
        let ghost tail = t@.subrange(i as int, len as int);
        proof {
            assert(tail[0] == t@[i as int]);
            assert(tail.subrange(1, tail.len() as int) =~= t@.subrange(i + 1, len as int));
        }
        if used + cl > 10000 {
            proof {
                assert(fitting_prefix_len(tail, file_byte_ceiling() - used) == 0);
                lemma_utf8_len_at_least(t@.subrange(i + 1, len as int));
                assert(utf8_len(tail) >= char_utf8_len(t@[i as int]));
            }
            return (i, true);
        }
        used = used + cl;
        i += 1;
    }
    proof {
        assert(t@.subrange(i as int, len as int) =~= Seq::<char>::empty());
    }
    (i, false)
}

/// Renders one file's content for the prompt, honoring the byte ceiling.
pub fn render_file_text(t: &str, size: u64) -> (r: String)
    ensures
        r@ == rendered_file_text(t@, size),
{
    let (fit, over) = scan_byte_budget(t);
    if over {
        let mut out = string_of(t.substring_char(0, fit));
        out.append("...\n[Content truncated - file is ");
        let rendered_size = u64_dec(size);
        out.append(rendered_size.as_str());
        out.append(" bytes]");
        out
    } else {
        string_of(t)
    }
}

/// What the store gave for one project file's text.
#[derive(Debug)]
pub enum FileText {
    /// The stored bytes rendered as text.
    Content(String),
    /// The file is listed but not on disk.
    Missing,
    /// Reading failed; the error's description.
    Unreadable(String),
}

/// The prompt lines of one project file: its header, its content or the
/// marker that stands in for it, and a blank separator.
pub open spec fn file_entry_lines(f: crate::models::ProjectFile, t: FileText) -> Seq<Seq<char>> {
    seq!["### File: "@ + f.filename@] + (match t {
        FileText::Content(c) => seq!["```"@, rendered_file_text(c@, f.size), "```"@],
        FileText::Missing => seq!["[File not found]"@],
        FileText::Unreadable(e) => seq!["[Error reading file: "@ + e@ + "]"@],
    }) + seq![""@]
}

/// The prompt lines of all project files, in order, paired with what the
/// store gave for each.
pub open spec fn file_lines(files: Seq<crate::models::ProjectFile>, texts: Seq<FileText>)
    -> Seq<Seq<char>>
    decreases files.len(),
{
    if files.len() == 0 {
        Seq::empty()
    } else {
        file_lines(files.drop_last(), texts.drop_last())
            + file_entry_lines(files.last(), texts.last())
    }
}

/// All parts of a project prompt: the goals section, the context section
/// and the files section where non-empty, then the user request.
pub open spec fn project_prompt_parts(
    p: crate::models::Project,
    texts: Seq<FileText>,
    user_prompt: Option<Seq<char>>,
) -> Seq<Seq<char>> {
    let gl = if p.goals@.len() > 0 {
        seq!["## Project Goals"@] + goal_lines(p.goals@) + seq![""@]
    } else {
        Seq::<Seq<char>>::empty()
    };
    let cl = if p.contexts@.len() > 0 {
        seq!["## Context Information"@] + context_lines(p.contexts@) + seq![""@]
    } else {
        Seq::<Seq<char>>::empty()
    };
    let fl = if p.files@.len() > 0 {
        seq!["## Project Files"@] + file_lines(p.files@, texts)
    } else {
        Seq::<Seq<char>>::empty()
    };
    let base = gl + cl + fl;
    match user_prompt {
        Some(u) => base + (if base.len() > 0 {
            seq!["## User Request"@]
        } else {
            Seq::<Seq<char>>::empty()
        }) + seq![u],
        None => base,
    }
}

/// Builds the project prompt: the project's goals, contexts and files as
/// labeled sections, each file's text fenced and capped at the byte
/// ceiling, then the user request. `file_texts` pairs with the project's
/// files, in order.
pub fn build_project_prompt(
    project: &crate::models::Project,
    file_texts: &Vec<FileText>,
    user_prompt: Option<&str>,
) -> (r: String)
    requires
        file_texts@.len() == project.files@.len(),
    ensures
        r@ == joined_lines(project_prompt_parts(*project, file_texts@, user_prompt.deep_view())),
{
    let mut parts: Vec<String> = Vec::new();
    let ghost gl = if project.goals@.len() > 0 {
        seq!["## Project Goals"@] + goal_lines(project.goals@) + seq![""@]
    } else {
        Seq::<Seq<char>>::empty()
    };
    proof {
        assert(parts.deep_view() =~= Seq::<Seq<char>>::empty());
    }
    if project.goals.len() > 0 {
        push_part(&mut parts, string_of("## Project Goals"));
        let mut i: usize = 0;
        proof {
            assert(goal_lines(project.goals@.subrange(0, 0)) =~= Seq::<Seq<char>>::empty());
            assert(parts.deep_view() =~= seq!["## Project Goals"@]
                + goal_lines(project.goals@.subrange(0, 0)));
        }
        while i < project.goals.len()
            invariant
                i <= project.goals@.len(),
                parts.deep_view() =~= seq!["## Project Goals"@]
                    + goal_lines(project.goals@.subrange(0, i as int)),
            decreases project.goals@.len() - i,
        {
            let g = &project.goals[i];
            let mut line = u64_dec((g.order as u64) + 1);
            line.append(". ");
            line.append(g.text.as_str());
            push_part(&mut parts, line);
            proof {
                let gs = project.goals@;
                assert(gs.subrange(0, i + 1).drop_last() =~= gs.subrange(0, i as int));
                assert(gs.subrange(0, i + 1).last() == gs[i as int]);
            }
            i += 1;
        }
        push_part(&mut parts, String::new());
        proof {
            assert(project.goals@.subrange(0, project.goals@.len() as int) =~= project.goals@);
            reveal_strlit("");
            assert(""@ =~= Seq::<char>::empty());
            assert(parts.deep_view() =~= gl);
        }
    }
    let ghost cl = if project.contexts@.len() > 0 {
        seq!["## Context Information"@] + context_lines(project.contexts@) + seq![""@]
    } else {
        Seq::<Seq<char>>::empty()
    };
    let ghost after_goals = parts.deep_view();
    proof {
        assert(after_goals =~= gl);
    }
    if project.contexts.len() > 0 {
        push_part(&mut parts, string_of("## Context Information"));
        let mut i: usize = 0;
        proof {
            assert(context_lines(project.contexts@.subrange(0, 0)) =~= Seq::<Seq<char>>::empty());
            assert(parts.deep_view() =~= gl + seq!["## Context Information"@]
                + context_lines(project.contexts@.subrange(0, 0)));
        }
        while i < project.contexts.len()
            invariant
                i <= project.contexts@.len(),
                parts.deep_view() =~= gl + seq!["## Context Information"@]
                    + context_lines(project.contexts@.subrange(0, i as int)),
            decreases project.contexts@.len() - i,
        {
            let c = &project.contexts[i];
            let mut line = u64_dec((c.order as u64) + 1);
            line.append(". ");
            line.append(c.text.as_str());
            push_part(&mut parts, line);
            proof {
                let cs = project.contexts@;
                assert(cs.subrange(0, i + 1).drop_last() =~= cs.subrange(0, i as int));
                assert(cs.subrange(0, i + 1).last() == cs[i as int]);
            }
            i += 1;
        }
        push_part(&mut parts, String::new());
        proof {
            assert(project.contexts@.subrange(0, project.contexts@.len() as int)
                =~= project.contexts@);
            reveal_strlit("");
            assert(""@ =~= Seq::<char>::empty());
            assert(parts.deep_view() =~= gl + cl);
        }
    }
    let ghost after_contexts = parts.deep_view();
    proof {
        assert(after_contexts =~= gl + cl);
    }
    if project.files.len() > 0 {
        push_part(&mut parts, string_of("## Project Files"));
        let mut i: usize = 0;
        proof {
            assert(file_lines(project.files@.subrange(0, 0), file_texts@.subrange(0, 0))
                =~= Seq::<Seq<char>>::empty());
            assert(parts.deep_view() =~= gl + cl + seq!["## Project Files"@]
                + file_lines(project.files@.subrange(0, 0), file_texts@.subrange(0, 0)));
        }
        while i < project.files.len()
            invariant
                i <= project.files@.len(),
                file_texts@.len() == project.files@.len(),
                parts.deep_view() =~= gl + cl + seq!["## Project Files"@]
                    + file_lines(project.files@.subrange(0, i as int),
                        file_texts@.subrange(0, i as int)),
            decreases project.files@.len() - i,
    {
            let f = &project.files[i];
            let mut header = string_of("### File: ");
            header.append(f.filename.as_str());
            push_part(&mut parts, header);
            match &file_texts[i] {
                FileText::Content(c) => {
                    push_part(&mut parts, string_of("```"));
                    push_part(&mut parts, render_file_text(c.as_str(), f.size));
                    push_part(&mut parts, string_of("```"));
                },
                FileText::Missing => {
                    push_part(&mut parts, string_of("[File not found]"));
                },
                FileText::Unreadable(e) => {
                    let mut line = string_of("[Error reading file: ");
                    line.append(e.as_str());
                    line.append("]");
                    push_part(&mut parts, line);
                },
            }
            push_part(&mut parts, String::new());
            proof {
                let fs = project.files@;
                let ts = file_texts@;
                assert(fs.subrange(0, i + 1).drop_last() =~= fs.subrange(0, i as int));
                assert(fs.subrange(0, i + 1).last() == fs[i as int]);
                assert(ts.subrange(0, i + 1).drop_last() =~= ts.subrange(0, i as int));
                assert(ts.subrange(0, i + 1).last() == ts[i as int]);
                reveal_strlit("");
                assert(""@ =~= Seq::<char>::empty());
                assert(parts.deep_view() =~= gl + cl + seq!["## Project Files"@]
                    + file_lines(fs.subrange(0, i + 1), ts.subrange(0, i + 1)));
            }
            i += 1;
        }
        proof {
            assert(project.files@.subrange(0, project.files@.len() as int) =~= project.files@);
            assert(file_texts@.subrange(0, file_texts@.len() as int) =~= file_texts@);
        }
    }
    let ghost fl = if project.files@.len() > 0 {
        seq!["## Project Files"@] + file_lines(project.files@, file_texts@)
    } else {
        Seq::<Seq<char>>::empty()
    };
    let ghost base = gl + cl + fl;
    proof {
        assert(parts.deep_view() =~= base);
    }
    match user_prompt {
        Some(u) => {
            if parts.len() > 0 {
                push_part(&mut parts, string_of("## User Request"));
            }
            push_part(&mut parts, string_of(u));
            proof {
                if base.len() > 0 {
                    assert(parts.deep_view() =~= base + seq!["## User Request"@] + seq![u@]);
                } else {
                    assert(parts.deep_view() =~= base + Seq::<Seq<char>>::empty() + seq![u@]);
                }
                assert(parts.deep_view()
                    =~= project_prompt_parts(*project, file_texts@, user_prompt.deep_view()));
            }
        },
        None => {
            proof {
                assert(parts.deep_view()
                    =~= project_prompt_parts(*project, file_texts@, user_prompt.deep_view()));
            }
        },
    }
    join_lines(&parts)
}

/// The enhanced prompt of a project run: the project prompt with the
/// user's goals as request, and the extra context after it.
pub open spec fn enhanced_project_prompt(
    p: crate::models::Project,
    texts: Seq<FileText>,
    goals: Seq<char>,
    context: Option<Seq<char>>,
) -> Seq<char> {
    let base = joined_lines(project_prompt_parts(p, texts, Some(goals)));
    match context {
        Some(c) => base + "\n\nAdditional Context: "@ + c,
        None => base,
    }
}

/// Decides what a project run sends: the project prompt built around the
/// goals, the extra context appended, the whole put through the labeled
/// sections and the hints block; client and model as
/// `structure_reasoning`.
pub fn structure_reasoning_with_project(
    config: &Config,
    settings: &Settings,
    project: &crate::models::Project,
    file_texts: &Vec<FileText>,
    goals: &str,
    return_type: &str,
    warnings: &str,
    context: Option<&str>,
    hints: &str,
) -> (r: Result<ReasoningPlan, ApiError>)
    requires
        file_texts@.len() == project.files@.len(),
    ensures
        match provider_index_from(config.providers@, config.active_provider@, 0) {
            None => r matches Err(ApiError::NotConfigured),
            Some(i) => ({
                let pc = config.providers@[i];
                if known_provider(pc.provider@) {
                    r is Ok && selected_for(pc, r->Ok_0.client)
                        && r->Ok_0.prompt@ == with_hints(
                            formatted_prompt(
                                enhanced_project_prompt(
                                    *project,
                                    file_texts@,
                                    goals@,
                                    context.deep_view(),
                                ),
                                return_type@,
                                warnings@,
                                None,
                                settings.prompt_template.goals_prefix@,
                                settings.prompt_template.return_format_prefix@,
                                settings.prompt_template.warnings_prefix@,
                            ),
                            hints@,
                        )
                        && r->Ok_0.model@ == resolved_model(
                            pc.model,
                            settings.default_model@,
                        )
                } else {
                    r matches Err(ApiError::UnsupportedProvider { name })
                        && name@ == pc.provider@
                }
            }),
        },
{
    proof {
        lemma_provider_index_properties(config.providers@, config.active_provider@, 0);
    }
    let mut enhanced = build_project_prompt(project, file_texts, Some(goals));
    match context {
        Some(c) => {
            enhanced.append("\n\nAdditional Context: ");
            enhanced.append(c);
        },
        None => {},
    }
    let mut input_data = format_prompt(enhanced.as_str(), return_type, warnings, None,
        &settings.prompt_template);
    append_hints(&mut input_data, hints);
    let client = match create_api_client_from_config(config) {
        Ok(c) => c,
        Err(e) => {
            return Err(e);
        },
    };
    let model = match config.get_active_provider() {
        Some(pc) => match &pc.model {
            Some(m) => string_of(m.as_str()),
            None => string_of(settings.default_model.as_str()),
        },
        None => {
            return Err(ApiError::NotConfigured);
        },
    };
    Ok(ReasoningPlan { client, prompt: input_data, model })
}

/// One structured-session log line: the labeled fields in order, the
/// response length in characters, and the recursion wave only when one is
/// set.
pub open spec fn session_log_entry_spec(
    timestamp: Seq<char>,
    goals: Seq<char>,
    return_format: Seq<char>,
    warnings: Seq<char>,
    model: Seq<char>,
    output_length: nat,
    wave: Option<u8>,
) -> Seq<char> {
    "{\"timestamp\":\""@ + escape_seq(timestamp) + "\",\"goals\":\""@ + escape_seq(goals)
        + "\",\"return_format\":\""@ + escape_seq(return_format) + "\",\"warnings\":\""@
        + escape_seq(warnings) + "\",\"model\":\""@ + escape_seq(model)
        + "\",\"output_length\":"@ + dec_seq(output_length) + (match wave {
        Some(w) => ",\"recursion_wave\":"@ + dec_seq(w as nat),
        None => Seq::<char>::empty(),
    }) + "}"@
}

/// Renders one structured-session log line.
pub fn session_log_entry(
    timestamp: &str,
    goals: &str,
    return_format: &str,
    warnings: &str,
    model: &str,
    output_length: u64,
    wave: Option<u8>,
) -> (r: String)
    ensures
        r@ == session_log_entry_spec(
            timestamp@,
            goals@,
            return_format@,
            warnings@,
            model@,
            output_length as nat,
            wave,
        ),
{
    let mut out = string_of("{\"timestamp\":\"");
    let piece = escape_json(timestamp);
    out.append(piece.as_str());
    out.append("\",\"goals\":\"");
    let piece = escape_json(goals);
    out.append(piece.as_str());
    out.append("\",\"return_format\":\"");
    let piece = escape_json(return_format);
    out.append(piece.as_str());
    out.append("\",\"warnings\":\"");
    let piece = escape_json(warnings);
    out.append(piece.as_str());
    out.append("\",\"model\":\"");
    let piece = escape_json(model);
    out.append(piece.as_str());
    out.append("\",\"output_length\":");
    let piece = u64_dec(output_length);
    out.append(piece.as_str());
    match wave {
        Some(w) => {
            out.append(",\"recursion_wave\":");
            let piece = u64_dec(w as u64);
            out.append(piece.as_str());
        },
        None => {},
    }
    out.append("}");
    out
}

/// One direct-call log line: timestamp, prompt, model, response length.
pub open spec fn non_think_log_entry_spec(
    timestamp: Seq<char>,
    prompt: Seq<char>,
    model: Seq<char>,
    output_length: nat,
) -> Seq<char> {
    "{\"timestamp\":\""@ + escape_seq(timestamp) + "\",\"prompt\":\""@ + escape_seq(prompt)
        + "\",\"model\":\""@ + escape_seq(model) + "\",\"output_length\":"@
        + dec_seq(output_length) + "}"@
}

/// Renders one direct-call log line.
pub fn non_think_log_entry(
    timestamp: &str,
    prompt: &str,
    model: &str,
    output_length: u64,
) -> (r: String)
    ensures
        r@ == non_think_log_entry_spec(timestamp@, prompt@, model@, output_length as nat),
{
    let mut out = string_of("{\"timestamp\":\"");
    let piece = escape_json(timestamp);
    out.append(piece.as_str());
    out.append("\",\"prompt\":\"");
    let piece = escape_json(prompt);
    out.append(piece.as_str());
    out.append("\",\"model\":\"");
    let piece = escape_json(model);
    out.append(piece.as_str());
    out.append("\",\"output_length\":");
    let piece = u64_dec(output_length);
    out.append(piece.as_str());
    out.append("}");
    out
}

/// One session-command log line: the given fields with the piped input
/// and the produced output.
pub open spec fn session_command_log_entry_spec(
    timestamp: Seq<char>,
    goals: Seq<char>,
    return_format: Seq<char>,
    warnings: Seq<char>,
    input: Seq<char>,
    output: Seq<char>,
) -> Seq<char> {
    "{\"timestamp\":\""@ + escape_seq(timestamp) + "\",\"goals\":\""@ + escape_seq(goals)
        + "\",\"return_format\":\""@ + escape_seq(return_format) + "\",\"warnings\":\""@
        + escape_seq(warnings) + "\",\"input\":\""@ + escape_seq(input) + "\",\"output\":\""@
        + escape_seq(output) + "\"}"@
}

/// Renders one session-command log line.
pub fn session_command_log_entry(
    timestamp: &str,
    goals: &str,
    return_format: &str,
    warnings: &str,
    input: &str,
    output: &str,
) -> (r: String)
    ensures
        r@ == session_command_log_entry_spec(
            timestamp@,
            goals@,
            return_format@,
            warnings@,
            input@,
            output@,
        ),
{
    let mut out = string_of("{\"timestamp\":\"");
    let piece = escape_json(timestamp);
    out.append(piece.as_str());
    out.append("\",\"goals\":\"");
    let piece = escape_json(goals);
    out.append(piece.as_str());
    out.append("\",\"return_format\":\"");
    let piece = escape_json(return_format);
    out.append(piece.as_str());
    out.append("\",\"warnings\":\"");
    let piece = escape_json(warnings);
    out.append(piece.as_str());
    out.append("\",\"input\":\"");
    let piece = escape_json(input);
    out.append(piece.as_str());
    out.append("\",\"output\":\"");
    let piece = escape_json(output);
    out.append(piece.as_str());
    out.append("\"}");
    out
}

} // verus!
