//! Project storage rules: where a project's pieces live under the base
//! directory, how stored bytes are rendered as text, which MIME type a
//! file name suggests, and how projects are found and listed. The disk
//! itself is outside work.
use vstd::prelude::*;

use base64::Engine;
use vstd::multiset::Multiset;
use crate::models::Project;
use crate::text::{ascii_lower_seq, eq_ignore_ascii_case_str, string_of};

verus! {

/// What decoding bytes as UTF-8 yields: the text exactly when the bytes
/// are valid UTF-8.
pub uninterp spec fn utf8_of(bytes: Seq<u8>) -> Option<Seq<char>>;

/// What the standard base64 alphabet with padding encodes bytes to.
pub uninterp spec fn base64_of(bytes: Seq<u8>) -> Seq<char>;

/// Relies on String::from_utf8: `Some` with the decoded text exactly when
/// the bytes are valid UTF-8. The result depends on the bytes alone.
#[verifier::external_body]
fn utf8_text(bytes: &Vec<u8>) -> (r: Option<String>)
    ensures
        r.deep_view() == utf8_of(bytes@),
{
    String::from_utf8(bytes.clone()).ok()
}

/// Relies on base64's standard engine: the padded standard-alphabet
/// encoding of the bytes. The result depends on the bytes alone. The
/// length bound keeps the engine's buffer arithmetic from overflowing.
#[verifier::external_body]
fn base64_text(bytes: &Vec<u8>) -> (r: String)
    requires
        bytes@.len() * 4 <= usize::MAX as int * 3,
    ensures
        r@ == base64_of(bytes@),
{
    base64::engine::general_purpose::STANDARD.encode(bytes)
}

/// The text a stored file is rendered as: its UTF-8 decoding, or a marker
/// holding the base64 form when the bytes are not valid UTF-8.
pub open spec fn file_text_spec(bytes: Seq<u8>) -> Seq<char> {
    match utf8_of(bytes) {
        Some(t) => t,
        None => "[Binary file - base64 encoded: "@ + base64_of(bytes) + "]"@,
    }
}

/// Renders stored file bytes as text, for embedding in a prompt.
pub fn text_of_file_bytes(content: &Vec<u8>) -> (r: String)
    requires
        content@.len() * 4 <= usize::MAX as int * 3,
    ensures
        r@ == file_text_spec(content@),
{
    match utf8_text(content) {
        Some(t) => t,
        None => {
            let mut out = string_of("[Binary file - base64 encoded: ");
            let encoded = base64_text(content);
            out.append(encoded.as_str());
            out.append("]");
            out
        },
    }
}

/// A found last dot is in range and really is a dot, with none after it.
proof fn lemma_last_dot_properties(name: Seq<char>, upto: int)
    requires
        upto < name.len(),
    ensures
        match last_dot_from(name, upto) {
            Some(i) => 0 <= i <= upto && name[i] == '.',
            None => true,
        },
    decreases upto + 1,
{
    if 0 <= upto {
        if name[upto] != '.' {
            lemma_last_dot_properties(name, upto - 1);
        }
    }
}

/// The index of the last `.` in a file name, or none.
pub open spec fn last_dot_from(name: Seq<char>, upto: int) -> Option<int>
    decreases upto + 1,
{
    if upto < 0 || upto >= name.len() {
        None
    } else if name[upto] == '.' {
        Some(upto)
    } else {
        last_dot_from(name, upto - 1)
    }
}

/// The extension of a file name: what follows the last `.`, unless the
/// name has none or starts with its only `.`.
pub open spec fn extension_of(name: Seq<char>) -> Option<Seq<char>> {
    match last_dot_from(name, name.len() - 1) {
        None => None,
        Some(i) => if i == 0 {
            None
        } else {
            Some(name.subrange(i + 1, name.len() as int))
        },
    }
}

/// The MIME type suggested by an extension, ASCII case ignored.
pub open spec fn mime_for(ext: Seq<char>) -> Seq<char> {
    let low = ascii_lower_seq(ext);
    if low == "rs"@ { "text/rust"@ }
    else if low == "py"@ { "text/python"@ }
    else if low == "js"@ { "text/javascript"@ }
    else if low == "ts"@ { "text/typescript"@ }
    else if low == "json"@ { "application/json"@ }
    else if low == "yaml"@ || low == "yml"@ { "text/yaml"@ }
    else if low == "toml"@ { "text/toml"@ }
    else if low == "md"@ { "text/markdown"@ }
    else if low == "txt"@ { "text/plain"@ }
    else if low == "html"@ { "text/html"@ }
    else if low == "css"@ { "text/css"@ }
    else { "application/octet-stream"@ }
}

/// The MIME type a file name suggests.
pub open spec fn mime_of_name(name: Seq<char>) -> Seq<char> {
    match extension_of(name) {
        Some(e) => mime_for(e),
        None => "application/octet-stream"@,
    }
}

/// Finds the last `.` of a file name.
fn find_last_dot(name: &str) -> (r: Option<usize>)
    ensures
        match r {
            Some(i) => last_dot_from(name@, name@.len() - 1) == Some(i as int),
            None => last_dot_from(name@, name@.len() - 1) is None,
        },
{
    let len = name.unicode_len();
    let mut i: usize = len;
    while i > 0
        invariant
            i <= len,
            len == name@.len(),
            last_dot_from(name@, len - 1) == last_dot_from(name@, i - 1),
        decreases i,
    {
        if name.get_char(i - 1) == '.' {
            return Some(i - 1);
        }
        i -= 1;
    }
    None
}

/// Manages the projects stored under one base directory.
pub struct ProjectManager {
    pub base_path: String,
}

impl ProjectManager {
    /// A manager over the project store below the given home directory.
    pub fn new(home: &str) -> (r: ProjectManager)
        ensures
            r.base_path@ == home@ + "/.ola/data/projects"@,
    {
        let mut p = string_of(home);
        p.append("/.ola/data/projects");
        ProjectManager { base_path: p }
    }

    /// The directory one project lives in.
    pub fn project_dir(&self, project_id: &str) -> (r: String)
        ensures
            r@ == self.base_path@ + "/"@ + project_id@,
    {
        let mut p = string_of(self.base_path.as_str());
        p.append("/");
        p.append(project_id);
        p
    }

    /// The metadata file of one project.
    pub fn project_file_path(&self, project_id: &str) -> (r: String)
        ensures
            r@ == self.base_path@ + "/"@ + project_id@ + "/project.json"@,
    {
        let mut p = self.project_dir(project_id);
        p.append("/project.json");
        p
    }

    /// The directory one project's files live in.
    pub fn files_dir(&self, project_id: &str) -> (r: String)
        ensures
            r@ == self.base_path@ + "/"@ + project_id@ + "/files"@,
    {
        let mut p = self.project_dir(project_id);
        p.append("/files");
        p
    }

    /// Where one stored file lives.
    pub fn file_path(&self, project_id: &str, file_id: &str) -> (r: String)
        ensures
            r@ == self.base_path@ + "/"@ + project_id@ + "/files/"@ + file_id@,
    {
        let mut p = self.files_dir(project_id);
        p.append("/");
        p.append(file_id);
        proof {
            reveal_strlit("/files");
            reveal_strlit("/");
            reveal_strlit("/files/");
            assert(p@ =~= self.base_path@ + "/"@ + project_id@ + "/files/"@ + file_id@);
        }
        p
    }

    /// The marker file naming the active project.
    pub fn active_project_path(home: &str) -> (r: String)
        ensures
            r@ == home@ + "/.ola/data/active_project"@,
    {
        let mut p = string_of(home);
        p.append("/.ola/data/active_project");
        p
    }

    /// The MIME type a file name suggests, by its extension.
    pub fn guess_mime_type(filename: &str) -> (r: Option<String>)
        ensures
            r is Some && r->Some_0@ == mime_of_name(filename@),
    {
        let ext: Option<&str> = match find_last_dot(filename) {
            None => None,
            Some(i) => {
                proof {
                    lemma_last_dot_properties(filename@, filename@.len() - 1);
                }
                if i == 0 {
                    None
                } else {
                    let len = filename.unicode_len();
                    Some(filename.substring_char(i + 1, len))
                }
            },
        };
        match ext {
            None => Some(string_of("application/octet-stream")),
            Some(e) => {
                proof {
                    reveal_strlit("rs"); reveal_strlit("py"); reveal_strlit("js");
                    reveal_strlit("ts"); reveal_strlit("json"); reveal_strlit("yaml");
                    reveal_strlit("yml"); reveal_strlit("toml"); reveal_strlit("md");
                    reveal_strlit("txt"); reveal_strlit("html"); reveal_strlit("css");
                    assert(ascii_lower_seq("rs"@) =~= "rs"@);
                    assert(ascii_lower_seq("py"@) =~= "py"@);
                    assert(ascii_lower_seq("js"@) =~= "js"@);
                    assert(ascii_lower_seq("ts"@) =~= "ts"@);
                    assert(ascii_lower_seq("json"@) =~= "json"@);
                    assert(ascii_lower_seq("yaml"@) =~= "yaml"@);
                    assert(ascii_lower_seq("yml"@) =~= "yml"@);
                    assert(ascii_lower_seq("toml"@) =~= "toml"@);
                    assert(ascii_lower_seq("md"@) =~= "md"@);
                    assert(ascii_lower_seq("txt"@) =~= "txt"@);
                    assert(ascii_lower_seq("html"@) =~= "html"@);
                    assert(ascii_lower_seq("css"@) =~= "css"@);
                }
                let m = if eq_ignore_ascii_case_str(e, "rs") { "text/rust" }
                    else if eq_ignore_ascii_case_str(e, "py") { "text/python" }
                    else if eq_ignore_ascii_case_str(e, "js") { "text/javascript" }
                    else if eq_ignore_ascii_case_str(e, "ts") { "text/typescript" }
                    else if eq_ignore_ascii_case_str(e, "json") { "application/json" }
                    else if eq_ignore_ascii_case_str(e, "yaml") { "text/yaml" }
                    else if eq_ignore_ascii_case_str(e, "yml") { "text/yaml" }
                    else if eq_ignore_ascii_case_str(e, "toml") { "text/toml" }
                    else if eq_ignore_ascii_case_str(e, "md") { "text/markdown" }
                    else if eq_ignore_ascii_case_str(e, "txt") { "text/plain" }
                    else if eq_ignore_ascii_case_str(e, "html") { "text/html" }
                    else if eq_ignore_ascii_case_str(e, "css") { "text/css" }
                    else { "application/octet-stream" };
                Some(string_of(m))
            },
        }
    }
}

/// The first project whose name equals `name` up to ASCII case, searching
/// from `from`.
pub open spec fn project_index_by_name_from(projects: Seq<Project>, name: Seq<char>, from: int)
    -> Option<int>
    decreases projects.len() - from + 1,
{
    if from < 0 || from >= projects.len() {
        None
    } else if ascii_lower_seq(projects[from].name@) == ascii_lower_seq(name) {
        Some(from)
    } else {
        project_index_by_name_from(projects, name, from + 1)
    }
}

/// Finds the first project whose name matches up to ASCII case.
pub fn find_project_by_name(projects: &Vec<Project>, name: &str) -> (r: Option<usize>)
    ensures
        match r {
            Some(i) => project_index_by_name_from(projects@, name@, 0) == Some(i as int)
                && i < projects@.len(),
            None => project_index_by_name_from(projects@, name@, 0) is None,
        },
{
    let mut i: usize = 0;
    let n = projects.len();
    while i < n
        invariant
            i <= n,
            n == projects@.len(),
            project_index_by_name_from(projects@, name@, 0)
                == project_index_by_name_from(projects@, name@, i as int),
        decreases n - i,
    {
        if eq_ignore_ascii_case_str(projects[i].name.as_str(), name) {
            return Some(i);
        }
        i += 1;
    }
    None
}

/// Projects stand newest first by update time.
pub open spec fn projects_newest_first(s: Seq<Project>) -> bool {
    forall|i: int, j: int| 0 <= i < j < s.len()
        ==> #[trigger] s[i].updated_at >= #[trigger] s[j].updated_at
}

/// Index of the first newest project at or after `from`.
pub open spec fn first_newest_from(s: Seq<Project>, from: int) -> int
    decreases s.len() - from,
{
    if from >= s.len() - 1 {
        from
    } else {
        let rest = first_newest_from(s, from + 1);
        if s[from].updated_at >= s[rest].updated_at {
            from
        } else {
            rest
        }
    }
}

/// The first newest index is in range, newest, and strictly newer than
/// everything before it.
proof fn lemma_first_newest(s: Seq<Project>, from: int)
    requires
        0 <= from < s.len(),
    ensures
        from <= first_newest_from(s, from) < s.len(),
        forall|k: int| from <= k < s.len()
            ==> s[first_newest_from(s, from)].updated_at >= #[trigger] s[k].updated_at,
        forall|k: int| from <= k < first_newest_from(s, from)
            ==> #[trigger] s[k].updated_at < s[first_newest_from(s, from)].updated_at,
    decreases s.len() - from,
{
    if from < s.len() - 1 {
        lemma_first_newest(s, from + 1);
    }
}

/// An index that is newest and strictly newer than everything before it
/// is the first newest index.
proof fn lemma_first_newest_unique(s: Seq<Project>, i: int)
    requires
        0 <= i < s.len(),
        forall|k: int| 0 <= k < s.len() ==> s[i].updated_at >= #[trigger] s[k].updated_at,
        forall|k: int| 0 <= k < i ==> #[trigger] s[k].updated_at < s[i].updated_at,
    ensures
        i == first_newest_from(s, 0),
{
    lemma_first_newest(s, 0);
    let r = first_newest_from(s, 0);
    if i < r {
        assert(s[i].updated_at < s[r].updated_at);
        assert(s[i].updated_at >= s[r].updated_at);
    } else if r < i {
        assert(s[r].updated_at < s[i].updated_at);
        assert(s[r].updated_at >= s[i].updated_at);
    }
}

/// The stable sort of projects, newest first: repeatedly the first
/// newest project, so that equally recent projects keep their relative
/// positions.
pub open spec fn stable_sorted_projects(s: Seq<Project>) -> Seq<Project>
    decreases s.len(),
    via stable_sorted_projects_decreases
{
    if s.len() == 0 {
        Seq::empty()
    } else {
        let m = first_newest_from(s, 0);
        seq![s[m]] + stable_sorted_projects(s.remove(m))
    }
}

#[via_fn]
proof fn stable_sorted_projects_decreases(s: Seq<Project>) {
    if s.len() > 0 {
        lemma_first_newest(s, 0);
    }
}

/// Sorts projects newest first by update time: the result is exactly the
/// stable sort, ordered and holding the given projects.
pub fn sort_projects_by_updated(input: Vec<Project>) -> (r: Vec<Project>)
    ensures
        r@ == stable_sorted_projects(input@),
        projects_newest_first(r@),
        r@.to_multiset() == input@.to_multiset(),
{
    broadcast use vstd::seq_lib::group_to_multiset_ensures;

    let ghost whole = input@;
    let mut rest = input;
    let mut out: Vec<Project> = Vec::new();
    proof {
        assert(Seq::<Project>::empty().to_multiset() =~= Multiset::<Project>::empty());
        assert(out@.to_multiset().add(rest@.to_multiset()) =~= whole.to_multiset());
    }
    while rest.len() > 0
        invariant
            out@.to_multiset().add(rest@.to_multiset()) == whole.to_multiset(),
            out@ + stable_sorted_projects(rest@) == stable_sorted_projects(whole),
            projects_newest_first(out@),
            forall|a: int, b: int| 0 <= a < out@.len() && 0 <= b < rest@.len()
                ==> #[trigger] out@[a].updated_at >= #[trigger] rest@[b].updated_at,
        decreases rest@.len(),
    {
        let mut m: usize = 0;
        let mut j: usize = 1;
        while j < rest.len()
            invariant
                j <= rest@.len(),
                m < rest@.len(),
                forall|k: int| 0 <= k < j
                    ==> rest@[m as int].updated_at >= #[trigger] rest@[k].updated_at,
                forall|k: int| 0 <= k < m
                    ==> #[trigger] rest@[k].updated_at < rest@[m as int].updated_at,
            decreases rest@.len() - j,
        {
            if rest[j].updated_at > rest[m].updated_at {
                m = j;
            }
            j += 1;
        }
        let ghost rest0 = rest@;
        let ghost out0 = out@;
        let x = rest.remove(m);
        out.push(x);
        proof {
            rest0.to_multiset_ensures();
            out0.to_multiset_ensures();
            assert(rest0.contains(rest0[m as int]));
            assert(rest@ == rest0.remove(m as int));
            assert(out@ == out0.push(x));
            assert(rest@.to_multiset() =~= rest0.to_multiset().remove(x));
            assert(out@.to_multiset() =~= out0.to_multiset().insert(x));
            assert(rest0.to_multiset().count(x) >= 1);
            assert(out@.to_multiset().add(rest@.to_multiset())
                =~= out0.to_multiset().add(rest0.to_multiset()));
            lemma_first_newest_unique(rest0, m as int);
            assert(stable_sorted_projects(rest0) == seq![x] + stable_sorted_projects(rest@));
            assert(out@ + stable_sorted_projects(rest@)
                =~= out0 + stable_sorted_projects(rest0));
            assert forall|a: int| 0 <= a < out0.len()
                implies #[trigger] out0[a].updated_at >= x.updated_at by {
                assert(out0[a].updated_at >= rest0[m as int].updated_at);
            }
            assert(projects_newest_first(out@)) by {
                assert(forall|a: int| 0 <= a < out0.len() ==> out@[a] == #[trigger] out0[a]);
                assert(out@[out0.len() as int] == x);
            }
            assert forall|a: int, b: int| 0 <= a < out@.len() && 0 <= b < rest@.len()
                implies #[trigger] out@[a].updated_at >= #[trigger] rest@[b].updated_at by {
                let src = if b < m { b } else { b + 1 };
                assert(rest@[b] == rest0[src]);
                assert(rest0[m as int].updated_at >= rest0[src].updated_at);
                if a < out0.len() {
                    assert(out@[a] == out0[a]);
                    assert(out0[a].updated_at >= rest0[m as int].updated_at);
                } else {
                    assert(out@[a] == x);
                }
            }
        }
    }
    proof {
        assert(rest@.to_multiset() =~= Multiset::<Project>::empty());
        assert(out@.to_multiset() =~= whole.to_multiset());
        assert(out@ + stable_sorted_projects(rest@) =~= out@);
    }
    out
}

} // verus!
