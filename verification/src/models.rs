//! The project data model: projects with their files, goals and contexts,
//! and the rules by which they change. Identifiers come from a random
//! generator and timestamps from the clock, both behind trusted wrappers;
//! every rule about the collections is verified.
use vstd::prelude::*;

use vstd::seq_lib::group_seq_properties;
use vstd::multiset::Multiset;
use crate::text::str_eq;

verus! {

/// Relies on uuid::Uuid::new_v4 and its Display form: a fresh random
/// identifier, hyphenated, 36 characters long. The value is random;
/// nothing but its length is promised.
#[verifier::external_body]
pub fn fresh_id() -> (r: String)
    ensures
        r@.len() == 36,
{
    uuid::Uuid::new_v4().to_string()
}

/// Relies on chrono::Utc::now and DateTime::timestamp_millis: the current
/// time in milliseconds. Nothing is promised of the value.
#[verifier::external_body]
pub fn now_millis() -> (r: i64) {
    chrono::Utc::now().timestamp_millis()
}

/// A file stored under a project.
pub struct ProjectFile {
    pub id: String,
    pub filename: String,
    pub size: u64,
    pub mime_type: Option<String>,
    pub uploaded_at: i64,
}

impl ProjectFile {
    /// A fresh file record.
    pub fn new(filename: String, size: u64, mime_type: Option<String>) -> (r: ProjectFile)
        ensures
            r.filename == filename,
            r.size == size,
            r.mime_type == mime_type,
            r.id@.len() == 36,
    {
        ProjectFile { id: fresh_id(), filename, size, mime_type, uploaded_at: now_millis() }
    }
}

/// One goal line of a project.
pub struct Goal {
    pub id: String,
    pub text: String,
    pub order: u32,
}

impl Goal {
    /// A fresh goal.
    pub fn new(text: String, order: u32) -> (r: Goal)
        ensures
            r.text == text,
            r.order == order,
            r.id@.len() == 36,
    {
        Goal { id: fresh_id(), text, order }
    }
}

/// One context line of a project.
pub struct Context {
    pub id: String,
    pub text: String,
    pub order: u32,
}

impl Context {
    /// A fresh context.
    pub fn new(text: String, order: u32) -> (r: Context)
        ensures
            r.text == text,
            r.order == order,
            r.id@.len() == 36,
    {
        Context { id: fresh_id(), text, order }
    }
}

/// A project: named, timestamped, with its files, goals and contexts.
pub struct Project {
    pub id: String,
    pub name: String,
    pub created_at: i64,
    pub updated_at: i64,
    pub files: Vec<ProjectFile>,
    pub goals: Vec<Goal>,
    pub contexts: Vec<Context>,
}

/// The file records that do not carry `file_id`, in order.
pub open spec fn files_without(files: Seq<ProjectFile>, file_id: Seq<char>) -> Seq<ProjectFile> {
    files.filter(|f: ProjectFile| f.id@ != file_id)
}

/// The goals that do not carry `goal_id`, in order.
pub open spec fn goals_without(goals: Seq<Goal>, goal_id: Seq<char>) -> Seq<Goal> {
    goals.filter(|g: Goal| g.id@ != goal_id)
}

/// The contexts that do not carry `context_id`, in order.
pub open spec fn contexts_without(contexts: Seq<Context>, context_id: Seq<char>) -> Seq<Context> {
    contexts.filter(|c: Context| c.id@ != context_id)
}

proof fn lemma_files_without_push(s: Seq<ProjectFile>, f: ProjectFile, id: Seq<char>)
    ensures
        files_without(s.push(f), id) == if f.id@ != id {
            files_without(s, id).push(f)
        } else {
            files_without(s, id)
        },
{
    reveal(Seq::filter);
    assert(s.push(f).drop_last() =~= s);
}

proof fn lemma_goals_without_push(s: Seq<Goal>, g: Goal, id: Seq<char>)
    ensures
        goals_without(s.push(g), id) == if g.id@ != id {
            goals_without(s, id).push(g)
        } else {
            goals_without(s, id)
        },
{
    reveal(Seq::filter);
    assert(s.push(g).drop_last() =~= s);
}

proof fn lemma_contexts_without_push(s: Seq<Context>, c: Context, id: Seq<char>)
    ensures
        contexts_without(s.push(c), id) == if c.id@ != id {
            contexts_without(s, id).push(c)
        } else {
            contexts_without(s, id)
        },
{
    reveal(Seq::filter);
    assert(s.push(c).drop_last() =~= s);
}

/// Goals stand in non-decreasing display order.
pub open spec fn goals_sorted(s: Seq<Goal>) -> bool {
    forall|i: int, j: int| 0 <= i < j < s.len() ==> #[trigger] s[i].order <= #[trigger] s[j].order
}

/// Contexts stand in non-decreasing display order.
pub open spec fn contexts_sorted(s: Seq<Context>) -> bool {
    forall|i: int, j: int| 0 <= i < j < s.len() ==> #[trigger] s[i].order <= #[trigger] s[j].order
}

/// The first new order an entry list gives to `id`, searching from
/// `from`.
pub open spec fn order_lookup_from(orders: Seq<(String, u32)>, id: Seq<char>, from: int)
    -> Option<u32>
    decreases orders.len() - from + 1,
{
    if from < 0 || from >= orders.len() {
        None
    } else if orders[from].0@ == id {
        Some(orders[from].1)
    } else {
        order_lookup_from(orders, id, from + 1)
    }
}

/// A goal with its order replaced per the entry list, when it is listed.
pub open spec fn goal_with_new_order(g: Goal, orders: Seq<(String, u32)>) -> Goal {
    match order_lookup_from(orders, g.id@, 0) {
        Some(v) => Goal { id: g.id, text: g.text, order: v },
        None => g,
    }
}

/// A context with its order replaced per the entry list, when listed.
pub open spec fn context_with_new_order(c: Context, orders: Seq<(String, u32)>) -> Context {
    match order_lookup_from(orders, c.id@, 0) {
        Some(v) => Context { id: c.id, text: c.text, order: v },
        None => c,
    }
}

/// Looks up the first new order an entry list gives to `id`.
fn order_lookup(orders: &Vec<(String, u32)>, id: &str) -> (r: Option<u32>)
    ensures
        r == order_lookup_from(orders@, id@, 0),
{
    let mut i: usize = 0;
    let n = orders.len();
    while i < n
        invariant
            i <= n,
            n == orders@.len(),
            order_lookup_from(orders@, id@, 0) == order_lookup_from(orders@, id@, i as int),
        decreases n - i,
    {
        if str_eq(orders[i].0.as_str(), id) {
            return Some(orders[i].1);
        }
        i += 1;
    }
    None
}

impl Project {
    /// A fresh project: a random identifier, the given name, both
    /// timestamps equal, nothing stored yet.
    pub fn new(name: String) -> (r: Project)
        ensures
            r.name == name,
            r.id@.len() == 36,
            r.created_at == r.updated_at,
            r.files@.len() == 0,
            r.goals@.len() == 0,
            r.contexts@.len() == 0,
    {
        let now = now_millis();
        Project {
            id: fresh_id(),
            name,
            created_at: now,
            updated_at: now,
            files: Vec::new(),
            goals: Vec::new(),
            contexts: Vec::new(),
        }
    }

    /// Appends a file record and touches the update time.
    pub fn add_file(&mut self, file: ProjectFile)
        ensures
            final(self).files@ == old(self).files@.push(file),
            final(self).goals == old(self).goals,
            final(self).contexts == old(self).contexts,
            final(self).id == old(self).id,
            final(self).name == old(self).name,
            final(self).created_at == old(self).created_at,
    {
        self.files.push(file);
        self.updated_at = now_millis();
    }

    /// Appends a goal and touches the update time.
    pub fn add_goal(&mut self, goal: Goal)
        ensures
            final(self).goals@ == old(self).goals@.push(goal),
            final(self).files == old(self).files,
            final(self).contexts == old(self).contexts,
            final(self).id == old(self).id,
            final(self).name == old(self).name,
            final(self).created_at == old(self).created_at,
    {
        self.goals.push(goal);
        self.updated_at = now_millis();
    }

    /// Appends a context and touches the update time.
    pub fn add_context(&mut self, context: Context)
        ensures
            final(self).contexts@ == old(self).contexts@.push(context),
            final(self).files == old(self).files,
            final(self).goals == old(self).goals,
            final(self).id == old(self).id,
            final(self).name == old(self).name,
            final(self).created_at == old(self).created_at,
    {
        self.contexts.push(context);
        self.updated_at = now_millis();
    }

    /// Drops every file record carrying `file_id`, keeping the order of
    /// the rest; reports whether anything left, and touches the update
    /// time only then.
    pub fn remove_file(&mut self, file_id: &str) -> (removed: bool)
        ensures
            final(self).files@ == files_without(old(self).files@, file_id@),
            removed == (final(self).files@.len() != old(self).files@.len()),
            final(self).goals == old(self).goals,
            final(self).contexts == old(self).contexts,
            final(self).id == old(self).id,
            final(self).name == old(self).name,
            final(self).created_at == old(self).created_at,
            !removed ==> final(self).updated_at == old(self).updated_at,
    {
        let initial_len = self.files.len();
        let mut kept: Vec<ProjectFile> = Vec::new();
        let ghost orig = self.files@;
        proof {
            reveal(Seq::filter);
            assert(orig.subrange(0, 0) =~= Seq::<ProjectFile>::empty());
            assert(kept@ =~= files_without(orig.subrange(0, 0), file_id@));
        }
        let mut k: usize = 0;
        while self.files.len() > 0
            invariant
                k + self.files@.len() == orig.len(),
                orig.len() == initial_len,
                self.files@ == orig.subrange(k as int, orig.len() as int),
                kept@ == files_without(orig.subrange(0, k as int), file_id@),
                self.id == old(self).id && self.name == old(self).name,
                self.created_at == old(self).created_at,
                self.updated_at == old(self).updated_at,
                self.goals == old(self).goals && self.contexts == old(self).contexts,
            decreases self.files@.len(),
        {
            let f = self.files.remove(0);
            proof {
                assert(orig.subrange(0, k + 1) =~= orig.subrange(0, k as int).push(f));
                lemma_files_without_push(orig.subrange(0, k as int), f, file_id@);
                assert(self.files@ =~= orig.subrange(k + 1, orig.len() as int));
            }
            if !str_eq(f.id.as_str(), file_id) {
                kept.push(f);
            }
            k += 1;
        }
        proof {
            assert(orig.subrange(0, orig.len() as int) =~= orig);
        }
        let removed = kept.len() != initial_len;
        self.files = kept;
        if removed {
            self.updated_at = now_millis();
        }
        removed
    }

    /// Drops every goal carrying `goal_id`; as `remove_file`.
    pub fn remove_goal(&mut self, goal_id: &str) -> (removed: bool)
        ensures
            final(self).goals@ == goals_without(old(self).goals@, goal_id@),
            removed == (final(self).goals@.len() != old(self).goals@.len()),
            final(self).files == old(self).files,
            final(self).contexts == old(self).contexts,
            final(self).id == old(self).id,
            final(self).name == old(self).name,
            final(self).created_at == old(self).created_at,
            !removed ==> final(self).updated_at == old(self).updated_at,
    {
        let initial_len = self.goals.len();
        let mut kept: Vec<Goal> = Vec::new();
        let ghost orig = self.goals@;
        proof {
            reveal(Seq::filter);
            assert(orig.subrange(0, 0) =~= Seq::<Goal>::empty());
            assert(kept@ =~= goals_without(orig.subrange(0, 0), goal_id@));
        }
        let mut k: usize = 0;
        while self.goals.len() > 0
            invariant
                k + self.goals@.len() == orig.len(),
                orig.len() == initial_len,
                self.goals@ == orig.subrange(k as int, orig.len() as int),
                kept@ == goals_without(orig.subrange(0, k as int), goal_id@),
                self.id == old(self).id && self.name == old(self).name,
                self.created_at == old(self).created_at,
                self.updated_at == old(self).updated_at,
                self.files == old(self).files && self.contexts == old(self).contexts,
            decreases self.goals@.len(),
        {
            let g = self.goals.remove(0);
            proof {
                assert(orig.subrange(0, k + 1) =~= orig.subrange(0, k as int).push(g));
                lemma_goals_without_push(orig.subrange(0, k as int), g, goal_id@);
                assert(self.goals@ =~= orig.subrange(k + 1, orig.len() as int));
            }
            if !str_eq(g.id.as_str(), goal_id) {
                kept.push(g);
            }
            k += 1;
        }
        proof {
            assert(orig.subrange(0, orig.len() as int) =~= orig);
        }
        let removed = kept.len() != initial_len;
        self.goals = kept;
        if removed {
            self.updated_at = now_millis();
        }
        removed
    }

    /// Drops every context carrying `context_id`; as `remove_file`.
    pub fn remove_context(&mut self, context_id: &str) -> (removed: bool)
        ensures
            final(self).contexts@ == contexts_without(old(self).contexts@, context_id@),
            removed == (final(self).contexts@.len() != old(self).contexts@.len()),
            final(self).files == old(self).files,
            final(self).goals == old(self).goals,
            final(self).id == old(self).id,
            final(self).name == old(self).name,
            final(self).created_at == old(self).created_at,
            !removed ==> final(self).updated_at == old(self).updated_at,
    {
        let initial_len = self.contexts.len();
        let mut kept: Vec<Context> = Vec::new();
        let ghost orig = self.contexts@;
        proof {
            reveal(Seq::filter);
            assert(orig.subrange(0, 0) =~= Seq::<Context>::empty());
            assert(kept@ =~= contexts_without(orig.subrange(0, 0), context_id@));
        }
        let mut k: usize = 0;
        while self.contexts.len() > 0
            invariant
                k + self.contexts@.len() == orig.len(),
                orig.len() == initial_len,
                self.contexts@ == orig.subrange(k as int, orig.len() as int),
                kept@ == contexts_without(orig.subrange(0, k as int), context_id@),
                self.id == old(self).id && self.name == old(self).name,
                self.created_at == old(self).created_at,
                self.updated_at == old(self).updated_at,
                self.files == old(self).files && self.goals == old(self).goals,
            decreases self.contexts@.len(),
        {
            let c = self.contexts.remove(0);
            proof {
                assert(orig.subrange(0, k + 1) =~= orig.subrange(0, k as int).push(c));
                lemma_contexts_without_push(orig.subrange(0, k as int), c, context_id@);
                assert(self.contexts@ =~= orig.subrange(k + 1, orig.len() as int));
            }
            if !str_eq(c.id.as_str(), context_id) {
                kept.push(c);
            }
            k += 1;
        }
        proof {
            assert(orig.subrange(0, orig.len() as int) =~= orig);
        }
        let removed = kept.len() != initial_len;
        self.contexts = kept;
        if removed {
            self.updated_at = now_millis();
        }
        removed
    }

    /// Gives each listed goal its new order and sorts the goals by order.
    /// The goals themselves are kept: only their order fields and their
    /// arrangement change.
    pub fn reorder_goals(&mut self, goal_orders: Vec<(String, u32)>)
        ensures
            goals_sorted(final(self).goals@),
            final(self).goals@ == stable_sorted_goals(old(self).goals@.map_values(
                |g: Goal| goal_with_new_order(g, goal_orders@),
            )),
            final(self).files == old(self).files,
            final(self).contexts == old(self).contexts,
            final(self).id == old(self).id,
            final(self).name == old(self).name,
            final(self).created_at == old(self).created_at,
    {
        broadcast use group_seq_properties;

        let ghost orders = goal_orders@;
        let ghost orig = self.goals@;
        let n = self.goals.len();
        let mut i: usize = 0;
        while i < n
            invariant
                i <= n,
                n == self.goals@.len(),
                orig.len() == n,
                orders == goal_orders@,
                self.id == old(self).id && self.name == old(self).name,
                self.created_at == old(self).created_at,
                self.updated_at == old(self).updated_at,
                self.files == old(self).files && self.contexts == old(self).contexts,
                forall|k: int| 0 <= k < i
                    ==> self.goals@[k] == goal_with_new_order(#[trigger] orig[k], orders),
                forall|k: int| i <= k < n ==> self.goals@[k] == #[trigger] orig[k],
            decreases n - i,
        {
            let ghost pre = self.goals@;
            let mut g = self.goals.remove(i);
            match order_lookup(&goal_orders, g.id.as_str()) {
                Some(v) => g.order = v,
                None => {},
            }
            self.goals.insert(i, g);
            proof {
                assert(self.goals@ =~= pre.update(i as int, g));
                assert(g == goal_with_new_order(orig[i as int], orders));
            }
            i += 1;
        }
        proof {
            assert(self.goals@ =~= orig.map_values(
                |g: Goal| goal_with_new_order(g, orders),
            ));
        }
        let mut updated: Vec<Goal> = Vec::new();
        core::mem::swap(&mut updated, &mut self.goals);
        self.goals = sorted_goals_by_order(updated);
        self.updated_at = now_millis();
    }

    /// Gives each listed context its new order and sorts the contexts by
    /// order, as `reorder_goals`.
    pub fn reorder_contexts(&mut self, context_orders: Vec<(String, u32)>)
        ensures
            contexts_sorted(final(self).contexts@),
            final(self).contexts@ == stable_sorted_contexts(old(self).contexts@.map_values(
                |c: Context| context_with_new_order(c, context_orders@),
            )),
            final(self).files == old(self).files,
            final(self).goals == old(self).goals,
            final(self).id == old(self).id,
            final(self).name == old(self).name,
            final(self).created_at == old(self).created_at,
    {
        broadcast use group_seq_properties;

        let ghost orders = context_orders@;
        let ghost orig = self.contexts@;
        let n = self.contexts.len();
        let mut i: usize = 0;
        while i < n
            invariant
                i <= n,
                n == self.contexts@.len(),
                orig.len() == n,
                orders == context_orders@,
                self.id == old(self).id && self.name == old(self).name,
                self.created_at == old(self).created_at,
                self.updated_at == old(self).updated_at,
                self.files == old(self).files && self.goals == old(self).goals,
                forall|k: int| 0 <= k < i
                    ==> self.contexts@[k] == context_with_new_order(#[trigger] orig[k], orders),
                forall|k: int| i <= k < n ==> self.contexts@[k] == #[trigger] orig[k],
            decreases n - i,
        {
            let ghost pre = self.contexts@;
            let mut c = self.contexts.remove(i);
            match order_lookup(&context_orders, c.id.as_str()) {
                Some(v) => c.order = v,
                None => {},
            }
            self.contexts.insert(i, c);
            proof {
                assert(self.contexts@ =~= pre.update(i as int, c));
                assert(c == context_with_new_order(orig[i as int], orders));
            }
            i += 1;
        }
        proof {
            assert(self.contexts@ =~= orig.map_values(
                |c: Context| context_with_new_order(c, orders),
            ));
        }
        let mut updated: Vec<Context> = Vec::new();
        core::mem::swap(&mut updated, &mut self.contexts);
        self.contexts = sorted_contexts_by_order(updated);
        self.updated_at = now_millis();
    }
}

/// Index of the first goal of minimal order at or after `from`.
pub open spec fn first_min_goal_from(s: Seq<Goal>, from: int) -> int
    decreases s.len() - from,
{
    if from >= s.len() - 1 {
        from
    } else {
        let rest = first_min_goal_from(s, from + 1);
        if s[from].order <= s[rest].order {
            from
        } else {
            rest
        }
    }
}

/// The first minimal index is in range, minimal, and strictly below
/// everything before it.
proof fn lemma_first_min_goal(s: Seq<Goal>, from: int)
    requires
        0 <= from < s.len(),
    ensures
        from <= first_min_goal_from(s, from) < s.len(),
        forall|k: int| from <= k < s.len()
            ==> s[first_min_goal_from(s, from)].order <= #[trigger] s[k].order,
        forall|k: int| from <= k < first_min_goal_from(s, from)
            ==> #[trigger] s[k].order > s[first_min_goal_from(s, from)].order,
    decreases s.len() - from,
{
    if from < s.len() - 1 {
        lemma_first_min_goal(s, from + 1);
    }
}

/// An index that is minimal and strictly below everything before it is
/// the first minimal index.
proof fn lemma_first_min_goal_unique(s: Seq<Goal>, i: int)
    requires
        0 <= i < s.len(),
        forall|k: int| 0 <= k < s.len() ==> s[i].order <= #[trigger] s[k].order,
        forall|k: int| 0 <= k < i ==> #[trigger] s[k].order > s[i].order,
    ensures
        i == first_min_goal_from(s, 0),
{
    lemma_first_min_goal(s, 0);
    let r = first_min_goal_from(s, 0);
    if i < r {
        assert(s[i].order > s[r].order);
        assert(s[i].order <= s[r].order);
    } else if r < i {
        assert(s[r].order > s[i].order);
        assert(s[r].order <= s[i].order);
    }
}

/// The stable sort of goals by order: repeatedly the first goal of
/// minimal order, so that goals of equal order keep their relative
/// positions.
pub open spec fn stable_sorted_goals(s: Seq<Goal>) -> Seq<Goal>
    decreases s.len(),
    via stable_sorted_goals_decreases
{
    if s.len() == 0 {
        Seq::empty()
    } else {
        let m = first_min_goal_from(s, 0);
        seq![s[m]] + stable_sorted_goals(s.remove(m))
    }
}

#[via_fn]
proof fn stable_sorted_goals_decreases(s: Seq<Goal>) {
    if s.len() > 0 {
        lemma_first_min_goal(s, 0);
    }
}

/// Sorts goals by their order field: the result is exactly the stable
/// sort, ordered and holding the given goals.
pub fn sorted_goals_by_order(input: Vec<Goal>) -> (r: Vec<Goal>)
    ensures
        r@ == stable_sorted_goals(input@),
        goals_sorted(r@),
        r@.to_multiset() == input@.to_multiset(),
{
    broadcast use vstd::seq_lib::group_to_multiset_ensures;

    let ghost whole = input@;
    let mut rest = input;
    let mut out: Vec<Goal> = Vec::new();
    proof {
        assert(Seq::<Goal>::empty().to_multiset() =~= Multiset::<Goal>::empty());
        assert(out@.to_multiset().add(rest@.to_multiset()) =~= whole.to_multiset());
    }
    while rest.len() > 0
        invariant
            out@.to_multiset().add(rest@.to_multiset()) == whole.to_multiset(),
            out@ + stable_sorted_goals(rest@) == stable_sorted_goals(whole),
            goals_sorted(out@),
            forall|a: int, b: int| 0 <= a < out@.len() && 0 <= b < rest@.len()
                ==> #[trigger] out@[a].order <= #[trigger] rest@[b].order,
        decreases rest@.len(),
    {
        let mut m: usize = 0;
        let mut j: usize = 1;
        while j < rest.len()
            invariant
                m < j <= rest@.len() || (j <= rest@.len() && m == 0),
                m < rest@.len(),
                forall|k: int| 0 <= k < j ==> rest@[m as int].order <= #[trigger] rest@[k].order,
                forall|k: int| 0 <= k < m ==> #[trigger] rest@[k].order > rest@[m as int].order,
            decreases rest@.len() - j,
        {
            if rest[j].order < rest[m].order {
                m = j;
            }
            j += 1;
        }
        let ghost rest0 = rest@;
        let ghost out0 = out@;
        let x = rest.remove(m);
        out.push(x);
        proof {
            rest0.to_multiset_ensures();
            out0.to_multiset_ensures();
            assert(rest0.contains(rest0[m as int]));
            assert(rest@ == rest0.remove(m as int));
            assert(out@ == out0.push(x));
            assert(rest@.to_multiset() =~= rest0.to_multiset().remove(x));
            assert(out@.to_multiset() =~= out0.to_multiset().insert(x));
            assert(rest0.to_multiset().count(x) >= 1);
            assert(out@.to_multiset().add(rest@.to_multiset())
                =~= out0.to_multiset().add(rest0.to_multiset()));
            lemma_first_min_goal_unique(rest0, m as int);
            assert(stable_sorted_goals(rest0) == seq![x] + stable_sorted_goals(rest@));
            assert(out@ + stable_sorted_goals(rest@) =~= out0 + stable_sorted_goals(rest0));
            assert forall|a: int| 0 <= a < out0.len()
                implies #[trigger] out0[a].order <= x.order by {
                assert(out0[a].order <= rest0[m as int].order);
            }
            assert(goals_sorted(out@)) by {
                assert(forall|a: int| 0 <= a < out0.len() ==> out@[a] == #[trigger] out0[a]);
                assert(out@[out0.len() as int] == x);
            }
            assert forall|a: int, b: int| 0 <= a < out@.len() && 0 <= b < rest@.len()
                implies #[trigger] out@[a].order <= #[trigger] rest@[b].order by {
                let src = if b < m { b } else { b + 1 };
                assert(rest@[b] == rest0[src]);
                assert(rest0[m as int].order <= rest0[src].order);
                if a < out0.len() {
                    assert(out@[a] == out0[a]);
                    assert(out0[a].order <= rest0[m as int].order);
                } else {
                    assert(out@[a] == x);
                }
            }
        }
    }
    proof {
        assert(rest@.to_multiset() =~= Multiset::<Goal>::empty());
        assert(out@.to_multiset() =~= whole.to_multiset());
        assert(out@ + stable_sorted_goals(rest@) =~= out@);
    }
    out
}

/// Index of the first context of minimal order at or after `from`.
pub open spec fn first_min_context_from(s: Seq<Context>, from: int) -> int
    decreases s.len() - from,
{
    if from >= s.len() - 1 {
        from
    } else {
        let rest = first_min_context_from(s, from + 1);
        if s[from].order <= s[rest].order {
            from
        } else {
            rest
        }
    }
}

/// The first minimal index is in range, minimal, and strictly below
/// everything before it.
proof fn lemma_first_min_context(s: Seq<Context>, from: int)
    requires
        0 <= from < s.len(),
    ensures
        from <= first_min_context_from(s, from) < s.len(),
        forall|k: int| from <= k < s.len()
            ==> s[first_min_context_from(s, from)].order <= #[trigger] s[k].order,
        forall|k: int| from <= k < first_min_context_from(s, from)
            ==> #[trigger] s[k].order > s[first_min_context_from(s, from)].order,
    decreases s.len() - from,
{
    if from < s.len() - 1 {
        lemma_first_min_context(s, from + 1);
    }
}

/// An index that is minimal and strictly below everything before it is
/// the first minimal index.
proof fn lemma_first_min_context_unique(s: Seq<Context>, i: int)
    requires
        0 <= i < s.len(),
        forall|k: int| 0 <= k < s.len() ==> s[i].order <= #[trigger] s[k].order,
        forall|k: int| 0 <= k < i ==> #[trigger] s[k].order > s[i].order,
    ensures
        i == first_min_context_from(s, 0),
{
    lemma_first_min_context(s, 0);
    let r = first_min_context_from(s, 0);
    if i < r {
        assert(s[i].order > s[r].order);
        assert(s[i].order <= s[r].order);
    } else if r < i {
        assert(s[r].order > s[i].order);
        assert(s[r].order <= s[i].order);
    }
}

/// The stable sort of contexts by order, as `stable_sorted_goals`.
pub open spec fn stable_sorted_contexts(s: Seq<Context>) -> Seq<Context>
    decreases s.len(),
    via stable_sorted_contexts_decreases
{
    if s.len() == 0 {
        Seq::empty()
    } else {
        let m = first_min_context_from(s, 0);
        seq![s[m]] + stable_sorted_contexts(s.remove(m))
    }
}

#[via_fn]
proof fn stable_sorted_contexts_decreases(s: Seq<Context>) {
    if s.len() > 0 {
        lemma_first_min_context(s, 0);
    }
}

/// Sorts contexts by their order field, as `sorted_goals_by_order`.
pub fn sorted_contexts_by_order(input: Vec<Context>) -> (r: Vec<Context>)
    ensures
        r@ == stable_sorted_contexts(input@),
        contexts_sorted(r@),
        r@.to_multiset() == input@.to_multiset(),
{
    broadcast use vstd::seq_lib::group_to_multiset_ensures;

    let ghost whole = input@;
    let mut rest = input;
    let mut out: Vec<Context> = Vec::new();
    proof {
        assert(Seq::<Context>::empty().to_multiset() =~= Multiset::<Context>::empty());
        assert(out@.to_multiset().add(rest@.to_multiset()) =~= whole.to_multiset());
    }
    while rest.len() > 0
        invariant
            out@.to_multiset().add(rest@.to_multiset()) == whole.to_multiset(),
            out@ + stable_sorted_contexts(rest@) == stable_sorted_contexts(whole),
            contexts_sorted(out@),
            forall|a: int, b: int| 0 <= a < out@.len() && 0 <= b < rest@.len()
                ==> #[trigger] out@[a].order <= #[trigger] rest@[b].order,
        decreases rest@.len(),
    {
        let mut m: usize = 0;
        let mut j: usize = 1;
        while j < rest.len()
            invariant
                m < j <= rest@.len() || (j <= rest@.len() && m == 0),
                m < rest@.len(),
                forall|k: int| 0 <= k < j ==> rest@[m as int].order <= #[trigger] rest@[k].order,
                forall|k: int| 0 <= k < m ==> #[trigger] rest@[k].order > rest@[m as int].order,
            decreases rest@.len() - j,
        {
            if rest[j].order < rest[m].order {
                m = j;
            }
            j += 1;
        }
        let ghost rest0 = rest@;
        let ghost out0 = out@;
        let x = rest.remove(m);
        out.push(x);
        proof {
            rest0.to_multiset_ensures();
            out0.to_multiset_ensures();
            assert(rest0.contains(rest0[m as int]));
            assert(rest@ == rest0.remove(m as int));
            assert(out@ == out0.push(x));
            assert(rest@.to_multiset() =~= rest0.to_multiset().remove(x));
            assert(out@.to_multiset() =~= out0.to_multiset().insert(x));
            assert(rest0.to_multiset().count(x) >= 1);
            assert(out@.to_multiset().add(rest@.to_multiset())
                =~= out0.to_multiset().add(rest0.to_multiset()));
            lemma_first_min_context_unique(rest0, m as int);
            assert(stable_sorted_contexts(rest0) == seq![x] + stable_sorted_contexts(rest@));
            assert(out@ + stable_sorted_contexts(rest@) =~= out0 + stable_sorted_contexts(rest0));
            assert forall|a: int| 0 <= a < out0.len()
                implies #[trigger] out0[a].order <= x.order by {
                assert(out0[a].order <= rest0[m as int].order);
            }
            assert(contexts_sorted(out@)) by {
                assert(forall|a: int| 0 <= a < out0.len() ==> out@[a] == #[trigger] out0[a]);
                assert(out@[out0.len() as int] == x);
            }
            assert forall|a: int, b: int| 0 <= a < out@.len() && 0 <= b < rest@.len()
                implies #[trigger] out@[a].order <= #[trigger] rest@[b].order by {
                let src = if b < m { b } else { b + 1 };
                assert(rest@[b] == rest0[src]);
                assert(rest0[m as int].order <= rest0[src].order);
                if a < out0.len() {
                    assert(out@[a] == out0[a]);
                    assert(out0[a].order <= rest0[m as int].order);
                } else {
                    assert(out@[a] == x);
                }
            }
        }
    }
    proof {
        assert(rest@.to_multiset() =~= Multiset::<Context>::empty());
        assert(out@.to_multiset() =~= whole.to_multiset());
        assert(out@ + stable_sorted_contexts(rest@) =~= out@);
    }
    out
}

} // verus!
