//! Run state: the pipeline being run, the turn log, and loop context.
use vstd::prelude::*;

use crate::config::domain::Pipeline;
use crate::executor::turn::TurnEntry;

verus! {

/// The ordered record of what each step sent and received during a run.
#[derive(Debug, Default)]
pub struct TurnLog {
    entries: Vec<TurnEntry>,
}

/// The index of the last entry of `es` whose step id is `id`.
pub open spec fn last_entry_for(es: Seq<TurnEntry>, id: Seq<char>) -> Option<int>
    decreases es.len(),
{
    if es.len() == 0 {
        None
    } else if es.last().step_id@ == id {
        Some(es.len() - 1)
    } else {
        last_entry_for(es.drop_last(), id)
    }
}

/// A found entry lies within the log and has the id.
pub proof fn lemma_last_entry_for(es: Seq<TurnEntry>, id: Seq<char>)
    ensures
        last_entry_for(es, id) matches Some(i) ==> 0 <= i < es.len() && es[i].step_id@ == id,
        last_entry_for(es, id) is None ==> forall|k: int| 0 <= k < es.len() ==> es[k].step_id@ != id,
    decreases es.len(),
{
    if es.len() > 0 && es.last().step_id@ != id {
        lemma_last_entry_for(es.drop_last(), id);
        assert forall|k: int| 0 <= k < es.len() - 1 implies es[k] == es.drop_last()[k] by {}
    }
}

/// The response of the last entry that has one.
pub open spec fn last_response_of(es: Seq<TurnEntry>) -> Option<Seq<char>>
    decreases es.len(),
{
    if es.len() == 0 {
        None
    } else if es.last().response is Some {
        Some(es.last().response->0@)
    } else {
        last_response_of(es.drop_last())
    }
}

impl View for TurnLog {
    type V = Seq<TurnEntry>;

    closed spec fn view(&self) -> Seq<TurnEntry> {
        self.entries@
    }
}

impl TurnLog {
    /// An empty log.
    pub fn new() -> (l: Self)
        ensures
            l@ == Seq::<TurnEntry>::empty(),
    {
        TurnLog { entries: Vec::new() }
    }

    /// Append an entry.
    pub fn append(&mut self, entry: TurnEntry)
        ensures
            final(self)@ == old(self)@.push(entry),
    {
        self.entries.push(entry);
    }

    /// A copy of the log.
    pub fn snapshot(&self) -> (l: Self)
        ensures
            l@.len() == self@.len(),
    {
        TurnLog { entries: self.entries.clone() }
    }

    /// The entries, oldest first, taken out of the log.
    pub fn into_entries(self) -> (r: Vec<TurnEntry>)
        ensures
            r@ == self@,
    {
        self.entries
    }

    /// The entries, oldest first.
    pub fn entries(&self) -> (r: &Vec<TurnEntry>)
        ensures
            r@ == self@,
    {
        &self.entries
    }

    /// The response of the most recent entry that has one.
    pub fn last_response(&self) -> (r: Option<&String>)
        ensures
            match r {
                Some(x) => last_response_of(self@) == Some(x@),
                None => last_response_of(self@) is None,
            },
    {
        let mut i = self.entries.len();
        assert(self@.take(i as int) =~= self@);
        while i > 0
            invariant
                i <= self.entries.len(),
                last_response_of(self@) == last_response_of(self@.take(i as int)),
            decreases i,
        {
            let ghost t = self@.take(i as int);
            assert(t.drop_last() =~= self@.take(i - 1));
            if let Some(r) = &self.entries[i - 1].response {
                assert(t.last() == self@[i - 1]);
                return Some(r);
            }
            i -= 1;
        }
        None
    }

    /// The index of the most recent entry of step `id`.
    pub fn last_index_of(&self, id: &str) -> (r: Option<usize>)
        ensures
            match r {
                Some(i) => last_entry_for(self@, id@) == Some(i as int),
                None => last_entry_for(self@, id@) is None,
            },
    {
        let mut i = self.entries.len();
        assert(self@.take(i as int) =~= self@);
        while i > 0
            invariant
                i <= self.entries.len(),
                last_entry_for(self@, id@) == last_entry_for(self@.take(i as int), id@),
            decreases i,
        {
            let ghost t = self@.take(i as int);
            assert(t.drop_last() =~= self@.take(i - 1));
            assert(t.last() == self@[i - 1]);
            if crate::text::str_eq(self.entries[i - 1].step_id.as_str(), id) {
                return Some(i - 1);
            }
            i -= 1;
        }
        None
    }

    /// Remove every entry whose step id starts with `prefix`.
    pub fn remove_entries_with_prefix(&mut self, prefix: &str)
        ensures
            final(self)@ == old(self)@.filter(outside_prefix(prefix@)),
    {
        let ghost old_entries = self@;
        let mut kept: Vec<TurnEntry> = Vec::new();
        let mut taken = Vec::new();
        std::mem::swap(&mut taken, &mut self.entries);
        let ghost pred = outside_prefix(prefix@);
        let p = crate::text::to_chars(prefix);
        proof {
            reveal(Seq::filter);
            assert(old_entries.take(0) =~= Seq::<TurnEntry>::empty());
        }
        let mut i: usize = 0;
        let n = taken.len();
        assert(old_entries.len() == n);
        for e in it: taken
            invariant
                it.seq() == old_entries,
                old_entries.len() == n,
                i == it.index(),
                i <= n,
                p@ == prefix@,
                pred == outside_prefix(prefix@),
                kept@ == old_entries.take(i as int).filter(pred),
        {
            assert(e == old_entries[i as int]);
            assert(old_entries.take(i + 1) =~= old_entries.take(i as int).push(e));
            proof {
                old_entries.take(i as int).lemma_filter_push(e, pred);
            }
            let id = crate::text::to_chars(e.step_id.as_str());
            let keep = !crate::text::starts_with_exec(&id, &p);
            if keep {
                kept.push(e);
            }
            i += 1;
        }
        assert(old_entries.take(n as int) =~= old_entries);
        self.entries = kept;
    }
}

/// The entries whose step id does not start with `prefix`.
pub open spec fn outside_prefix(prefix: Seq<char>) -> spec_fn(TurnEntry) -> bool {
    |e: TurnEntry| !crate::text::starts_with(e.step_id@, prefix)
}

/// Loop context of the innermost running `do_while`.
#[derive(Debug, Clone)]
pub struct DoWhileContext {
    pub loop_id: String,
    /// Zero-based iteration number.
    pub iteration: u64,
    pub max_iterations: u64,
}

/// Loop context of the innermost running `for_each`.
#[derive(Debug, Clone)]
pub struct ForEachContext {
    pub loop_id: String,
    /// One-based index of the current item.
    pub index: u64,
    /// Number of items the loop runs over.
    pub total: u64,
    /// The current item: a string item as is, any other item as JSON text.
    pub item: String,
    /// The name the item is bound to (`for_each.<as_name>`).
    pub as_name: String,
}

/// The state of one pipeline run.
pub struct Session {
    pub run_id: String,
    pub pipeline: Pipeline,
    pub invocation_prompt: String,
    pub turn_log: TurnLog,
    pub do_while_context: Option<DoWhileContext>,
    pub for_each_context: Option<ForEachContext>,
    pub loop_depth: usize,
    /// How many times `action: reload_self` has reloaded the pipeline.
    pub reload_count: usize,
    /// A pipeline reloaded by `action: reload_self`, for the run loop to
    /// switch to after the current step.
    pub pending_reload: Option<Pipeline>,
    /// The named pipelines whose runs contain this one, outermost first: a
    /// named pipeline met again on this chain refers to itself.
    pub named_chain: Vec<String>,
}

/// A lowercase hexadecimal digit.
pub open spec fn is_lower_hex(c: char) -> bool {
    ('0' <= c && c <= '9') || ('a' <= c && c <= 'f')
}

/// `t` is a UUID in its hyphenated text form: 36 characters, hyphens at
/// positions 8, 13, 18 and 23, lowercase hexadecimal digits elsewhere.
pub open spec fn hyphenated_uuid(t: Seq<char>) -> bool {
    &&& t.len() == 36
    &&& forall|i: int|
        0 <= i < 36 ==> if i == 8 || i == 13 || i == 18 || i == 23 {
            t[i] == '-'
        } else {
            is_lower_hex(#[trigger] t[i])
        }
}

/// Calls `uuid::Uuid::new_v4` and writes the id with `Display`, which the
/// uuid crate writes in the hyphenated form (`format_hyphenated`, lowercase
/// digits). The id is random: nothing more is stated of it.
#[verifier::external_body]
pub(crate) fn new_uuid_v4() -> (r: String)
    ensures
        hyphenated_uuid(r@),
{
    uuid::Uuid::new_v4().to_string()
}

impl Session {
    /// A fresh run of `pipeline` with a new random run id and an empty log.
    pub fn new(pipeline: Pipeline, invocation_prompt: String) -> (s: Self)
        ensures
            s.pipeline == pipeline,
            s.invocation_prompt == invocation_prompt,
            s.turn_log@ == Seq::<TurnEntry>::empty(),
            s.do_while_context is None,
            s.for_each_context is None,
            s.loop_depth == 0,
            s.reload_count == 0,
            s.pending_reload is None,
            s.named_chain@.len() == 0,
            hyphenated_uuid(s.run_id@),
    {
        Session {
            run_id: new_uuid_v4(),
            pipeline,
            invocation_prompt,
            turn_log: TurnLog::new(),
            do_while_context: None,
            for_each_context: None,
            loop_depth: 0,
            reload_count: 0,
            pending_reload: None,
            named_chain: Vec::new(),
        }
    }

    /// A fresh run with a given run id.
    pub fn with_run_id(pipeline: Pipeline, invocation_prompt: String, run_id: String) -> (s: Self)
        ensures
            s.run_id == run_id,
            s.pipeline == pipeline,
            s.invocation_prompt == invocation_prompt,
            s.turn_log@ == Seq::<TurnEntry>::empty(),
            s.do_while_context is None,
            s.for_each_context is None,
            s.loop_depth == 0,
            s.reload_count == 0,
            s.pending_reload is None,
            s.named_chain@.len() == 0,
    {
        Session {
            run_id,
            pipeline,
            invocation_prompt,
            turn_log: TurnLog::new(),
            do_while_context: None,
            for_each_context: None,
            loop_depth: 0,
            reload_count: 0,
            pending_reload: None,
            named_chain: Vec::new(),
        }
    }
}

} // verus!
