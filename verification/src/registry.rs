//! The sub-agent registry: a store of active delegation records keyed by
//! composite identifier, modelled as a map from identifier to record view.
//! Every operation is total: absence is a normal condition, never an error.

use vstd::prelude::*;
use crate::strutil::composite_id_spec;

verus! {

/// One currently-active delegated sub-agent.
#[derive(Debug)]
pub struct SubAgentInfo {
    pub parent_session_id: String,
    pub tool_id: String,
    pub task_description: String,
    pub subagent_type: Option<String>,
    pub process_id: Option<u32>,
    pub output_buffer: Vec<String>,
}

/// The mathematical shape of a [`SubAgentInfo`].
#[verifier::ext_equal]
pub struct RecordView {
    pub parent_session_id: Seq<char>,
    pub tool_id: Seq<char>,
    pub task_description: Seq<char>,
    pub subagent_type: Option<Seq<char>>,
    pub process_id: Option<u32>,
    pub output_buffer: Seq<Seq<char>>,
}

impl DeepView for SubAgentInfo {
    type V = RecordView;

    open spec fn deep_view(&self) -> RecordView {
        RecordView {
            parent_session_id: self.parent_session_id@,
            tool_id: self.tool_id@,
            task_description: self.task_description@,
            subagent_type: self.subagent_type.deep_view(),
            process_id: self.process_id,
            output_buffer: self.output_buffer.deep_view(),
        }
    }
}

/// The record a fresh registration inserts: empty output buffer, no process.
pub open spec fn fresh_record(
    session: Seq<char>,
    tool: Seq<char>,
    desc: Seq<char>,
    ty: Option<Seq<char>>,
) -> RecordView {
    RecordView {
        parent_session_id: session,
        tool_id: tool,
        task_description: desc,
        subagent_type: ty,
        process_id: None,
        output_buffer: Seq::empty(),
    }
}

/// The record after one captured output line is appended.
pub open spec fn append_output(r: RecordView, line: Seq<char>) -> RecordView {
    RecordView { output_buffer: r.output_buffer.push(line), ..r }
}

fn copy_lines(v: &Vec<String>) -> (r: Vec<String>)
    ensures
        r.deep_view() == v.deep_view(),
{
    let mut out: Vec<String> = Vec::new();
    let mut i: usize = 0;
    while i < v.len()
        invariant
            0 <= i <= v.len(),
            out@.len() == i as int,
            forall|j: int| 0 <= j < i ==> out@[j]@ == v@[j]@,
        decreases v.len() - i,
    {
        out.push(v[i].clone());
        i = i + 1;
    }
    proof {
        assert(out.deep_view() =~= v.deep_view());
    }
    out
}

impl SubAgentInfo {
    /// A structurally equal copy: callers receive snapshots, never aliases.
    pub fn duplicate(&self) -> (r: Self)
        ensures
            r.deep_view() == self.deep_view(),
    {
        let r = SubAgentInfo {
            parent_session_id: self.parent_session_id.clone(),
            tool_id: self.tool_id.clone(),
            task_description: self.task_description.clone(),
            subagent_type: match &self.subagent_type {
                Some(s) => Some(s.clone()),
                None => None,
            },
            process_id: self.process_id,
            output_buffer: copy_lines(&self.output_buffer),
        };
        proof {
            assert(r.deep_view() =~= self.deep_view());
        }
        r
    }
}

spec fn keys_unique(s: Seq<(String, SubAgentInfo)>) -> bool {
    forall|i: int, j: int|
        0 <= i < s.len() && 0 <= j < s.len() && i != j ==> (#[trigger] s[i].0@) != (
        #[trigger] s[j].0@)
}

spec fn entries_map(s: Seq<(String, SubAgentInfo)>) -> Map<Seq<char>, RecordView>
    decreases s.len(),
{
    if s.len() == 0 {
        Map::empty()
    } else {
        entries_map(s.drop_last()).insert(s.last().0@, s.last().1.deep_view())
    }
}

proof fn lemma_entries_contains(s: Seq<(String, SubAgentInfo)>, k: Seq<char>)
    ensures
        entries_map(s).contains_key(k) <==> exists|i: int|
            0 <= i < s.len() && (#[trigger] s[i].0@) == k,
    decreases s.len(),
{
    if s.len() > 0 {
        lemma_entries_contains(s.drop_last(), k);
        if entries_map(s).contains_key(k) {
            if s.last().0@ == k {
                assert(s[s.len() - 1].0@ == k);
            } else {
                let i = choose|i: int| 0 <= i < s.drop_last().len() && (#[trigger] s.drop_last()[i].0@) == k;
                assert(s[i].0@ == k);
            }
        }
        if exists|i: int| 0 <= i < s.len() && (#[trigger] s[i].0@) == k {
            let i = choose|i: int| 0 <= i < s.len() && (#[trigger] s[i].0@) == k;
            if i < s.len() - 1 {
                assert(s.drop_last()[i].0@ == k);
            }
        }
    }
}

proof fn lemma_entries_index(s: Seq<(String, SubAgentInfo)>, i: int)
    requires
        keys_unique(s),
        0 <= i < s.len(),
    ensures
        entries_map(s).contains_key(s[i].0@),
        entries_map(s)[s[i].0@] == s[i].1.deep_view(),
    decreases s.len(),
{
    if i == s.len() - 1 {
    } else {
        assert(keys_unique(s.drop_last())) by {
            assert(forall|a: int, b: int|
                0 <= a < s.drop_last().len() && 0 <= b < s.drop_last().len() ==> s.drop_last()[a]
                    == s[a] && s.drop_last()[b] == s[b]);
        }
        lemma_entries_index(s.drop_last(), i);
        assert(s.drop_last()[i] == s[i]);
        assert(s[i].0@ != s.last().0@);
    }
}

proof fn lemma_entries_remove(s: Seq<(String, SubAgentInfo)>, i: int)
    requires
        keys_unique(s),
        0 <= i < s.len(),
    ensures
        entries_map(s.remove(i)) =~= entries_map(s).remove(s[i].0@),
    decreases s.len(),
{
    assert(keys_unique(s.drop_last())) by {
        assert(forall|a: int, b: int|
            0 <= a < s.drop_last().len() && 0 <= b < s.drop_last().len() ==> s.drop_last()[a]
                == s[a] && s.drop_last()[b] == s[b]);
    }
    if i == s.len() - 1 {
        assert(s.remove(i) =~= s.drop_last());
        lemma_entries_contains(s.drop_last(), s[i].0@);
        assert(!entries_map(s.drop_last()).contains_key(s[i].0@));
        assert(entries_map(s.remove(i)) =~= entries_map(s.drop_last()).insert(
            s.last().0@,
            s.last().1.deep_view(),
        ).remove(s[i].0@));
    } else {
        lemma_entries_remove(s.drop_last(), i);
        assert(s.remove(i).drop_last() =~= s.drop_last().remove(i));
        assert(s.remove(i).last() == s.last());
        assert(s[i].0@ != s.last().0@);
        assert(entries_map(s.remove(i)) == entries_map(s.drop_last().remove(i)).insert(
            s.last().0@,
            s.last().1.deep_view(),
        ));
    }
}

proof fn lemma_entries_push(s: Seq<(String, SubAgentInfo)>, k: Seq<char>, info: SubAgentInfo)
    ensures
        forall|kk: String|
            kk@ == k ==> entries_map(s.push((kk, info))) == entries_map(s).insert(
                k,
                info.deep_view(),
            ),
{
    assert forall|kk: String| kk@ == k implies entries_map(s.push((kk, info))) == entries_map(
        s,
    ).insert(k, info.deep_view()) by {
        assert(s.push((kk, info)).drop_last() =~= s);
        assert(s.push((kk, info)).last() == (kk, info));
    }
}

/// The registry of active delegations. Lookups return snapshots; a
/// re-registration under an existing identifier overwrites its record.
#[derive(Debug)]
pub struct SubAgentRegistry {
    entries: Vec<(String, SubAgentInfo)>,
}

impl View for SubAgentRegistry {
    type V = Map<Seq<char>, RecordView>;

    closed spec fn view(&self) -> Map<Seq<char>, RecordView> {
        entries_map(self.entries@)
    }
}

impl SubAgentRegistry {
    /// Well-formedness: at most one record per composite identifier.
    /// `new` establishes it and every operation preserves it.
    pub closed spec fn wf(self) -> bool {
        keys_unique(self.entries@)
    }

    /// An empty registry: no delegation is tracked.
    pub fn new() -> (r: Self)
        ensures
            r.wf(),
            r@ == Map::<Seq<char>, RecordView>::empty(),
    {
        SubAgentRegistry { entries: Vec::new() }
    }

    fn find_index(&self, key: &str) -> (r: Option<usize>)
        ensures
            match r {
                Some(i) => i < self.entries@.len() && self.entries@[i as int].0@ == key@,
                None => forall|j: int| 0 <= j < self.entries@.len() ==> (#[trigger] self.entries@[j].0@)
                    != key@,
            },
    {
        let mut i: usize = 0;
        while i < self.entries.len()
            invariant
                0 <= i <= self.entries@.len(),
                forall|j: int| 0 <= j < i ==> (#[trigger] self.entries@[j].0@) != key@,
            decreases self.entries@.len() - i,
        {
            let pair = &self.entries[i];
            if crate::strutil::str_eq(pair.0.as_str(), key) {
                return Some(i);
            }
            i = i + 1;
        }
        None
    }

    /// Registers a delegation under the composite identifier built from the
    /// session and tool identifiers, inserting a fresh record (overwriting
    /// any record already present under that identifier), and returns the
    /// identifier. Never fails.
    pub fn register_subagent(
        &mut self,
        parent_session_id: String,
        tool_id: String,
        task_description: String,
        subagent_type: Option<String>,
    ) -> (id: String)
        requires
            old(self).wf(),
        ensures
            final(self).wf(),
            id@ == composite_id_spec(parent_session_id@, tool_id@),
            final(self)@ == old(self)@.insert(
                id@,
                fresh_record(
                    parent_session_id@,
                    tool_id@,
                    task_description@,
                    subagent_type.deep_view(),
                ),
            ),
    {
        let id = crate::strutil::composite_id(parent_session_id.as_str(), tool_id.as_str());
        let info = SubAgentInfo {
            parent_session_id,
            tool_id,
            task_description,
            subagent_type,
            process_id: None,
            output_buffer: Vec::new(),
        };
        let ghost m0 = self@;
        match self.find_index(id.as_str()) {
            Some(i) => {
                proof {
                    lemma_entries_remove(self.entries@, i as int);
                }
                self.entries.remove(i);
                proof {
                    assert(keys_unique(self.entries@));
                    assert(self@ =~= m0.remove(id@));
                }
            },
            None => {},
        }
        let ghost m1 = self@;
        let ghost pre = self.entries@;
        proof {
            lemma_entries_contains(self.entries@, id@);
            lemma_entries_push(self.entries@, id@, info);
        }
        let key = id.clone();
        self.entries.push((key, info));
        proof {
            assert(self.entries@ == pre.push((key, info)));
            assert(self@ == m1.insert(id@, info.deep_view()));
            assert(info.deep_view() =~= fresh_record(
                info.parent_session_id@,
                info.tool_id@,
                info.task_description@,
                info.subagent_type.deep_view(),
            ));
            assert(self@ =~= m0.insert(id@, info.deep_view()));
            assert(keys_unique(self.entries@)) by {
                assert(forall|j: int| 0 <= j < pre.len() ==> (#[trigger] pre[j].0@) != id@) by {
                    lemma_entries_contains(pre, id@);
                    assert(!entries_map(pre).contains_key(id@));
                }
            }
        }
        id
    }

    /// Appends one captured output line to the record under the identifier,
    /// if it is present; an absent identifier is a silent no-op.
    pub fn add_output(&mut self, subagent_id: &str, output: String)
        requires
            old(self).wf(),
        ensures
            final(self).wf(),
            old(self)@.contains_key(subagent_id@) ==> final(self)@ == old(self)@.insert(
                subagent_id@,
                append_output(old(self)@[subagent_id@], output@),
            ),
            !old(self)@.contains_key(subagent_id@) ==> final(self)@ == old(self)@,
    {
        proof {
            lemma_entries_contains(self.entries@, subagent_id@);
        }
        let ghost m0 = self@;
        match self.find_index(subagent_id) {
            Some(i) => {
                proof {
                    lemma_entries_index(self.entries@, i as int);
                    lemma_entries_remove(self.entries@, i as int);
                }
                let ghost pre = self.entries@;
                let (key, mut info) = self.entries.remove(i);
                info.output_buffer.push(output);
                proof {
                    assert(keys_unique(self.entries@));
                    lemma_entries_contains(self.entries@, subagent_id@);
                    lemma_entries_push(self.entries@, subagent_id@, info);
                    assert(info.deep_view() =~= append_output(m0[subagent_id@], output@));
                    assert(key@ == subagent_id@);
                }
                let ghost mid = self.entries@;
                self.entries.push((key, info));
                proof {
                    assert(self.entries@ == mid.push((key, info)));
                    assert(self@ == entries_map(mid).insert(subagent_id@, info.deep_view()));
                    assert(self@ =~= m0.insert(subagent_id@, append_output(m0[subagent_id@], output@)));
                    assert(keys_unique(self.entries@)) by {
                        assert(forall|j: int| 0 <= j < mid.len() ==> (#[trigger] mid[j].0@) != subagent_id@) by {
                            lemma_entries_contains(mid, subagent_id@);
                            assert(!entries_map(mid).contains_key(subagent_id@));
                        }
                    }
                }
            },
            None => {
                proof {
                    assert(!m0.contains_key(subagent_id@));
                }
            },
        }
    }

    /// A snapshot of the record under the identifier, or `None` if the
    /// identifier is not tracked. Callers never receive a live alias.
    pub fn get_subagent(&self, subagent_id: &str) -> (r: Option<SubAgentInfo>)
        requires
            self.wf(),
        ensures
            match r {
                Some(info) => self@.contains_key(subagent_id@) && info.deep_view()
                    == self@[subagent_id@],
                None => !self@.contains_key(subagent_id@),
            },
    {
        proof {
            lemma_entries_contains(self.entries@, subagent_id@);
        }
        match self.find_index(subagent_id) {
            Some(i) => {
                proof {
                    lemma_entries_index(self.entries@, i as int);
                }
                let pair = &self.entries[i];
                Some(pair.1.duplicate())
            },
            None => None,
        }
    }

    /// Deletes the record under the identifier; idempotent, never fails on
    /// absence.
    pub fn remove_subagent(&mut self, subagent_id: &str)
        requires
            old(self).wf(),
        ensures
            final(self).wf(),
            final(self)@ == old(self)@.remove(subagent_id@),
    {
        proof {
            lemma_entries_contains(self.entries@, subagent_id@);
        }
        let ghost m0 = self@;
        match self.find_index(subagent_id) {
            Some(i) => {
                proof {
                    lemma_entries_remove(self.entries@, i as int);
                }
                self.entries.remove(i);
                proof {
                    assert(keys_unique(self.entries@));
                    assert(self@ =~= m0.remove(subagent_id@));
                }
            },
            None => {
                proof {
                    assert(!m0.contains_key(subagent_id@));
                    assert(self@ =~= m0.remove(subagent_id@));
                }
            },
        }
    }
}

/// Registering a delegation and then immediately reading the composite
/// identifier back yields a record whose session, tool, description and
/// classification tag match the registered values exactly.
pub proof fn lemma_register_then_get(
    m: Map<Seq<char>, RecordView>,
    session: Seq<char>,
    tool: Seq<char>,
    desc: Seq<char>,
    ty: Option<Seq<char>>,
)
    ensures
        ({
            let id = composite_id_spec(session, tool);
            let m2 = m.insert(id, fresh_record(session, tool, desc, ty));
            &&& m2.contains_key(id)
            &&& m2[id].parent_session_id == session
            &&& m2[id].tool_id == tool
            &&& m2[id].task_description == desc
            &&& m2[id].subagent_type == ty
        }),
{
}

} // verus!
