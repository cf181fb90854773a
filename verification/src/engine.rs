//! The correlation engine: classifies one parsed protocol line as a
//! delegation start, a delegation completion, or noise, and applies the
//! detections to the registry while producing the events to emit and the
//! supervisors to launch.

use vstd::prelude::*;
use crate::events::{EventView, SubAgentEvent};
use crate::json::{as_str_view, jget, json_doc, parse_line, JsonVal, JsonView};
use crate::registry::{fresh_record, RecordView, SubAgentRegistry};
use crate::strutil::composite_id_spec;
use crate::supervisor::{OutputSupervisor, SupervisorView};

verus! {

/// One detected delegation start within a line.
#[derive(Debug)]
pub struct StartItem {
    pub tool_id: String,
    pub description: String,
    pub subagent_type: Option<String>,
    pub prompt: Option<String>,
}

/// The mathematical shape of a [`StartItem`].
#[verifier::ext_equal]
pub struct StartView {
    pub tool_id: Seq<char>,
    pub description: Seq<char>,
    pub subagent_type: Option<Seq<char>>,
    pub prompt: Option<Seq<char>>,
}

impl DeepView for StartItem {
    type V = StartView;

    open spec fn deep_view(&self) -> StartView {
        StartView {
            tool_id: self.tool_id@,
            description: self.description@,
            subagent_type: self.subagent_type.deep_view(),
            prompt: self.prompt.deep_view(),
        }
    }
}

/// One detected delegation completion within a line.
#[derive(Debug)]
pub struct CompletionItem {
    pub tool_use_id: String,
    pub result: JsonVal,
}

/// The mathematical shape of a [`CompletionItem`].
#[verifier::ext_equal]
pub struct CompletionView {
    pub tool_use_id: Seq<char>,
    pub result: JsonView,
}

impl DeepView for CompletionItem {
    type V = CompletionView;

    open spec fn deep_view(&self) -> CompletionView {
        CompletionView { tool_use_id: self.tool_use_id@, result: self.result.deep_view() }
    }
}

/// What one line means: delegation starts, delegation completions, or
/// nothing the engine acts on.
#[derive(Debug)]
pub enum LineClass {
    Starts(Vec<StartItem>),
    Completions(Vec<CompletionItem>),
    Unrecognized,
}

/// The mathematical shape of a [`LineClass`].
#[verifier::ext_equal]
pub enum LineClassView {
    Starts(Seq<StartView>),
    Completions(Seq<CompletionView>),
    Unrecognized,
}

impl DeepView for LineClass {
    type V = LineClassView;

    open spec fn deep_view(&self) -> LineClassView {
        match self {
            LineClass::Starts(items) => LineClassView::Starts(items.deep_view()),
            LineClass::Completions(items) => LineClassView::Completions(items.deep_view()),
            LineClass::Unrecognized => LineClassView::Unrecognized,
        }
    }
}

/// The string a value holds, or a default for any non-string shape.
pub open spec fn str_or(v: JsonView, dflt: Seq<char>) -> Seq<char> {
    match as_str_view(v) {
        Some(s) => s,
        None => dflt,
    }
}

/// Whether an item announces a delegation: a tool invocation named "Task".
pub open spec fn is_task_use(item: JsonView) -> bool {
    jget(item, "type"@) == JsonView::Str("tool_use"@) && jget(item, "name"@) == JsonView::Str(
        "Task"@,
    )
}

/// The start detection read from one qualifying item, with the documented
/// defaults for absent or malformed fields.
pub open spec fn start_view_of(item: JsonView) -> StartView {
    StartView {
        tool_id: str_or(jget(item, "id"@), "unknown"@),
        description: str_or(jget(jget(item, "input"@), "description"@), "Unknown task"@),
        subagent_type: as_str_view(jget(jget(item, "input"@), "subagent_type"@)),
        prompt: as_str_view(jget(jget(item, "input"@), "prompt"@)),
    }
}

/// All delegation starts in a content list, in list order.
pub open spec fn start_views_of(content: Seq<JsonView>) -> Seq<StartView>
    decreases content.len(),
{
    if content.len() == 0 {
        Seq::empty()
    } else {
        let rest = start_views_of(content.drop_last());
        if is_task_use(content.last()) {
            rest.push(start_view_of(content.last()))
        } else {
            rest
        }
    }
}

/// Whether an item reports a tool result that carries a tool-use id.
pub open spec fn is_tool_result(item: JsonView) -> bool {
    jget(item, "type"@) == JsonView::Str("tool_result"@) && as_str_view(
        jget(item, "tool_use_id"@),
    ) is Some
}

/// The completion detection read from one qualifying item.
pub open spec fn completion_view_of(item: JsonView) -> CompletionView {
    CompletionView {
        tool_use_id: str_or(jget(item, "tool_use_id"@), Seq::empty()),
        result: jget(item, "content"@),
    }
}

/// All tool-result completions in a content list, in list order.
pub open spec fn completion_views_of(content: Seq<JsonView>) -> Seq<CompletionView>
    decreases content.len(),
{
    if content.len() == 0 {
        Seq::empty()
    } else {
        let rest = completion_views_of(content.drop_last());
        if is_tool_result(content.last()) {
            rest.push(completion_view_of(content.last()))
        } else {
            rest
        }
    }
}

/// The classification of one parsed line: an "assistant" message's content
/// list yields its delegation starts, a "user" message's content list yields
/// its completions, anything else is unrecognized.
pub open spec fn classify_view(v: JsonView) -> LineClassView {
    match jget(jget(v, "message"@), "content"@) {
        JsonView::Arr(items) => {
            if jget(v, "type"@) == JsonView::Str("assistant"@) {
                LineClassView::Starts(start_views_of(items))
            } else if jget(v, "type"@) == JsonView::Str("user"@) {
                LineClassView::Completions(completion_views_of(items))
            } else {
                LineClassView::Unrecognized
            }
        },
        _ => LineClassView::Unrecognized,
    }
}

fn field_is(v: &JsonVal, key: &str, expected: &str) -> (r: bool)
    ensures
        r == (jget(v.deep_view(), key@) == JsonView::Str(expected@)),
{
    match v.field(key) {
        Some(x) => match x.as_str_val() {
            Some(s) => crate::strutil::str_eq(s.as_str(), expected),
            None => false,
        },
        None => false,
    }
}

fn get_str_or(v: &JsonVal, key: &str, dflt: &str) -> (r: String)
    ensures
        r@ == str_or(jget(v.deep_view(), key@), dflt@),
{
    match v.field(key) {
        Some(x) => match x.as_str_val() {
            Some(s) => s.clone(),
            None => dflt.to_owned(),
        },
        None => dflt.to_owned(),
    }
}

fn get_str_opt(v: &JsonVal, key: &str) -> (r: Option<String>)
    ensures
        r.deep_view() == as_str_view(jget(v.deep_view(), key@)),
{
    match v.field(key) {
        Some(x) => match x.as_str_val() {
            Some(s) => Some(s.clone()),
            None => None,
        },
        None => None,
    }
}

fn clone_opt(o: &Option<String>) -> (r: Option<String>)
    ensures
        r.deep_view() == o.deep_view(),
{
    match o {
        Some(s) => Some(s.clone()),
        None => None,
    }
}

fn message_content_items<'a>(v: &'a JsonVal) -> (r: Option<&'a Vec<JsonVal>>)
    ensures
        match r {
            Some(items) => jget(jget(v.deep_view(), "message"@), "content"@) == JsonView::Arr(
                items.deep_view(),
            ),
            None => !(jget(jget(v.deep_view(), "message"@), "content"@) is Arr),
        },
{
    match v.field("message") {
        Some(m) => match m.field("content") {
            Some(c) => match c {
                JsonVal::Arr(items) => {
                    proof {
                        crate::json::lemma_arr_view(*items);
                        assert(c.deep_view()->Arr_0 =~= items.deep_view());
                    }
                    Some(items)
                },
                _ => None,
            },
            None => None,
        },
        None => None,
    }
}

fn start_item_of_exec(item: &JsonVal) -> (r: StartItem)
    ensures
        r.deep_view() == start_view_of(item.deep_view()),
{
    let tool_id = get_str_or(item, "id", "unknown");
    match item.field("input") {
        Some(input) => {
            let description = get_str_or(input, "description", "Unknown task");
            let subagent_type = get_str_opt(input, "subagent_type");
            let prompt = get_str_opt(input, "prompt");
            let r = StartItem { tool_id, description, subagent_type, prompt };
            proof {
                assert(r.deep_view() =~= start_view_of(item.deep_view()));
            }
            r
        },
        None => {
            let r = StartItem {
                tool_id,
                description: "Unknown task".to_owned(),
                subagent_type: None,
                prompt: None,
            };
            proof {
                assert(r.deep_view() =~= start_view_of(item.deep_view()));
            }
            r
        },
    }
}

/// Classifies one parsed line, reading exactly as `classify_view` states.
pub fn classify(v: &JsonVal) -> (r: LineClass)
    ensures
        r.deep_view() == classify_view(v.deep_view()),
{
    match message_content_items(v) {
        Some(items) => {
            if field_is(v, "type", "assistant") {
                let ghost vitems: Seq<JsonView> = items.deep_view();
                let mut starts: Vec<StartItem> = Vec::new();
                let mut i: usize = 0;
                while i < items.len()
                    invariant
                        0 <= i <= items.len(),
                        vitems == items.deep_view(),
                        starts.deep_view() == start_views_of(vitems.take(i as int)),
                    decreases items.len() - i,
                {
                    let item = &items[i];
                    proof {
                        assert(item.deep_view() == vitems[i as int]);
                        assert(vitems.take(i as int + 1).drop_last() =~= vitems.take(i as int));
                        assert(vitems.take(i as int + 1).last() == vitems[i as int]);
                    }
                    if field_is(item, "type", "tool_use") && field_is(item, "name", "Task") {
                        let s = start_item_of_exec(item);
                        starts.push(s);
                        proof {
                            assert(starts.deep_view() =~= start_views_of(
                                vitems.take(i as int + 1),
                            ));
                        }
                    } else {
                        proof {
                            assert(starts.deep_view() =~= start_views_of(
                                vitems.take(i as int + 1),
                            ));
                        }
                    }
                    i = i + 1;
                }
                proof {
                    assert(vitems.take(items@.len() as int) =~= vitems);
                }
                LineClass::Starts(starts)
            } else if field_is(v, "type", "user") {
                let ghost vitems: Seq<JsonView> = items.deep_view();
                let mut comps: Vec<CompletionItem> = Vec::new();
                let mut i: usize = 0;
                while i < items.len()
                    invariant
                        0 <= i <= items.len(),
                        vitems == items.deep_view(),
                        comps.deep_view() == completion_views_of(vitems.take(i as int)),
                    decreases items.len() - i,
                {
                    let item = &items[i];
                    proof {
                        assert(item.deep_view() == vitems[i as int]);
                        assert(vitems.take(i as int + 1).drop_last() =~= vitems.take(i as int));
                        assert(vitems.take(i as int + 1).last() == vitems[i as int]);
                    }
                    if field_is(item, "type", "tool_result") {
                        match get_str_opt(item, "tool_use_id") {
                            Some(tid) => {
                                let result = match item.field("content") {
                                    Some(c) => c.duplicate(),
                                    None => JsonVal::Null,
                                };
                                comps.push(CompletionItem { tool_use_id: tid, result });
                                proof {
                                    assert(comps.deep_view() =~= completion_views_of(
                                        vitems.take(i as int + 1),
                                    ));
                                }
                            },
                            None => {
                                proof {
                                    assert(comps.deep_view() =~= completion_views_of(
                                        vitems.take(i as int + 1),
                                    ));
                                }
                            },
                        }
                    } else {
                        proof {
                            assert(comps.deep_view() =~= completion_views_of(
                                vitems.take(i as int + 1),
                            ));
                        }
                    }
                    i = i + 1;
                }
                proof {
                    assert(vitems.take(items@.len() as int) =~= vitems);
                }
                LineClass::Completions(comps)
            } else {
                LineClass::Unrecognized
            }
        },
        None => LineClass::Unrecognized,
    }
}

/// The effect of a list of delegation starts on the registry model: each
/// start, in order, registers a fresh record under its composite id, emits
/// one started event, and asks for one supervisor.
pub open spec fn starts_step(
    m: Map<Seq<char>, RecordView>,
    session: Seq<char>,
    items: Seq<StartView>,
) -> (Map<Seq<char>, RecordView>, Seq<EventView>, Seq<Seq<char>>)
    decreases items.len(),
{
    if items.len() == 0 {
        (m, Seq::empty(), Seq::empty())
    } else {
        let prev = starts_step(m, session, items.drop_last());
        let it = items.last();
        let id = composite_id_spec(session, it.tool_id);
        (
            prev.0.insert(id, fresh_record(session, it.tool_id, it.description, it.subagent_type)),
            prev.1.push(
                EventView::Started {
                    session_id: session,
                    subagent_id: id,
                    tool_id: it.tool_id,
                    description: it.description,
                    prompt: it.prompt,
                    subagent_type: it.subagent_type,
                },
            ),
            prev.2.push(id),
        )
    }
}

/// The effect of a list of tool-result completions on the registry model:
/// each completion whose composite id is currently tracked emits one
/// completed event and removes the record; any other completion does
/// nothing.
pub open spec fn completions_step(
    m: Map<Seq<char>, RecordView>,
    session: Seq<char>,
    items: Seq<CompletionView>,
) -> (Map<Seq<char>, RecordView>, Seq<EventView>)
    decreases items.len(),
{
    if items.len() == 0 {
        (m, Seq::empty())
    } else {
        let prev = completions_step(m, session, items.drop_last());
        let it = items.last();
        let id = composite_id_spec(session, it.tool_use_id);
        if prev.0.contains_key(id) {
            (
                prev.0.remove(id),
                prev.1.push(
                    EventView::Completed {
                        session_id: session,
                        subagent_id: id,
                        tool_id: it.tool_use_id,
                        result: it.result,
                    },
                ),
            )
        } else {
            prev
        }
    }
}

/// The whole effect of one parsed line on the registry model, with the
/// events to emit and the composite ids to supervise.
pub open spec fn engine_step(
    m: Map<Seq<char>, RecordView>,
    session: Seq<char>,
    v: JsonView,
) -> (Map<Seq<char>, RecordView>, Seq<EventView>, Seq<Seq<char>>) {
    match classify_view(v) {
        LineClassView::Starts(items) => starts_step(m, session, items),
        LineClassView::Completions(items) => {
            let c = completions_step(m, session, items);
            (c.0, c.1, Seq::empty())
        },
        LineClassView::Unrecognized => (m, Seq::empty(), Seq::empty()),
    }
}

/// The fresh supervisors launched for a list of composite ids.
pub open spec fn supervisors_for(session: Seq<char>, ids: Seq<Seq<char>>) -> Seq<SupervisorView> {
    Seq::new(
        ids.len(),
        |i: int| SupervisorView { session_id: session, subagent_id: ids[i], ticks: 0 },
    )
}

/// Consumes one raw line of the primary output stream: parses it, applies
/// both detection rules to the registry, and returns the lifecycle events to
/// emit and the fresh supervisors to launch, exactly as `engine_step` states
/// on the line's parse. A line that does not parse, or parses but matches
/// neither rule, changes nothing and emits nothing.
pub fn monitor_for_subagents(
    registry: &mut SubAgentRegistry,
    session_id: &str,
    line: &str,
) -> (r: (Vec<SubAgentEvent>, Vec<OutputSupervisor>))
    requires
        old(registry).wf(),
    ensures
        final(registry).wf(),
        json_doc(line@) is None ==> final(registry)@ == old(registry)@ && r.0@.len() == 0
            && r.1@.len() == 0,
        json_doc(line@) matches Some(v) ==> ({
            let step = engine_step(old(registry)@, session_id@, v);
            &&& final(registry)@ == step.0
            &&& r.0.deep_view() == step.1
            &&& r.1.deep_view() == supervisors_for(session_id@, step.2)
        }),
{
    let mut events: Vec<SubAgentEvent> = Vec::new();
    let mut sups: Vec<OutputSupervisor> = Vec::new();
    let ghost m0 = registry@;
    match parse_line(line) {
        None => {},
        Some(doc) => {
            let ghost dv = doc.deep_view();
            match classify(&doc) {
                LineClass::Starts(items) => {
                    let ghost sviews = items.deep_view();
                    let mut i: usize = 0;
                    while i < items.len()
                        invariant
                            0 <= i <= items.len(),
                            sviews == items.deep_view(),
                            registry.wf(),
                            ({
                                let st = starts_step(m0, session_id@, sviews.take(i as int));
                                &&& registry@ == st.0
                                &&& events.deep_view() == st.1
                                &&& sups.deep_view() == supervisors_for(session_id@, st.2)
                            }),
                        decreases items.len() - i,
                    {
                        let it = &items[i];
                        proof {
                            assert(it.deep_view() == sviews[i as int]);
                            assert(sviews.take(i as int + 1).drop_last() =~= sviews.take(i as int));
                            assert(sviews.take(i as int + 1).last() == sviews[i as int]);
                        }
                        let id = registry.register_subagent(
                            session_id.to_owned(),
                            it.tool_id.clone(),
                            it.description.clone(),
                            clone_opt(&it.subagent_type),
                        );
                        let ev = SubAgentEvent::Started {
                            session_id: session_id.to_owned(),
                            subagent_id: id.clone(),
                            tool_id: it.tool_id.clone(),
                            description: it.description.clone(),
                            prompt: clone_opt(&it.prompt),
                            subagent_type: clone_opt(&it.subagent_type),
                        };
                        events.push(ev);
                        let ghost prev_sups = sups.deep_view();
                        sups.push(OutputSupervisor::new(session_id.to_owned(), id));
                        proof {
                            let st = starts_step(m0, session_id@, sviews.take(i as int + 1));
                            assert(registry@ =~= st.0);
                            assert(events.deep_view() =~= st.1);
                            assert(sups.deep_view() =~= prev_sups.push(
                                SupervisorView {
                                    session_id: session_id@,
                                    subagent_id: id@,
                                    ticks: 0,
                                },
                            ));
                            assert(sups.deep_view() =~= supervisors_for(session_id@, st.2));
                        }
                        i = i + 1;
                    }
                    proof {
                        assert(sviews.take(items@.len() as int) =~= sviews);
                    }
                },
                LineClass::Completions(items) => {
                    let ghost cviews = items.deep_view();
                    let mut i: usize = 0;
                    while i < items.len()
                        invariant
                            0 <= i <= items.len(),
                            cviews == items.deep_view(),
                            registry.wf(),
                            ({
                                let st = completions_step(m0, session_id@, cviews.take(i as int));
                                &&& registry@ == st.0
                                &&& events.deep_view() == st.1
                            }),
                            sups@.len() == 0,
                        decreases items.len() - i,
                    {
                        let it = &items[i];
                        proof {
                            assert(it.deep_view() == cviews[i as int]);
                            assert(cviews.take(i as int + 1).drop_last() =~= cviews.take(i as int));
                            assert(cviews.take(i as int + 1).last() == cviews[i as int]);
                        }
                        let id = crate::strutil::composite_id(session_id, it.tool_use_id.as_str());
                        match registry.get_subagent(id.as_str()) {
                            Some(_found) => {
                                let ev = SubAgentEvent::Completed {
                                    session_id: session_id.to_owned(),
                                    subagent_id: id.clone(),
                                    tool_id: it.tool_use_id.clone(),
                                    result: it.result.duplicate(),
                                };
                                events.push(ev);
                                registry.remove_subagent(id.as_str());
                                proof {
                                    let st = completions_step(
                                        m0,
                                        session_id@,
                                        cviews.take(i as int + 1),
                                    );
                                    assert(registry@ =~= st.0);
                                    assert(events.deep_view() =~= st.1);
                                }
                            },
                            None => {
                                proof {
                                    let st = completions_step(
                                        m0,
                                        session_id@,
                                        cviews.take(i as int + 1),
                                    );
                                    assert(registry@ =~= st.0);
                                    assert(events.deep_view() =~= st.1);
                                }
                            },
                        }
                        i = i + 1;
                    }
                    proof {
                        assert(cviews.take(items@.len() as int) =~= cviews);
                        assert(sups.deep_view() =~= supervisors_for(
                            session_id@,
                            Seq::<Seq<char>>::empty(),
                        ));
                    }
                },
                LineClass::Unrecognized => {
                    proof {
                        assert(sups.deep_view() =~= supervisors_for(
                            session_id@,
                            Seq::<Seq<char>>::empty(),
                        ));
                    }
                },
            }
        },
    }
    (events, sups)
}

/// A line that parses but matches neither detection rule has no effect: no
/// registry mutation, no event, no supervisor.
pub proof fn lemma_unrecognized_no_effect(
    m: Map<Seq<char>, RecordView>,
    session: Seq<char>,
    v: JsonView,
)
    requires
        classify_view(v) is Unrecognized,
    ensures
        engine_step(m, session, v).0 == m,
        engine_step(m, session, v).1 == Seq::<EventView>::empty(),
        engine_step(m, session, v).2 == Seq::<Seq<char>>::empty(),
{
}

/// A delegation start followed by a completion carrying the same tool id
/// leaves the registry without the composite id and emits exactly one
/// completed event, carrying that id; a completion for a tool id that was
/// never registered emits nothing and leaves the registry unchanged.
pub proof fn lemma_start_then_complete(
    m: Map<Seq<char>, RecordView>,
    session: Seq<char>,
    start: StartView,
    done: CompletionView,
    other: CompletionView,
)
    requires
        done.tool_use_id == start.tool_id,
        other.tool_use_id != start.tool_id,
        !m.contains_key(composite_id_spec(session, other.tool_use_id)),
    ensures
        ({
            let after_start = starts_step(m, session, seq![start]);
            let id = composite_id_spec(session, start.tool_id);
            let after_done = completions_step(after_start.0, session, seq![done]);
            let after_other = completions_step(after_start.0, session, seq![other]);
            &&& after_start.0.contains_key(id)
            &&& !after_done.0.contains_key(id)
            &&& after_done.1.len() == 1
            &&& after_done.1[0] == (EventView::Completed {
                session_id: session,
                subagent_id: id,
                tool_id: done.tool_use_id,
                result: done.result,
            })
            &&& after_other.0 == after_start.0
            &&& after_other.1.len() == 0
        }),
{
    reveal_with_fuel(starts_step, 2);
    reveal_with_fuel(completions_step, 2);
    assert(seq![start].drop_last() =~= Seq::<StartView>::empty());
    assert(seq![start].last() == start);
    assert(seq![done].drop_last() =~= Seq::<CompletionView>::empty());
    assert(seq![done].last() == done);
    assert(seq![other].drop_last() =~= Seq::<CompletionView>::empty());
    assert(seq![other].last() == other);
    let after_start = starts_step(m, session, seq![start]);
    let id = composite_id_spec(session, start.tool_id);
    let oid = composite_id_spec(session, other.tool_use_id);
    assert(after_start.0 == m.insert(
        id,
        fresh_record(session, start.tool_id, start.description, start.subagent_type),
    ));
    assert(after_start.0.contains_key(id));
    crate::strutil::lemma_composite_id_injective(session, start.tool_id, other.tool_use_id);
    assert(id != oid);
    assert(!after_start.0.contains_key(oid));
    let after_done = completions_step(after_start.0, session, seq![done]);
    assert(completions_step(after_start.0, session, seq![done].drop_last()) == (
        after_start.0,
        Seq::<EventView>::empty(),
    ));
    assert(after_done.0 == after_start.0.remove(id));
    assert(!after_done.0.contains_key(id));
    assert(after_done.1 == Seq::<EventView>::empty().push(
        EventView::Completed {
            session_id: session,
            subagent_id: id,
            tool_id: done.tool_use_id,
            result: done.result,
        },
    ));
    let after_other = completions_step(after_start.0, session, seq![other]);
    assert(after_other.0 == after_start.0);
    assert(after_other.1.len() == 0);
}

} // verus!
