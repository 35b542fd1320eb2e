//! The workflow model: triggers, defaults, concurrency, jobs, and the
//! top-level workflow record.

use vstd::prelude::*;

use crate::common::{
    boe_wf, decode_boe, decode_env, decode_permissions, decode_sov_text, encode_boe, encode_env,
    encode_permissions, encode_sov_text, env_view, spec_decode_boe, spec_decode_env,
    spec_decode_permissions, spec_decode_sov_text, BoE, Env, LoE, Permissions, SoV, SpecBoE,
    SpecEnvValue, SpecSoVText,
};
use crate::error::{
    res_view, spec_err, spec_under_index, spec_under_key, DecodeError, ErrorKind, SpecErr,
    SpecErrKind,
};
use crate::keyword::{
    keyword_folds_to, resolve_enum, spec_resolve_enum, spec_table_lookup, table_view,
};
use crate::record::{
    check_keys, key_allowed, spec_check_keys, spec_first_unknown, UnknownFieldPolicy,
};
use crate::shape::{spec_resolve, Shape, SpecShape};
use crate::value::{lookup, spec_lookup, KindName, Node, NodeKind};

verus! {

/// A webhook event that can trigger a workflow.
#[derive(Debug, Clone, Copy, PartialEq, Eq, Structural)]
pub enum BareEvent {
    Push,
    Fork,
    PullRequest,
    WorkflowDispatch,
    WorkflowCall,
    Issues,
    IssueComment,
    Release,
}

/// The declared keyword table for trigger events, in folded form.
pub open spec fn spec_event_table() -> Seq<(Seq<char>, BareEvent)> {
    seq![
        ("push"@, BareEvent::Push),
        ("fork"@, BareEvent::Fork),
        ("pull-request"@, BareEvent::PullRequest),
        ("workflow-dispatch"@, BareEvent::WorkflowDispatch),
        ("workflow-call"@, BareEvent::WorkflowCall),
        ("issues"@, BareEvent::Issues),
        ("issue-comment"@, BareEvent::IssueComment),
        ("release"@, BareEvent::Release),
    ]
}

/// Builds the trigger event table.
pub fn event_table() -> (t: Vec<(String, BareEvent)>)
    ensures
        table_view(t@) == spec_event_table(),
{
    let mut t: Vec<(String, BareEvent)> = Vec::new();
    t.push(("push".to_owned(), BareEvent::Push));
    t.push(("fork".to_owned(), BareEvent::Fork));
    t.push(("pull-request".to_owned(), BareEvent::PullRequest));
    t.push(("workflow-dispatch".to_owned(), BareEvent::WorkflowDispatch));
    t.push(("workflow-call".to_owned(), BareEvent::WorkflowCall));
    t.push(("issues".to_owned(), BareEvent::Issues));
    t.push(("issue-comment".to_owned(), BareEvent::IssueComment));
    t.push(("release".to_owned(), BareEvent::Release));
    proof {
        assert(table_view(t@) =~= spec_event_table());
    }
    t
}

/// The canonical keyword of a trigger event, as the format spells it.
pub open spec fn spec_event_keyword(e: BareEvent) -> Seq<char> {
    match e {
        BareEvent::Push => "push"@,
        BareEvent::Fork => "fork"@,
        BareEvent::PullRequest => "pull_request"@,
        BareEvent::WorkflowDispatch => "workflow_dispatch"@,
        BareEvent::WorkflowCall => "workflow_call"@,
        BareEvent::Issues => "issues"@,
        BareEvent::IssueComment => "issue_comment"@,
        BareEvent::Release => "release"@,
    }
}

/// Writes a trigger event as its canonical keyword.
pub fn encode_event(e: BareEvent) -> (kw: String)
    ensures
        kw@ == spec_event_keyword(e),
{
    match e {
        BareEvent::Push => "push".to_owned(),
        BareEvent::Fork => "fork".to_owned(),
        BareEvent::PullRequest => "pull_request".to_owned(),
        BareEvent::WorkflowDispatch => "workflow_dispatch".to_owned(),
        BareEvent::WorkflowCall => "workflow_call".to_owned(),
        BareEvent::Issues => "issues".to_owned(),
        BareEvent::IssueComment => "issue_comment".to_owned(),
        BareEvent::Release => "release".to_owned(),
    }
}

/// Looking a canonical event keyword up finds its own event: the
/// keyword folds onto its declared table entry and onto no earlier one.
pub proof fn lemma_event_lookup(e: BareEvent)
    ensures
        spec_table_lookup(spec_event_keyword(e), spec_event_table()) == Option::Some(e),
{
    reveal_strlit("push");
    reveal_strlit("fork");
    reveal_strlit("pull-request");
    reveal_strlit("pull_request");
    reveal_strlit("workflow-dispatch");
    reveal_strlit("workflow_dispatch");
    reveal_strlit("workflow-call");
    reveal_strlit("workflow_call");
    reveal_strlit("issues");
    reveal_strlit("issue-comment");
    reveal_strlit("issue_comment");
    reveal_strlit("release");
    reveal_with_fuel(spec_table_lookup, 10);
    assert("push"@.len() == 4 && "fork"@.len() == 4 && "pull-request"@.len() == 12
        && "workflow-dispatch"@.len() == 17 && "workflow-call"@.len() == 13 && "issues"@.len() == 6
        && "issue-comment"@.len() == 13 && "release"@.len() == 7);
    assert("push"@[0] == 'p' && "fork"@[0] == 'f' && "issue-comment"@[0] == 'i'
        && "workflow-call"@[0] == 'w' && "issue_comment"@[0] == 'i');
    match e {
        BareEvent::Push => {
            assert(keyword_folds_to("push"@, "push"@));
        },
        BareEvent::Fork => {
            assert(!crate::keyword::fold_matches("fork"@[0], "push"@[0]));
            assert(!keyword_folds_to("fork"@, "push"@));
            assert(keyword_folds_to("fork"@, "fork"@));
        },
        BareEvent::PullRequest => {
            assert(keyword_folds_to("pull_request"@, "pull-request"@));
        },
        BareEvent::WorkflowDispatch => {
            assert(keyword_folds_to("workflow_dispatch"@, "workflow-dispatch"@));
        },
        BareEvent::WorkflowCall => {
            assert(keyword_folds_to("workflow_call"@, "workflow-call"@));
        },
        BareEvent::Issues => {
            assert(keyword_folds_to("issues"@, "issues"@));
        },
        BareEvent::IssueComment => {
            assert(!crate::keyword::fold_matches("issue_comment"@[0], "workflow-call"@[0]));
            assert(!keyword_folds_to("issue_comment"@, "workflow-call"@));
            assert(keyword_folds_to("issue_comment"@, "issue-comment"@));
        },
        BareEvent::Release => {
            assert(keyword_folds_to("release"@, "release"@));
        },
    }
}

/// The detailed configuration a mapping-shaped trigger may attach to
/// one event.
#[derive(Debug, Clone, PartialEq)]
pub struct EventConfig {
    pub branches: Option<SoV<String>>,
}

/// The ghost form of an event configuration.
pub struct SpecEventConfig {
    pub branches: Option<SpecSoVText>,
}

impl View for EventConfig {
    type V = SpecEventConfig;

    open spec fn view(&self) -> SpecEventConfig {
        SpecEventConfig {
            branches: match &self.branches {
                Option::Some(b) => Option::Some(b@),
                Option::None => Option::None,
            },
        }
    }
}

/// The declared field names of an event configuration.
pub open spec fn spec_event_config_keys() -> Seq<Seq<char>> {
    seq!["branches"@]
}

/// Decoding an event configuration record.
pub open spec fn spec_decode_event_config(n: Node, policy: UnknownFieldPolicy) -> Result<
    SpecEventConfig,
    SpecErr,
> {
    match n.kind {
        NodeKind::Mapping(es) => match spec_check_keys(
            es@,
            spec_event_config_keys(),
            policy,
            n.loc,
        ) {
            Result::Err(e) => Result::Err(e),
            Result::Ok(_) => match spec_lookup(es@, "branches"@) {
                Option::None => Result::Ok(SpecEventConfig { branches: Option::None }),
                Option::Some(bn) => if bn.kind is Null {
                    Result::Ok(SpecEventConfig { branches: Option::None })
                } else {
                    match spec_decode_sov_text(bn) {
                        Result::Err(e) => Result::Err(spec_under_key("branches"@, e)),
                        Result::Ok(b) => Result::Ok(SpecEventConfig { branches: Option::Some(b) }),
                    }
                },
            },
        },
        _ => Result::Err(
            spec_err(
                SpecErrKind::ShapeMismatch {
                    expected: KindName::MappingKind,
                    found: n.spec_kind_name(),
                },
                n.loc,
            ),
        ),
    }
}

/// Decodes an event configuration record.
pub fn decode_event_config(n: &Node, policy: UnknownFieldPolicy) -> (r: Result<
    EventConfig,
    DecodeError,
>)
    ensures
        match r {
            Result::Ok(v) => spec_decode_event_config(*n, policy) == Result::<
                SpecEventConfig,
                SpecErr,
            >::Ok(v@),
            Result::Err(e) => spec_decode_event_config(*n, policy) == Result::<
                SpecEventConfig,
                SpecErr,
            >::Err(e@),
        },
{
    let entries = match &n.kind {
        NodeKind::Mapping(es) => es,
        _ => {
            return Result::Err(
                DecodeError::at(
                    ErrorKind::ShapeMismatch {
                        expected: KindName::MappingKind,
                        found: n.kind_name(),
                    },
                    n.loc,
                ),
            );
        },
    };
    let mut allowed: Vec<String> = Vec::new();
    allowed.push("branches".to_owned());
    proof {
        assert(allowed@.map_values(|s: String| s@) =~= spec_event_config_keys());
    }
    match check_keys(entries, &allowed, policy, n.loc) {
        Result::Ok(_) => {},
        Result::Err(e) => {
            return Result::Err(e);
        },
    }
    match lookup(entries, "branches") {
        Option::None => Result::Ok(EventConfig { branches: Option::None }),
        Option::Some(bn) => if matches!(&bn.kind, NodeKind::Null) {
            Result::Ok(EventConfig { branches: Option::None })
        } else {
            match decode_sov_text(bn) {
                Result::Err(e) => Result::Err(e.under_key("branches")),
                Result::Ok(b) => Result::Ok(EventConfig { branches: Option::Some(b) }),
            }
        },
    }
}

/// The mapping shape of a trigger: events in document order, each with
/// an optional configuration record.
#[derive(Debug, PartialEq)]
pub struct Events {
    pub entries: Vec<(BareEvent, Option<EventConfig>)>,
}

/// The ghost form of the mapping trigger shape.
pub open spec fn events_view(entries: Seq<(BareEvent, Option<EventConfig>)>) -> Seq<
    (BareEvent, Option<SpecEventConfig>),
> {
    entries.map_values(
        |p: (BareEvent, Option<EventConfig>)|
            (
                p.0,
                match p.1 {
                    Option::Some(c) => Option::Some(c@),
                    Option::None => Option::None,
                },
            ),
    )
}

/// Decoding the entries of a mapping-shaped trigger: each key must be a
/// declared event keyword; a null value attaches no configuration.
pub open spec fn spec_decode_event_entries(
    entries: Seq<(String, Node)>,
    policy: UnknownFieldPolicy,
) -> Result<Seq<(BareEvent, Option<SpecEventConfig>)>, SpecErr>
    decreases entries.len(),
{
    if entries.len() == 0 {
        Result::Ok(Seq::empty())
    } else {
        let key = entries[0].0;
        let val = entries[0].1;
        match spec_table_lookup(key@, spec_event_table()) {
            Option::None => Result::Err(
                spec_under_key(
                    key@,
                    spec_err(
                        SpecErrKind::UnknownVariant {
                            found: key@,
                            legal: crate::keyword::table_keys(spec_event_table()),
                        },
                        val.loc,
                    ),
                ),
            ),
            Option::Some(ev) => {
                let cfg = if val.kind is Null {
                    Result::Ok(Option::None)
                } else {
                    match spec_decode_event_config(val, policy) {
                        Result::Err(e) => Result::Err(spec_under_key(key@, e)),
                        Result::Ok(c) => Result::Ok(Option::Some(c)),
                    }
                };
                match cfg {
                    Result::Err(e) => Result::Err(e),
                    Result::Ok(c) => match spec_decode_event_entries(
                        entries.drop_first(),
                        policy,
                    ) {
                        Result::Err(e) => Result::Err(e),
                        Result::Ok(rest) => Result::Ok(seq![(ev, c)] + rest),
                    },
                }
            },
        }
    }
}

/// Decodes the entries of a mapping-shaped trigger.
pub fn decode_event_entries(entries: &Vec<(String, Node)>, policy: UnknownFieldPolicy) -> (r:
    Result<Vec<(BareEvent, Option<EventConfig>)>, DecodeError>)
    ensures
        match r {
            Result::Ok(v) => spec_decode_event_entries(entries@, policy) == Result::<
                Seq<(BareEvent, Option<SpecEventConfig>)>,
                SpecErr,
            >::Ok(events_view(v@)),
            Result::Err(e) => spec_decode_event_entries(entries@, policy) == Result::<
                Seq<(BareEvent, Option<SpecEventConfig>)>,
                SpecErr,
            >::Err(e@),
        },
{
    let table = event_table();
    let mut acc: Vec<(BareEvent, Option<EventConfig>)> = Vec::new();
    let mut i: usize = 0;
    assert(entries@.skip(0) =~= entries@);
    assert(events_view(acc@) =~= Seq::<(BareEvent, Option<SpecEventConfig>)>::empty());
    while i < entries.len()
        invariant
            i <= entries@.len(),
            table_view(table@) == spec_event_table(),
            match spec_decode_event_entries(entries@.skip(i as int), policy) {
                Result::Ok(rest) => spec_decode_event_entries(entries@, policy) == Result::<
                    Seq<(BareEvent, Option<SpecEventConfig>)>,
                    SpecErr,
                >::Ok(events_view(acc@) + rest),
                Result::Err(e) => spec_decode_event_entries(entries@, policy) == Result::<
                    Seq<(BareEvent, Option<SpecEventConfig>)>,
                    SpecErr,
                >::Err(e),
            },
        decreases entries@.len() - i,
    {
        assert(entries@.skip(i as int)[0] == entries@[i as int]);
        assert(entries@.skip(i as int).drop_first() =~= entries@.skip(i as int + 1));
        let key = &entries[i].0;
        let val = &entries[i].1;
        let ev = match crate::keyword::table_lookup(key.as_str(), &table) {
            Option::Some(ev) => ev,
            Option::None => {
                let e = DecodeError::at(
                    ErrorKind::UnknownVariant {
                        found: key.clone(),
                        legal: crate::keyword::table_legal_keys(&table),
                    },
                    val.loc,
                );
                return Result::Err(e.under_key(key.as_str()));
            },
        };
        let cfg: Option<EventConfig> = if matches!(&val.kind, NodeKind::Null) {
            Option::None
        } else {
            match decode_event_config(val, policy) {
                Result::Err(e) => {
                    return Result::Err(e.under_key(key.as_str()));
                },
                Result::Ok(c) => Option::Some(c),
            }
        };
        let ghost old_acc = acc@;
        let ghost cv = (
            ev,
            match &cfg {
                Option::Some(c) => Option::Some(c@),
                Option::None => Option::<SpecEventConfig>::None,
            },
        );
        acc.push((ev, cfg));
        proof {
            assert(events_view(acc@) =~= events_view(old_acc) + seq![cv]);
            if spec_decode_event_entries(entries@.skip(i as int + 1), policy) is Ok {
                assert(events_view(old_acc) + (seq![cv] + spec_decode_event_entries(
                    entries@.skip(i as int + 1),
                    policy,
                )->Ok_0) =~= events_view(acc@) + spec_decode_event_entries(
                    entries@.skip(i as int + 1),
                    policy,
                )->Ok_0);
            }
        }
        i = i + 1;
    }
    proof {
        assert(entries@.skip(i as int) =~= Seq::<(String, Node)>::empty());
        assert(events_view(acc@) + Seq::<(BareEvent, Option<SpecEventConfig>)>::empty()
            =~= events_view(acc@));
    }
    Result::Ok(acc)
}

/// The triggering condition of a workflow: one bare event keyword, a
/// list of bare event keywords, or a mapping from event keywords to
/// optional configuration records.
#[derive(Debug, PartialEq)]
pub enum Trigger {
    BareEvent(BareEvent),
    BareEvents(Vec<BareEvent>),
    Events(Box<Events>),
}

/// The ghost form of a trigger.
pub enum SpecTrigger {
    BareEvent(BareEvent),
    BareEvents(Seq<BareEvent>),
    Events(Seq<(BareEvent, Option<SpecEventConfig>)>),
}

impl View for Trigger {
    type V = SpecTrigger;

    open spec fn view(&self) -> SpecTrigger {
        match self {
            Trigger::BareEvent(e) => SpecTrigger::BareEvent(*e),
            Trigger::BareEvents(v) => SpecTrigger::BareEvents(v@),
            Trigger::Events(b) => SpecTrigger::Events(events_view(b.entries@)),
        }
    }
}

/// The candidate shapes of a trigger, in declared precedence order:
/// bare keyword, then list, then mapping.  A sequence and a mapping are
/// distinct node kinds, so the order between them never actually
/// decides, but it is declared and tried literally all the same.
pub open spec fn spec_trigger_shapes() -> Seq<SpecShape> {
    seq![SpecShape::TextScalar, SpecShape::SequenceShape, SpecShape::MappingShape]
}

/// Decoding a list of bare event keywords; a failing element is
/// reported under its index.
pub open spec fn spec_decode_event_items(items: Seq<Node>, idx: int) -> Result<
    Seq<BareEvent>,
    SpecErr,
>
    decreases items.len(),
{
    if items.len() == 0 {
        Result::Ok(Seq::empty())
    } else {
        match spec_resolve_enum(
            Option::Some(items[0]),
            spec_event_table(),
            BareEvent::Push,
        ) {
            Result::Err(e) => Result::Err(spec_under_index(idx, e)),
            Result::Ok(ev) => match spec_decode_event_items(items.drop_first(), idx + 1) {
                Result::Err(e) => Result::Err(e),
                Result::Ok(rest) => Result::Ok(seq![ev] + rest),
            },
        }
    }
}

/// Decoding a trigger: the first candidate shape that accepts the node
/// decides.
pub open spec fn spec_decode_trigger(n: Node, policy: UnknownFieldPolicy) -> Result<
    SpecTrigger,
    SpecErr,
> {
    match spec_resolve(spec_trigger_shapes(), n) {
        Option::Some(i) => if i == 0 {
            match spec_resolve_enum(Option::Some(n), spec_event_table(), BareEvent::Push) {
                Result::Err(e) => Result::Err(e),
                Result::Ok(ev) => Result::Ok(SpecTrigger::BareEvent(ev)),
            }
        } else if i == 1 {
            match spec_decode_event_items(n.kind->Sequence_0@, 0) {
                Result::Err(e) => Result::Err(e),
                Result::Ok(evs) => Result::Ok(SpecTrigger::BareEvents(evs)),
            }
        } else {
            match spec_decode_event_entries(n.kind->Mapping_0@, policy) {
                Result::Err(e) => Result::Err(e),
                Result::Ok(es) => Result::Ok(SpecTrigger::Events(es)),
            }
        },
        Option::None => Result::Err(
            spec_err(
                SpecErrKind::NoMatchingShape {
                    found: n.spec_kind_name(),
                    tried: spec_trigger_shapes(),
                },
                n.loc,
            ),
        ),
    }
}

/// Decodes a trigger.
pub fn decode_trigger(n: &Node, policy: UnknownFieldPolicy) -> (r: Result<Trigger, DecodeError>)
    ensures
        match r {
            Result::Ok(v) => spec_decode_trigger(*n, policy) == Result::<SpecTrigger, SpecErr>::Ok(
                v@,
            ),
            Result::Err(e) => spec_decode_trigger(*n, policy) == Result::<
                SpecTrigger,
                SpecErr,
            >::Err(e@),
        },
{
    let mut candidates: Vec<Shape> = Vec::new();
    candidates.push(Shape::TextScalar);
    candidates.push(Shape::SequenceShape);
    candidates.push(Shape::MappingShape);
    proof {
        assert(candidates@.map_values(|s: Shape| s@) =~= spec_trigger_shapes());
    }
    match crate::shape::resolve_first(&candidates, n) {
        Option::Some(i) => {
            proof {
                crate::shape::lemma_resolve_first_match(spec_trigger_shapes(), *n);
            }
            if i == 0 {
                let table = event_table();
                match resolve_enum(Option::Some(n), &table, BareEvent::Push) {
                    Result::Err(e) => Result::Err(e),
                    Result::Ok(ev) => Result::Ok(Trigger::BareEvent(ev)),
                }
            } else if i == 1 {
                let items = match &n.kind {
                    NodeKind::Sequence(items) => items,
                    _ => unreached(),
                };
                let ghost ri = i as int;
                let table = event_table();
                let mut acc: Vec<BareEvent> = Vec::new();
                let mut j: usize = 0;
                assert(items@.skip(0) =~= items@);
                while j < items.len()
                    invariant
                        j <= items@.len(),
                        spec_resolve(spec_trigger_shapes(), *n) == Option::Some(ri),
                        ri == 1,
                        n.kind == NodeKind::Sequence(*items),
                        table_view(table@) == spec_event_table(),
                        acc@.len() == j,
                        match spec_decode_event_items(items@.skip(j as int), j as int) {
                            Result::Ok(rest) => spec_decode_event_items(items@, 0) == Result::<
                                Seq<BareEvent>,
                                SpecErr,
                            >::Ok(acc@ + rest),
                            Result::Err(e) => spec_decode_event_items(items@, 0) == Result::<
                                Seq<BareEvent>,
                                SpecErr,
                            >::Err(e),
                        },
                    decreases items@.len() - j,
                {
                    assert(items@.skip(j as int)[0] == items@[j as int]);
                    assert(items@.skip(j as int).drop_first() =~= items@.skip(j as int + 1));
                    match resolve_enum(Option::Some(&items[j]), &table, BareEvent::Push) {
                        Result::Err(e) => {
                            return Result::Err(e.under_index(j));
                        },
                        Result::Ok(ev) => {
                            let ghost old_acc = acc@;
                            acc.push(ev);
                            proof {
                                if spec_decode_event_items(items@.skip(j as int + 1), j as int
                                    + 1) is Ok {
                                    assert(old_acc + (seq![ev] + spec_decode_event_items(
                                        items@.skip(j as int + 1),
                                        j as int + 1,
                                    )->Ok_0) =~= acc@ + spec_decode_event_items(
                                        items@.skip(j as int + 1),
                                        j as int + 1,
                                    )->Ok_0);
                                }
                            }
                        },
                    }
                    j = j + 1;
                }
                proof {
                    assert(items@.skip(j as int) =~= Seq::<Node>::empty());
                    assert(acc@ + Seq::<BareEvent>::empty() =~= acc@);
                }
                Result::Ok(Trigger::BareEvents(acc))
            } else {
                let entries = match &n.kind {
                    NodeKind::Mapping(es) => es,
                    _ => unreached(),
                };
                match decode_event_entries(entries, policy) {
                    Result::Err(e) => Result::Err(e),
                    Result::Ok(es) => Result::Ok(Trigger::Events(Box::new(Events { entries: es }))),
                }
            }
        },
        Option::None => Result::Err(
            DecodeError::at(
                ErrorKind::NoMatchingShape { found: n.kind_name(), tried: candidates },
                n.loc,
            ),
        ),
    }
}

/// A node carrying an optional text value: the text itself, or null
/// when the value is not given.
fn opt_text_node(o: &Option<String>) -> (n: Node)
    ensures
        match o {
            Option::Some(s) => n.kind == NodeKind::Text(*s),
            Option::None => n.kind is Null,
        },
{
    match o {
        Option::Some(s) => Node::new(NodeKind::Text(s.clone())),
        Option::None => Node::new(NodeKind::Null),
    }
}

/// Writes an event configuration back as a mapping node.  Decoding the
/// result under either policy gives the configuration back.
pub fn encode_event_config(c: &EventConfig) -> (n: Node)
    ensures
        n.kind is Mapping,
        forall|pol: UnknownFieldPolicy| #[trigger]
            spec_decode_event_config(n, pol) == Result::<SpecEventConfig, SpecErr>::Ok(c@),
{
    let mut entries: Vec<(String, Node)> = Vec::new();
    let branches_node = match &c.branches {
        Option::Some(b) => encode_sov_text(b),
        Option::None => Node::new(NodeKind::Null),
    };
    entries.push(("branches".to_owned(), branches_node));
    let n = Node::new(NodeKind::Mapping(entries));
    proof {
        let es = n.kind->Mapping_0@;
        reveal_strlit("branches");
        reveal_with_fuel(spec_lookup, 3);
        reveal_with_fuel(spec_first_unknown, 3);
        assert(es[0].0@ == "branches"@);
        assert(spec_lookup(es, "branches"@) == Option::Some(es[0].1));
        assert(key_allowed("branches"@, spec_event_config_keys())) by {
            assert(spec_event_config_keys()[0] == "branches"@);
        }
        assert(spec_first_unknown(es, spec_event_config_keys()) is None);
    }
    n
}

/// Text nodes carrying canonical event keywords decode, as a list, to
/// those events, from any starting index.
proof fn lemma_event_items_roundtrip(items: Seq<Node>, evs: Seq<BareEvent>, idx: int)
    requires
        items.len() == evs.len(),
        forall|i: int|
            0 <= i < items.len() ==> (#[trigger] items[i].kind) == NodeKind::Text(
                items[i].kind->Text_0,
            ) && items[i].kind->Text_0@ == spec_event_keyword(evs[i]),
    ensures
        spec_decode_event_items(items, idx) == Result::<Seq<BareEvent>, SpecErr>::Ok(evs),
    decreases items.len(),
{
    if items.len() == 0 {
        assert(evs =~= Seq::<BareEvent>::empty());
    } else {
        lemma_event_lookup(evs[0]);
        lemma_event_items_roundtrip(items.drop_first(), evs.drop_first(), idx + 1);
        assert(evs =~= seq![evs[0]] + evs.drop_first());
    }
}

/// Entries whose keys are canonical event keywords and whose values are
/// null or decode back to their own configurations decode, as a list,
/// to the matching trigger entries.
proof fn lemma_event_entries_roundtrip(
    entries: Seq<(String, Node)>,
    evs: Seq<(BareEvent, Option<SpecEventConfig>)>,
    policy: UnknownFieldPolicy,
)
    requires
        entries.len() == evs.len(),
        forall|i: int|
            0 <= i < entries.len() ==> (#[trigger] entries[i].0@) == spec_event_keyword(evs[i].0)
                && match evs[i].1 {
                Option::None => entries[i].1.kind is Null,
                Option::Some(c) => !(entries[i].1.kind is Null) && spec_decode_event_config(
                    entries[i].1,
                    policy,
                ) == Result::<SpecEventConfig, SpecErr>::Ok(c),
            },
    ensures
        spec_decode_event_entries(entries, policy) == Result::<
            Seq<(BareEvent, Option<SpecEventConfig>)>,
            SpecErr,
        >::Ok(evs),
    decreases entries.len(),
{
    if entries.len() == 0 {
        assert(evs =~= Seq::<(BareEvent, Option<SpecEventConfig>)>::empty());
    } else {
        lemma_event_lookup(evs[0].0);
        lemma_event_entries_roundtrip(entries.drop_first(), evs.drop_first(), policy);
        assert(evs =~= seq![evs[0]] + evs.drop_first());
        assert(evs[0] == (evs[0].0, evs[0].1));
    }
}

/// Writes a trigger back as a node: a single event as its keyword, a
/// list as a sequence of keywords, a configured trigger as a mapping.
/// Decoding the result under either policy gives the trigger back:
/// encode followed by decode is the identity on triggers.
pub fn encode_trigger(t: &Trigger) -> (n: Node)
    ensures
        n.kind is Text || n.kind is Sequence || n.kind is Mapping,
        forall|pol: UnknownFieldPolicy| #[trigger]
            spec_decode_trigger(n, pol) == Result::<SpecTrigger, SpecErr>::Ok(t@),
{
    match t {
        Trigger::BareEvent(e) => {
            let n = Node::new(NodeKind::Text(encode_event(*e)));
            proof {
                assert(spec_resolve(spec_trigger_shapes(), n) == Option::<int>::Some(0));
                lemma_event_lookup(*e);
            }
            n
        },
        Trigger::BareEvents(evs) => {
            let mut items: Vec<Node> = Vec::new();
            let mut i: usize = 0;
            while i < evs.len()
                invariant
                    i <= evs@.len(),
                    items@.len() == i,
                    forall|j: int|
                        0 <= j < i ==> (#[trigger] items@[j].kind) == NodeKind::Text(
                            items@[j].kind->Text_0,
                        ) && items@[j].kind->Text_0@ == spec_event_keyword(evs@[j]),
                decreases evs@.len() - i,
            {
                items.push(Node::new(NodeKind::Text(encode_event(evs[i]))));
                i = i + 1;
            }
            let n = Node::new(NodeKind::Sequence(items));
            proof {
                reveal_with_fuel(spec_resolve, 3);
                assert(spec_trigger_shapes().drop_first() =~= seq![
                    SpecShape::SequenceShape,
                    SpecShape::MappingShape,
                ]);
                assert(spec_resolve(spec_trigger_shapes(), n) == Option::<int>::Some(1));
                lemma_event_items_roundtrip(n.kind->Sequence_0@, evs@, 0);
            }
            n
        },
        Trigger::Events(b) => {
            let evs = &b.entries;
            let mut entries: Vec<(String, Node)> = Vec::new();
            let mut i: usize = 0;
            while i < evs.len()
                invariant
                    i <= evs@.len(),
                    entries@.len() == i,
                    forall|j: int|
                        0 <= j < i ==> (#[trigger] entries@[j].0@) == spec_event_keyword(
                            evs@[j].0,
                        ) && match events_view(evs@)[j].1 {
                            Option::None => entries@[j].1.kind is Null,
                            Option::Some(c) => !(entries@[j].1.kind is Null)
                                && forall|pol: UnknownFieldPolicy| #[trigger]
                                spec_decode_event_config(entries@[j].1, pol) == Result::<
                                    SpecEventConfig,
                                    SpecErr,
                                >::Ok(c),
                        },
                decreases evs@.len() - i,
            {
                let val = match &evs[i].1 {
                    Option::Some(c) => encode_event_config(c),
                    Option::None => Node::new(NodeKind::Null),
                };
                entries.push((encode_event(evs[i].0), val));
                proof {
                    assert(events_view(evs@)[i as int].1 == match evs@[i as int].1 {
                        Option::Some(c) => Option::Some(c@),
                        Option::None => Option::<SpecEventConfig>::None,
                    });
                }
                i = i + 1;
            }
            let n = Node::new(NodeKind::Mapping(entries));
            proof {
                reveal_with_fuel(spec_resolve, 4);
                assert(spec_trigger_shapes().drop_first() =~= seq![
                    SpecShape::SequenceShape,
                    SpecShape::MappingShape,
                ]);
                assert(spec_trigger_shapes().drop_first().drop_first() =~= seq![
                    SpecShape::MappingShape,
                ]);
                assert(spec_resolve(spec_trigger_shapes(), n) == Option::<int>::Some(2));
                assert(events_view(evs@).len() == evs@.len());
                assert forall|pol: UnknownFieldPolicy| #[trigger] spec_decode_trigger(n, pol)
                    == Result::<SpecTrigger, SpecErr>::Ok(t@) by {
                    lemma_event_entries_roundtrip(n.kind->Mapping_0@, events_view(evs@), pol);
                }
            }
            n
        },
    }
}

/// An optional text field: an absent key or a null value means the
/// field is not given; any other non-text value is rejected under the
/// field's key.
pub open spec fn spec_text_field(entries: Seq<(String, Node)>, key: Seq<char>) -> Result<
    Option<Seq<char>>,
    SpecErr,
> {
    match spec_lookup(entries, key) {
        Option::None => Result::Ok(Option::None),
        Option::Some(v) => match v.kind {
            NodeKind::Null => Result::Ok(Option::None),
            NodeKind::Text(s) => Result::Ok(Option::Some(s@)),
            _ => Result::Err(
                spec_under_key(
                    key,
                    spec_err(
                        SpecErrKind::TypeMismatch {
                            expected: KindName::TextKind,
                            found: v.spec_kind_name(),
                        },
                        v.loc,
                    ),
                ),
            ),
        },
    }
}

/// Reads an optional text field of a record.
pub fn text_field(entries: &Vec<(String, Node)>, key: &str) -> (r: Result<
    Option<String>,
    DecodeError,
>)
    ensures
        match r {
            Result::Ok(v) => spec_text_field(entries@, key@) == Result::<
                Option<Seq<char>>,
                SpecErr,
            >::Ok(
                match v {
                    Option::Some(s) => Option::Some(s@),
                    Option::None => Option::None,
                },
            ),
            Result::Err(e) => spec_text_field(entries@, key@) == Result::<
                Option<Seq<char>>,
                SpecErr,
            >::Err(e@),
        },
{
    match lookup(entries, key) {
        Option::None => Result::Ok(Option::None),
        Option::Some(v) => match &v.kind {
            NodeKind::Null => Result::Ok(Option::None),
            NodeKind::Text(s) => Result::Ok(Option::Some(s.clone())),
            _ => {
                let e = DecodeError::at(
                    ErrorKind::TypeMismatch {
                        expected: KindName::TextKind,
                        found: v.kind_name(),
                    },
                    v.loc,
                );
                Result::Err(e.under_key(key))
            },
        },
    }
}

/// A required text field: an absent key or a null value is a missing
/// required field; any other non-text value is rejected under the key.
pub open spec fn spec_required_text_field(
    entries: Seq<(String, Node)>,
    key: Seq<char>,
    loc: Option<u64>,
) -> Result<Seq<char>, SpecErr> {
    match spec_text_field(entries, key) {
        Result::Err(e) => Result::Err(e),
        Result::Ok(Option::Some(s)) => Result::Ok(s),
        Result::Ok(Option::None) => Result::Err(
            spec_err(SpecErrKind::MissingRequiredField { field: key }, loc),
        ),
    }
}

/// Reads a required text field of a record; `loc` is the record node's
/// location, reported when the field is missing.
pub fn required_text_field(entries: &Vec<(String, Node)>, key: &str, loc: Option<u64>) -> (r:
    Result<String, DecodeError>)
    ensures
        match r {
            Result::Ok(s) => spec_required_text_field(entries@, key@, loc) == Result::<
                Seq<char>,
                SpecErr,
            >::Ok(s@),
            Result::Err(e) => spec_required_text_field(entries@, key@, loc) == Result::<
                Seq<char>,
                SpecErr,
            >::Err(e@),
        },
{
    match text_field(entries, key) {
        Result::Err(e) => Result::Err(e),
        Result::Ok(Option::Some(s)) => Result::Ok(s),
        Result::Ok(Option::None) => Result::Err(
            DecodeError::at(ErrorKind::MissingRequiredField { field: key.to_owned() }, loc),
        ),
    }
}

/// A permissions field: absent or null means the declared default, the
/// base keyword `default`.
pub open spec fn spec_permissions_field(
    entries: Seq<(String, Node)>,
    policy: UnknownFieldPolicy,
) -> Result<Permissions, SpecErr> {
    match spec_lookup(entries, "permissions"@) {
        Option::None => Result::Ok(Permissions::Base(crate::common::BasePermission::Default)),
        Option::Some(v) => if v.kind is Null {
            Result::Ok(Permissions::Base(crate::common::BasePermission::Default))
        } else {
            match spec_decode_permissions(v, policy) {
                Result::Err(e) => Result::Err(spec_under_key("permissions"@, e)),
                Result::Ok(p) => Result::Ok(p),
            }
        },
    }
}

/// Reads the permissions field of a record, defaulting when absent.
pub fn permissions_field(entries: &Vec<(String, Node)>, policy: UnknownFieldPolicy) -> (r: Result<
    Permissions,
    DecodeError,
>)
    ensures
        res_view(r) == spec_permissions_field(entries@, policy),
{
    match lookup(entries, "permissions") {
        Option::None => Result::Ok(Permissions::Base(crate::common::BasePermission::Default)),
        Option::Some(v) => if matches!(&v.kind, NodeKind::Null) {
            Result::Ok(Permissions::Base(crate::common::BasePermission::Default))
        } else {
            match decode_permissions(v, policy) {
                Result::Err(e) => Result::Err(e.under_key("permissions")),
                Result::Ok(p) => Result::Ok(p),
            }
        },
    }
}

/// An environment field under the given key: absent or null means an
/// empty block.
pub open spec fn spec_env_field(entries: Seq<(String, Node)>, key: Seq<char>) -> Result<
    Seq<(Seq<char>, SpecEnvValue)>,
    SpecErr,
> {
    match spec_lookup(entries, key) {
        Option::None => Result::Ok(Seq::empty()),
        Option::Some(v) => if v.kind is Null {
            Result::Ok(Seq::empty())
        } else {
            match spec_decode_env(v) {
                Result::Err(e) => Result::Err(spec_under_key(key, e)),
                Result::Ok(env) => Result::Ok(env),
            }
        },
    }
}

/// Reads an environment field of a record, defaulting to empty.
pub fn env_field(entries: &Vec<(String, Node)>, key: &str) -> (r: Result<Env, DecodeError>)
    ensures
        match r {
            Result::Ok(v) => spec_env_field(entries@, key@) == Result::<
                Seq<(Seq<char>, SpecEnvValue)>,
                SpecErr,
            >::Ok(env_view(v@)),
            Result::Err(e) => spec_env_field(entries@, key@) == Result::<
                Seq<(Seq<char>, SpecEnvValue)>,
                SpecErr,
            >::Err(e@),
        },
{
    match lookup(entries, key) {
        Option::None => {
            let v: Env = Vec::new();
            proof {
                assert(env_view(v@) =~= Seq::<(Seq<char>, SpecEnvValue)>::empty());
            }
            Result::Ok(v)
        },
        Option::Some(v) => if matches!(&v.kind, NodeKind::Null) {
            let v: Env = Vec::new();
            proof {
                assert(env_view(v@) =~= Seq::<(Seq<char>, SpecEnvValue)>::empty());
            }
            Result::Ok(v)
        } else {
            match decode_env(v) {
                Result::Err(e) => Result::Err(e.under_key(key)),
                Result::Ok(env) => Result::Ok(env),
            }
        },
    }
}

/// A boolean-or-expression field under the given key: absent or null
/// means the literal `false`.
pub open spec fn spec_boe_field(entries: Seq<(String, Node)>, key: Seq<char>) -> Result<
    SpecBoE,
    SpecErr,
> {
    match spec_lookup(entries, key) {
        Option::None => Result::Ok(SpecBoE::Literal(false)),
        Option::Some(v) => if v.kind is Null {
            Result::Ok(SpecBoE::Literal(false))
        } else {
            match spec_decode_boe(v) {
                Result::Err(e) => Result::Err(spec_under_key(key, e)),
                Result::Ok(b) => Result::Ok(b),
            }
        },
    }
}

/// Reads a boolean-or-expression field of a record, defaulting to the
/// literal `false`.
pub fn boe_field(entries: &Vec<(String, Node)>, key: &str) -> (r: Result<BoE, DecodeError>)
    ensures
        match r {
            Result::Ok(v) => spec_boe_field(entries@, key@) == Result::<SpecBoE, SpecErr>::Ok(v@)
                && boe_wf(v@),
            Result::Err(e) => spec_boe_field(entries@, key@) == Result::<SpecBoE, SpecErr>::Err(
                e@,
            ),
        },
{
    match lookup(entries, key) {
        Option::None => Result::Ok(LoE::Literal(false)),
        Option::Some(v) => if matches!(&v.kind, NodeKind::Null) {
            Result::Ok(LoE::Literal(false))
        } else {
            match decode_boe(v) {
                Result::Err(e) => Result::Err(e.under_key(key)),
                Result::Ok(b) => Result::Ok(b),
            }
        },
    }
}

/// Default settings a workflow applies to its runs.
#[derive(Debug, Clone, PartialEq)]
pub struct RunDefaults {
    pub shell: Option<String>,
    pub working_directory: Option<String>,
}

/// The ghost form of run defaults.
pub struct SpecRunDefaults {
    pub shell: Option<Seq<char>>,
    pub working_directory: Option<Seq<char>>,
}

/// The ghost form of an optional text value.
pub open spec fn opt_text_view(o: Option<String>) -> Option<Seq<char>> {
    match o {
        Option::Some(s) => Option::Some(s@),
        Option::None => Option::None,
    }
}

impl View for RunDefaults {
    type V = SpecRunDefaults;

    open spec fn view(&self) -> SpecRunDefaults {
        SpecRunDefaults {
            shell: opt_text_view(self.shell),
            working_directory: opt_text_view(self.working_directory),
        }
    }
}

/// The declared field names of the run defaults record.
pub open spec fn spec_run_defaults_keys() -> Seq<Seq<char>> {
    seq!["shell"@, "working-directory"@]
}

/// Decoding the run defaults record: both fields optional text.
pub open spec fn spec_decode_run_defaults(n: Node, policy: UnknownFieldPolicy) -> Result<
    SpecRunDefaults,
    SpecErr,
> {
    match n.kind {
        NodeKind::Mapping(es) => match spec_check_keys(
            es@,
            spec_run_defaults_keys(),
            policy,
            n.loc,
        ) {
            Result::Err(e) => Result::Err(e),
            Result::Ok(_) => match spec_text_field(es@, "shell"@) {
                Result::Err(e) => Result::Err(e),
                Result::Ok(shell) => match spec_text_field(es@, "working-directory"@) {
                    Result::Err(e) => Result::Err(e),
                    Result::Ok(working_directory) => Result::Ok(
                        SpecRunDefaults { shell, working_directory },
                    ),
                },
            },
        },
        _ => Result::Err(
            spec_err(
                SpecErrKind::ShapeMismatch {
                    expected: KindName::MappingKind,
                    found: n.spec_kind_name(),
                },
                n.loc,
            ),
        ),
    }
}

/// Decodes the run defaults record.
pub fn decode_run_defaults(n: &Node, policy: UnknownFieldPolicy) -> (r: Result<
    RunDefaults,
    DecodeError,
>)
    ensures
        match r {
            Result::Ok(v) => spec_decode_run_defaults(*n, policy) == Result::<
                SpecRunDefaults,
                SpecErr,
            >::Ok(v@),
            Result::Err(e) => spec_decode_run_defaults(*n, policy) == Result::<
                SpecRunDefaults,
                SpecErr,
            >::Err(e@),
        },
{
    let entries = match &n.kind {
        NodeKind::Mapping(es) => es,
        _ => {
            return Result::Err(
                DecodeError::at(
                    ErrorKind::ShapeMismatch {
                        expected: KindName::MappingKind,
                        found: n.kind_name(),
                    },
                    n.loc,
                ),
            );
        },
    };
    let mut allowed: Vec<String> = Vec::new();
    allowed.push("shell".to_owned());
    allowed.push("working-directory".to_owned());
    proof {
        assert(allowed@.map_values(|s: String| s@) =~= spec_run_defaults_keys());
    }
    match check_keys(entries, &allowed, policy, n.loc) {
        Result::Ok(_) => {},
        Result::Err(e) => {
            return Result::Err(e);
        },
    }
    let shell = match text_field(entries, "shell") {
        Result::Err(e) => {
            return Result::Err(e);
        },
        Result::Ok(s) => s,
    };
    let working_directory = match text_field(entries, "working-directory") {
        Result::Err(e) => {
            return Result::Err(e);
        },
        Result::Ok(s) => s,
    };
    Result::Ok(RunDefaults { shell, working_directory })
}

/// Default settings of a workflow.
#[derive(Debug, Clone, PartialEq)]
pub struct Defaults {
    pub run: Option<RunDefaults>,
}

/// The ghost form of workflow defaults.
pub struct SpecDefaults {
    pub run: Option<SpecRunDefaults>,
}

impl View for Defaults {
    type V = SpecDefaults;

    open spec fn view(&self) -> SpecDefaults {
        SpecDefaults {
            run: match &self.run {
                Option::Some(r) => Option::Some(r@),
                Option::None => Option::None,
            },
        }
    }
}

/// The declared field names of the defaults record.
pub open spec fn spec_defaults_keys() -> Seq<Seq<char>> {
    seq!["run"@]
}

/// Decoding the defaults record: one optional sub-record.
pub open spec fn spec_decode_defaults(n: Node, policy: UnknownFieldPolicy) -> Result<
    SpecDefaults,
    SpecErr,
> {
    match n.kind {
        NodeKind::Mapping(es) => match spec_check_keys(es@, spec_defaults_keys(), policy, n.loc) {
            Result::Err(e) => Result::Err(e),
            Result::Ok(_) => match spec_lookup(es@, "run"@) {
                Option::None => Result::Ok(SpecDefaults { run: Option::None }),
                Option::Some(v) => if v.kind is Null {
                    Result::Ok(SpecDefaults { run: Option::None })
                } else {
                    match spec_decode_run_defaults(v, policy) {
                        Result::Err(e) => Result::Err(spec_under_key("run"@, e)),
                        Result::Ok(r) => Result::Ok(SpecDefaults { run: Option::Some(r) }),
                    }
                },
            },
        },
        _ => Result::Err(
            spec_err(
                SpecErrKind::ShapeMismatch {
                    expected: KindName::MappingKind,
                    found: n.spec_kind_name(),
                },
                n.loc,
            ),
        ),
    }
}

/// Decodes the defaults record.
pub fn decode_defaults(n: &Node, policy: UnknownFieldPolicy) -> (r: Result<Defaults, DecodeError>)
    ensures
        match r {
            Result::Ok(v) => spec_decode_defaults(*n, policy) == Result::<
                SpecDefaults,
                SpecErr,
            >::Ok(v@),
            Result::Err(e) => spec_decode_defaults(*n, policy) == Result::<
                SpecDefaults,
                SpecErr,
            >::Err(e@),
        },
{
    let entries = match &n.kind {
        NodeKind::Mapping(es) => es,
        _ => {
            return Result::Err(
                DecodeError::at(
                    ErrorKind::ShapeMismatch {
                        expected: KindName::MappingKind,
                        found: n.kind_name(),
                    },
                    n.loc,
                ),
            );
        },
    };
    let mut allowed: Vec<String> = Vec::new();
    allowed.push("run".to_owned());
    proof {
        assert(allowed@.map_values(|s: String| s@) =~= spec_defaults_keys());
    }
    match check_keys(entries, &allowed, policy, n.loc) {
        Result::Ok(_) => {},
        Result::Err(e) => {
            return Result::Err(e);
        },
    }
    match lookup(entries, "run") {
        Option::None => Result::Ok(Defaults { run: Option::None }),
        Option::Some(v) => if matches!(&v.kind, NodeKind::Null) {
            Result::Ok(Defaults { run: Option::None })
        } else {
            match decode_run_defaults(v, policy) {
                Result::Err(e) => Result::Err(e.under_key("run")),
                Result::Ok(r) => Result::Ok(Defaults { run: Option::Some(r) }),
            }
        },
    }
}

/// The concurrency settings of a workflow: the group is required, the
/// cancellation flag defaults to the literal `false`.
#[derive(Debug, Clone, PartialEq)]
pub struct Concurrency {
    pub group: String,
    pub cancel_in_progress: BoE,
}

/// The ghost form of concurrency settings.
pub struct SpecConcurrency {
    pub group: Seq<char>,
    pub cancel_in_progress: SpecBoE,
}

impl View for Concurrency {
    type V = SpecConcurrency;

    open spec fn view(&self) -> SpecConcurrency {
        SpecConcurrency { group: self.group@, cancel_in_progress: self.cancel_in_progress@ }
    }
}

/// The declared field names of the concurrency record.
pub open spec fn spec_concurrency_keys() -> Seq<Seq<char>> {
    seq!["group"@, "cancel-in-progress"@]
}

/// Decoding the concurrency record.
pub open spec fn spec_decode_concurrency(n: Node, policy: UnknownFieldPolicy) -> Result<
    SpecConcurrency,
    SpecErr,
> {
    match n.kind {
        NodeKind::Mapping(es) => match spec_check_keys(
            es@,
            spec_concurrency_keys(),
            policy,
            n.loc,
        ) {
            Result::Err(e) => Result::Err(e),
            Result::Ok(_) => match spec_required_text_field(es@, "group"@, n.loc) {
                Result::Err(e) => Result::Err(e),
                Result::Ok(group) => match spec_boe_field(es@, "cancel-in-progress"@) {
                    Result::Err(e) => Result::Err(e),
                    Result::Ok(cancel_in_progress) => Result::Ok(
                        SpecConcurrency { group, cancel_in_progress },
                    ),
                },
            },
        },
        _ => Result::Err(
            spec_err(
                SpecErrKind::ShapeMismatch {
                    expected: KindName::MappingKind,
                    found: n.spec_kind_name(),
                },
                n.loc,
            ),
        ),
    }
}

/// Decodes the concurrency record.
pub fn decode_concurrency(n: &Node, policy: UnknownFieldPolicy) -> (r: Result<
    Concurrency,
    DecodeError,
>)
    ensures
        match r {
            Result::Ok(v) => spec_decode_concurrency(*n, policy) == Result::<
                SpecConcurrency,
                SpecErr,
            >::Ok(v@) && boe_wf(v.cancel_in_progress@),
            Result::Err(e) => spec_decode_concurrency(*n, policy) == Result::<
                SpecConcurrency,
                SpecErr,
            >::Err(e@),
        },
{
    let entries = match &n.kind {
        NodeKind::Mapping(es) => es,
        _ => {
            return Result::Err(
                DecodeError::at(
                    ErrorKind::ShapeMismatch {
                        expected: KindName::MappingKind,
                        found: n.kind_name(),
                    },
                    n.loc,
                ),
            );
        },
    };
    let mut allowed: Vec<String> = Vec::new();
    allowed.push("group".to_owned());
    allowed.push("cancel-in-progress".to_owned());
    proof {
        assert(allowed@.map_values(|s: String| s@) =~= spec_concurrency_keys());
    }
    match check_keys(entries, &allowed, policy, n.loc) {
        Result::Ok(_) => {},
        Result::Err(e) => {
            return Result::Err(e);
        },
    }
    let group = match required_text_field(entries, "group", n.loc) {
        Result::Err(e) => {
            return Result::Err(e);
        },
        Result::Ok(s) => s,
    };
    let cancel_in_progress = match boe_field(entries, "cancel-in-progress") {
        Result::Err(e) => {
            return Result::Err(e);
        },
        Result::Ok(b) => b,
    };
    Result::Ok(Concurrency { group, cancel_in_progress })
}

/// Writes the run defaults back as a mapping node, absent fields as
/// null.  Decoding the result under either policy gives the record
/// back: encode followed by decode is the identity on run defaults.
pub fn encode_run_defaults(d: &RunDefaults) -> (n: Node)
    ensures
        n.kind is Mapping,
        forall|pol: UnknownFieldPolicy| #[trigger]
            spec_decode_run_defaults(n, pol) == Result::<SpecRunDefaults, SpecErr>::Ok(d@),
{
    let mut entries: Vec<(String, Node)> = Vec::new();
    entries.push(("shell".to_owned(), opt_text_node(&d.shell)));
    entries.push(("working-directory".to_owned(), opt_text_node(&d.working_directory)));
    let n = Node::new(NodeKind::Mapping(entries));
    proof {
        let es = n.kind->Mapping_0@;
        reveal_strlit("shell");
        reveal_strlit("working-directory");
        reveal_with_fuel(spec_lookup, 4);
        reveal_with_fuel(spec_first_unknown, 4);
        assert(es[0].0@ == "shell"@);
        assert(es[1].0@ == "working-directory"@);
        assert("shell"@.len() == 5 && "working-directory"@.len() == 17);
        assert(spec_lookup(es, "shell"@) == Option::Some(es[0].1));
        assert(spec_lookup(es, "working-directory"@) == Option::Some(es[1].1));
        assert(key_allowed("shell"@, spec_run_defaults_keys())) by {
            assert(spec_run_defaults_keys()[0] == "shell"@);
        }
        assert(key_allowed("working-directory"@, spec_run_defaults_keys())) by {
            assert(spec_run_defaults_keys()[1] == "working-directory"@);
        }
        assert(spec_first_unknown(es, spec_run_defaults_keys()) is None);
        assert(spec_text_field(es, "shell"@) == Result::<Option<Seq<char>>, SpecErr>::Ok(
            opt_text_view(d.shell),
        ));
        assert(spec_text_field(es, "working-directory"@) == Result::<
            Option<Seq<char>>,
            SpecErr,
        >::Ok(opt_text_view(d.working_directory)));
    }
    n
}

/// Writes the defaults record back as a mapping node.  Decoding the
/// result under either policy gives the record back: encode followed by
/// decode is the identity on defaults.
pub fn encode_defaults(d: &Defaults) -> (n: Node)
    ensures
        n.kind is Mapping,
        forall|pol: UnknownFieldPolicy| #[trigger]
            spec_decode_defaults(n, pol) == Result::<SpecDefaults, SpecErr>::Ok(d@),
{
    let mut entries: Vec<(String, Node)> = Vec::new();
    let run_node = match &d.run {
        Option::Some(r) => encode_run_defaults(r),
        Option::None => Node::new(NodeKind::Null),
    };
    entries.push(("run".to_owned(), run_node));
    let n = Node::new(NodeKind::Mapping(entries));
    proof {
        let es = n.kind->Mapping_0@;
        reveal_strlit("run");
        reveal_with_fuel(spec_lookup, 3);
        reveal_with_fuel(spec_first_unknown, 3);
        assert(es[0].0@ == "run"@);
        assert(spec_lookup(es, "run"@) == Option::Some(es[0].1));
        assert(key_allowed("run"@, spec_defaults_keys())) by {
            assert(spec_defaults_keys()[0] == "run"@);
        }
        assert(spec_first_unknown(es, spec_defaults_keys()) is None);
    }
    n
}

/// Writes the concurrency record back as a mapping node.  Decoding the
/// result under either policy gives the record back: encode followed by
/// decode is the identity on well-formed concurrency records.
pub fn encode_concurrency(c: &Concurrency) -> (n: Node)
    requires
        boe_wf(c.cancel_in_progress@),
    ensures
        n.kind is Mapping,
        forall|pol: UnknownFieldPolicy| #[trigger]
            spec_decode_concurrency(n, pol) == Result::<SpecConcurrency, SpecErr>::Ok(c@),
{
    let mut entries: Vec<(String, Node)> = Vec::new();
    entries.push(("group".to_owned(), Node::new(NodeKind::Text(c.group.clone()))));
    entries.push(("cancel-in-progress".to_owned(), encode_boe(&c.cancel_in_progress)));
    let n = Node::new(NodeKind::Mapping(entries));
    proof {
        let es = n.kind->Mapping_0@;
        reveal_strlit("group");
        reveal_strlit("cancel-in-progress");
        reveal_with_fuel(spec_lookup, 4);
        reveal_with_fuel(spec_first_unknown, 4);
        assert(es[0].0@ == "group"@);
        assert(es[1].0@ == "cancel-in-progress"@);
        assert("group"@.len() == 5 && "cancel-in-progress"@.len() == 18);
        assert(spec_lookup(es, "group"@) == Option::Some(es[0].1));
        assert(spec_lookup(es, "cancel-in-progress"@) == Option::Some(es[1].1));
        assert(key_allowed("group"@, spec_concurrency_keys())) by {
            assert(spec_concurrency_keys()[0] == "group"@);
        }
        assert(key_allowed("cancel-in-progress"@, spec_concurrency_keys())) by {
            assert(spec_concurrency_keys()[1] == "cancel-in-progress"@);
        }
        assert(spec_first_unknown(es, spec_concurrency_keys()) is None);
        assert(spec_required_text_field(es, "group"@, n.loc) == Result::<Seq<char>, SpecErr>::Ok(
            c.group@,
        ));
        assert(spec_boe_field(es, "cancel-in-progress"@) == Result::<SpecBoE, SpecErr>::Ok(
            c.cancel_in_progress@,
        ));
    }
    n
}

/// An ordinary job run on a runner.
#[derive(Debug, Clone, PartialEq)]
pub struct NormalJob {
    pub name: Option<String>,
    pub runs_on: SoV<String>,
    pub permissions: Permissions,
    pub env: Env,
    pub continue_on_error: BoE,
}

/// The ghost form of an ordinary job.
pub struct SpecNormalJob {
    pub name: Option<Seq<char>>,
    pub runs_on: SpecSoVText,
    pub permissions: Permissions,
    pub env: Seq<(Seq<char>, SpecEnvValue)>,
    pub continue_on_error: SpecBoE,
}

impl View for NormalJob {
    type V = SpecNormalJob;

    open spec fn view(&self) -> SpecNormalJob {
        SpecNormalJob {
            name: opt_text_view(self.name),
            runs_on: self.runs_on@,
            permissions: self.permissions,
            env: env_view(self.env@),
            continue_on_error: self.continue_on_error@,
        }
    }
}

/// A job that calls a reusable workflow.
#[derive(Debug, Clone, PartialEq)]
pub struct ReusableWorkflowCallJob {
    pub uses: String,
    pub with_args: Env,
}

/// The ghost form of a reusable workflow call.
pub struct SpecReusableWorkflowCallJob {
    pub uses: Seq<char>,
    pub with_args: Seq<(Seq<char>, SpecEnvValue)>,
}

impl View for ReusableWorkflowCallJob {
    type V = SpecReusableWorkflowCallJob;

    open spec fn view(&self) -> SpecReusableWorkflowCallJob {
        SpecReusableWorkflowCallJob { uses: self.uses@, with_args: env_view(self.with_args@) }
    }
}

/// A workflow job: ordinary, or a reusable workflow call.
#[derive(Debug, PartialEq)]
pub enum Job {
    NormalJob(Box<NormalJob>),
    ReusableWorkflowCallJob(Box<ReusableWorkflowCallJob>),
}

/// The ghost form of a job.
pub enum SpecJob {
    NormalJob(SpecNormalJob),
    ReusableWorkflowCallJob(SpecReusableWorkflowCallJob),
}

impl View for Job {
    type V = SpecJob;

    open spec fn view(&self) -> SpecJob {
        match self {
            Job::NormalJob(b) => SpecJob::NormalJob(b@),
            Job::ReusableWorkflowCallJob(b) => SpecJob::ReusableWorkflowCallJob(b@),
        }
    }
}

/// The declared field names of an ordinary job.
pub open spec fn spec_normal_job_keys() -> Seq<Seq<char>> {
    seq!["name"@, "runs-on"@, "permissions"@, "env"@, "continue-on-error"@]
}

/// Decoding an ordinary job: `runs-on` is required, the rest default.
pub open spec fn spec_decode_normal_job(n: Node, policy: UnknownFieldPolicy) -> Result<
    SpecNormalJob,
    SpecErr,
> {
    match n.kind {
        NodeKind::Mapping(es) => match spec_check_keys(es@, spec_normal_job_keys(), policy, n.loc) {
            Result::Err(e) => Result::Err(e),
            Result::Ok(_) => match spec_text_field(es@, "name"@) {
                Result::Err(e) => Result::Err(e),
                Result::Ok(name) => match spec_lookup(es@, "runs-on"@) {
                    Option::None => Result::Err(
                        spec_err(
                            SpecErrKind::MissingRequiredField { field: "runs-on"@ },
                            n.loc,
                        ),
                    ),
                    Option::Some(rn) => if rn.kind is Null {
                        Result::Err(
                            spec_err(
                                SpecErrKind::MissingRequiredField { field: "runs-on"@ },
                                n.loc,
                            ),
                        )
                    } else {
                        match spec_decode_sov_text(rn) {
                            Result::Err(e) => Result::Err(spec_under_key("runs-on"@, e)),
                            Result::Ok(runs_on) => match spec_permissions_field(es@, policy) {
                                Result::Err(e) => Result::Err(e),
                                Result::Ok(permissions) => match spec_env_field(es@, "env"@) {
                                    Result::Err(e) => Result::Err(e),
                                    Result::Ok(env) => match spec_boe_field(
                                        es@,
                                        "continue-on-error"@,
                                    ) {
                                        Result::Err(e) => Result::Err(e),
                                        Result::Ok(continue_on_error) => Result::Ok(
                                            SpecNormalJob {
                                                name,
                                                runs_on,
                                                permissions,
                                                env,
                                                continue_on_error,
                                            },
                                        ),
                                    },
                                },
                            },
                        }
                    },
                },
            },
        },
        _ => Result::Err(
            spec_err(
                SpecErrKind::ShapeMismatch {
                    expected: KindName::MappingKind,
                    found: n.spec_kind_name(),
                },
                n.loc,
            ),
        ),
    }
}

/// Decodes an ordinary job.
pub fn decode_normal_job(n: &Node, policy: UnknownFieldPolicy) -> (r: Result<
    NormalJob,
    DecodeError,
>)
    ensures
        match r {
            Result::Ok(v) => spec_decode_normal_job(*n, policy) == Result::<
                SpecNormalJob,
                SpecErr,
            >::Ok(v@) && boe_wf(v.continue_on_error@),
            Result::Err(e) => spec_decode_normal_job(*n, policy) == Result::<
                SpecNormalJob,
                SpecErr,
            >::Err(e@),
        },
{
    let entries = match &n.kind {
        NodeKind::Mapping(es) => es,
        _ => {
            return Result::Err(
                DecodeError::at(
                    ErrorKind::ShapeMismatch {
                        expected: KindName::MappingKind,
                        found: n.kind_name(),
                    },
                    n.loc,
                ),
            );
        },
    };
    let mut allowed: Vec<String> = Vec::new();
    allowed.push("name".to_owned());
    allowed.push("runs-on".to_owned());
    allowed.push("permissions".to_owned());
    allowed.push("env".to_owned());
    allowed.push("continue-on-error".to_owned());
    proof {
        assert(allowed@.map_values(|s: String| s@) =~= spec_normal_job_keys());
    }
    match check_keys(entries, &allowed, policy, n.loc) {
        Result::Ok(_) => {},
        Result::Err(e) => {
            return Result::Err(e);
        },
    }
    let name = match text_field(entries, "name") {
        Result::Err(e) => {
            return Result::Err(e);
        },
        Result::Ok(s) => s,
    };
    let runs_on = match lookup(entries, "runs-on") {
        Option::None => {
            return Result::Err(
                DecodeError::at(
                    ErrorKind::MissingRequiredField { field: "runs-on".to_owned() },
                    n.loc,
                ),
            );
        },
        Option::Some(rn) => if matches!(&rn.kind, NodeKind::Null) {
            return Result::Err(
                DecodeError::at(
                    ErrorKind::MissingRequiredField { field: "runs-on".to_owned() },
                    n.loc,
                ),
            );
        } else {
            match decode_sov_text(rn) {
                Result::Err(e) => {
                    return Result::Err(e.under_key("runs-on"));
                },
                Result::Ok(r) => r,
            }
        },
    };
    let permissions = match permissions_field(entries, policy) {
        Result::Err(e) => {
            return Result::Err(e);
        },
        Result::Ok(p) => p,
    };
    let env = match env_field(entries, "env") {
        Result::Err(e) => {
            return Result::Err(e);
        },
        Result::Ok(v) => v,
    };
    let continue_on_error = match boe_field(entries, "continue-on-error") {
        Result::Err(e) => {
            return Result::Err(e);
        },
        Result::Ok(b) => b,
    };
    Result::Ok(NormalJob { name, runs_on, permissions, env, continue_on_error })
}

/// The declared field names of a reusable workflow call.
pub open spec fn spec_reusable_job_keys() -> Seq<Seq<char>> {
    seq!["uses"@, "with"@]
}

/// Decoding a reusable workflow call: `uses` is required, `with`
/// defaults to an empty block.
pub open spec fn spec_decode_reusable_job(n: Node, policy: UnknownFieldPolicy) -> Result<
    SpecReusableWorkflowCallJob,
    SpecErr,
> {
    match n.kind {
        NodeKind::Mapping(es) => match spec_check_keys(
            es@,
            spec_reusable_job_keys(),
            policy,
            n.loc,
        ) {
            Result::Err(e) => Result::Err(e),
            Result::Ok(_) => match spec_required_text_field(es@, "uses"@, n.loc) {
                Result::Err(e) => Result::Err(e),
                Result::Ok(uses) => match spec_env_field(es@, "with"@) {
                    Result::Err(e) => Result::Err(e),
                    Result::Ok(with_args) => Result::Ok(
                        SpecReusableWorkflowCallJob { uses, with_args },
                    ),
                },
            },
        },
        _ => Result::Err(
            spec_err(
                SpecErrKind::ShapeMismatch {
                    expected: KindName::MappingKind,
                    found: n.spec_kind_name(),
                },
                n.loc,
            ),
        ),
    }
}

/// Decodes a reusable workflow call.
pub fn decode_reusable_job(n: &Node, policy: UnknownFieldPolicy) -> (r: Result<
    ReusableWorkflowCallJob,
    DecodeError,
>)
    ensures
        match r {
            Result::Ok(v) => spec_decode_reusable_job(*n, policy) == Result::<
                SpecReusableWorkflowCallJob,
                SpecErr,
            >::Ok(v@),
            Result::Err(e) => spec_decode_reusable_job(*n, policy) == Result::<
                SpecReusableWorkflowCallJob,
                SpecErr,
            >::Err(e@),
        },
{
    let entries = match &n.kind {
        NodeKind::Mapping(es) => es,
        _ => {
            return Result::Err(
                DecodeError::at(
                    ErrorKind::ShapeMismatch {
                        expected: KindName::MappingKind,
                        found: n.kind_name(),
                    },
                    n.loc,
                ),
            );
        },
    };
    let mut allowed: Vec<String> = Vec::new();
    allowed.push("uses".to_owned());
    allowed.push("with".to_owned());
    proof {
        assert(allowed@.map_values(|s: String| s@) =~= spec_reusable_job_keys());
    }
    match check_keys(entries, &allowed, policy, n.loc) {
        Result::Ok(_) => {},
        Result::Err(e) => {
            return Result::Err(e);
        },
    }
    let uses = match required_text_field(entries, "uses", n.loc) {
        Result::Err(e) => {
            return Result::Err(e);
        },
        Result::Ok(s) => s,
    };
    let with_args = match env_field(entries, "with") {
        Result::Err(e) => {
            return Result::Err(e);
        },
        Result::Ok(v) => v,
    };
    Result::Ok(ReusableWorkflowCallJob { uses, with_args })
}

/// The candidate shapes of the job union, in declared precedence
/// order: a mapping that binds `uses` is a reusable workflow call, any
/// other mapping is an ordinary job.
pub open spec fn spec_job_shapes() -> Seq<SpecShape> {
    seq![SpecShape::MappingWithKey("uses"@), SpecShape::MappingShape]
}

/// Decoding the job union.
pub open spec fn spec_decode_job(n: Node, policy: UnknownFieldPolicy) -> Result<SpecJob, SpecErr> {
    match spec_resolve(spec_job_shapes(), n) {
        Option::Some(i) => if i == 0 {
            match spec_decode_reusable_job(n, policy) {
                Result::Err(e) => Result::Err(e),
                Result::Ok(j) => Result::Ok(SpecJob::ReusableWorkflowCallJob(j)),
            }
        } else {
            match spec_decode_normal_job(n, policy) {
                Result::Err(e) => Result::Err(e),
                Result::Ok(j) => Result::Ok(SpecJob::NormalJob(j)),
            }
        },
        Option::None => Result::Err(
            spec_err(
                SpecErrKind::NoMatchingShape { found: n.spec_kind_name(), tried: spec_job_shapes() },
                n.loc,
            ),
        ),
    }
}

/// Decodes the job union.
pub fn decode_job(n: &Node, policy: UnknownFieldPolicy) -> (r: Result<Job, DecodeError>)
    ensures
        match r {
            Result::Ok(v) => spec_decode_job(*n, policy) == Result::<SpecJob, SpecErr>::Ok(v@)
                && wf_job(v@),
            Result::Err(e) => spec_decode_job(*n, policy) == Result::<SpecJob, SpecErr>::Err(e@),
        },
{
    let mut candidates: Vec<Shape> = Vec::new();
    candidates.push(Shape::MappingWithKey("uses".to_owned()));
    candidates.push(Shape::MappingShape);
    proof {
        assert(candidates@.map_values(|s: Shape| s@) =~= spec_job_shapes());
    }
    match crate::shape::resolve_first(&candidates, n) {
        Option::Some(i) => if i == 0 {
            match decode_reusable_job(n, policy) {
                Result::Err(e) => Result::Err(e),
                Result::Ok(j) => Result::Ok(Job::ReusableWorkflowCallJob(Box::new(j))),
            }
        } else {
            match decode_normal_job(n, policy) {
                Result::Err(e) => Result::Err(e),
                Result::Ok(j) => Result::Ok(Job::NormalJob(Box::new(j))),
            }
        },
        Option::None => Result::Err(
            DecodeError::at(
                ErrorKind::NoMatchingShape { found: n.kind_name(), tried: candidates },
                n.loc,
            ),
        ),
    }
}

/// Writes an ordinary job back as a mapping node.  The mapping never
/// binds `uses`, so the job union reads it back as an ordinary job.
/// Decoding the result under either policy gives the job back.
#[verifier::rlimit(60)]
pub fn encode_normal_job(j: &NormalJob) -> (n: Node)
    requires
        boe_wf(j.continue_on_error@),
    ensures
        n.kind is Mapping,
        spec_lookup(n.kind->Mapping_0@, "uses"@) is None,
        forall|pol: UnknownFieldPolicy| #[trigger]
            spec_decode_normal_job(n, pol) == Result::<SpecNormalJob, SpecErr>::Ok(j@),
{
    let mut entries: Vec<(String, Node)> = Vec::new();
    entries.push(("name".to_owned(), opt_text_node(&j.name)));
    entries.push(("runs-on".to_owned(), encode_sov_text(&j.runs_on)));
    entries.push(("permissions".to_owned(), encode_permissions(&j.permissions)));
    entries.push(("env".to_owned(), encode_env(&j.env)));
    entries.push(("continue-on-error".to_owned(), encode_boe(&j.continue_on_error)));
    let n = Node::new(NodeKind::Mapping(entries));
    proof {
        let es = n.kind->Mapping_0@;
        reveal_strlit("name");
        reveal_strlit("runs-on");
        reveal_strlit("permissions");
        reveal_strlit("env");
        reveal_strlit("continue-on-error");
        reveal_strlit("uses");
        reveal_with_fuel(spec_lookup, 8);
        reveal_with_fuel(spec_first_unknown, 8);
        assert(es[0].0@ == "name"@);
        assert(es[1].0@ == "runs-on"@);
        assert(es[2].0@ == "permissions"@);
        assert(es[3].0@ == "env"@);
        assert(es[4].0@ == "continue-on-error"@);
        assert("name"@.len() == 4 && "runs-on"@.len() == 7 && "permissions"@.len() == 11
            && "env"@.len() == 3 && "continue-on-error"@.len() == 17 && "uses"@.len() == 4);
        assert("name"@[0] == 'n' && "uses"@[0] == 'u');
        assert(spec_lookup(es, "name"@) == Option::Some(es[0].1));
        assert(spec_lookup(es, "runs-on"@) == Option::Some(es[1].1));
        assert(spec_lookup(es, "permissions"@) == Option::Some(es[2].1));
        assert(spec_lookup(es, "env"@) == Option::Some(es[3].1));
        assert(spec_lookup(es, "continue-on-error"@) == Option::Some(es[4].1));
        assert(spec_lookup(es, "uses"@) is None);
        assert(key_allowed("name"@, spec_normal_job_keys())) by {
            assert(spec_normal_job_keys()[0] == "name"@);
        }
        assert(key_allowed("runs-on"@, spec_normal_job_keys())) by {
            assert(spec_normal_job_keys()[1] == "runs-on"@);
        }
        assert(key_allowed("permissions"@, spec_normal_job_keys())) by {
            assert(spec_normal_job_keys()[2] == "permissions"@);
        }
        assert(key_allowed("env"@, spec_normal_job_keys())) by {
            assert(spec_normal_job_keys()[3] == "env"@);
        }
        assert(key_allowed("continue-on-error"@, spec_normal_job_keys())) by {
            assert(spec_normal_job_keys()[4] == "continue-on-error"@);
        }
        assert(spec_first_unknown(es, spec_normal_job_keys()) is None);
        assert(spec_text_field(es, "name"@) == Result::<Option<Seq<char>>, SpecErr>::Ok(
            opt_text_view(j.name),
        ));
        assert(spec_env_field(es, "env"@) == Result::<Seq<(Seq<char>, SpecEnvValue)>, SpecErr>::Ok(
            env_view(j.env@),
        ));
        assert(spec_boe_field(es, "continue-on-error"@) == Result::<SpecBoE, SpecErr>::Ok(
            j.continue_on_error@,
        ));
    }
    n
}

/// Writes a reusable workflow call back as a mapping node.  The mapping
/// binds `uses`, so the job union reads it back as a reusable call.
/// Decoding the result under either policy gives the job back.
pub fn encode_reusable_job(j: &ReusableWorkflowCallJob) -> (n: Node)
    ensures
        n.kind is Mapping,
        spec_lookup(n.kind->Mapping_0@, "uses"@) is Some,
        forall|pol: UnknownFieldPolicy| #[trigger]
            spec_decode_reusable_job(n, pol) == Result::<SpecReusableWorkflowCallJob, SpecErr>::Ok(
                j@,
            ),
{
    let mut entries: Vec<(String, Node)> = Vec::new();
    entries.push(("uses".to_owned(), Node::new(NodeKind::Text(j.uses.clone()))));
    entries.push(("with".to_owned(), encode_env(&j.with_args)));
    let n = Node::new(NodeKind::Mapping(entries));
    proof {
        let es = n.kind->Mapping_0@;
        reveal_strlit("uses");
        reveal_strlit("with");
        reveal_with_fuel(spec_lookup, 4);
        reveal_with_fuel(spec_first_unknown, 4);
        assert(es[0].0@ == "uses"@);
        assert(es[1].0@ == "with"@);
        assert("uses"@.len() == 4 && "with"@.len() == 4);
        assert("uses"@[0] == 'u' && "with"@[0] == 'w');
        assert(spec_lookup(es, "uses"@) == Option::Some(es[0].1));
        assert(spec_lookup(es, "with"@) == Option::Some(es[1].1));
        assert(key_allowed("uses"@, spec_reusable_job_keys())) by {
            assert(spec_reusable_job_keys()[0] == "uses"@);
        }
        assert(key_allowed("with"@, spec_reusable_job_keys())) by {
            assert(spec_reusable_job_keys()[1] == "with"@);
        }
        assert(spec_first_unknown(es, spec_reusable_job_keys()) is None);
        assert(spec_required_text_field(es, "uses"@, n.loc) == Result::<Seq<char>, SpecErr>::Ok(
            j.uses@,
        ));
        assert(spec_env_field(es, "with"@) == Result::<
            Seq<(Seq<char>, SpecEnvValue)>,
            SpecErr,
        >::Ok(env_view(j.with_args@)));
    }
    n
}

/// Every job this decoder can produce: the expression branches it holds
/// are recognized placeholders.
pub open spec fn wf_job(j: SpecJob) -> bool {
    match j {
        SpecJob::NormalJob(nj) => boe_wf(nj.continue_on_error),
        SpecJob::ReusableWorkflowCallJob(_) => true,
    }
}

/// Writes a job back as a mapping node.  Decoding the result under
/// either policy gives the job back: encode followed by decode is the
/// identity on well-formed jobs.
pub fn encode_job(j: &Job) -> (n: Node)
    requires
        wf_job(j@),
    ensures
        n.kind is Mapping,
        forall|pol: UnknownFieldPolicy| #[trigger]
            spec_decode_job(n, pol) == Result::<SpecJob, SpecErr>::Ok(j@),
{
    match j {
        Job::ReusableWorkflowCallJob(b) => {
            let n = encode_reusable_job(b);
            proof {
                assert(spec_resolve(spec_job_shapes(), n) == Option::<int>::Some(0));
            }
            n
        },
        Job::NormalJob(b) => {
            let n = encode_normal_job(b);
            proof {
                reveal_with_fuel(spec_resolve, 3);
                assert(spec_job_shapes().drop_first() =~= seq![SpecShape::MappingShape]);
                assert(spec_resolve(spec_job_shapes(), n) == Option::<int>::Some(1));
            }
            n
        },
    }
}

/// Entries whose values each decode back to their own job decode, as a
/// list, to the matching named jobs.
proof fn lemma_job_entries_roundtrip(
    entries: Seq<(String, Node)>,
    jobs: Seq<(Seq<char>, SpecJob)>,
    policy: UnknownFieldPolicy,
)
    requires
        entries.len() == jobs.len(),
        forall|i: int|
            0 <= i < entries.len() ==> (#[trigger] entries[i].0@) == jobs[i].0
                && spec_decode_job(entries[i].1, policy) == Result::<SpecJob, SpecErr>::Ok(
                jobs[i].1,
            ),
    ensures
        spec_decode_job_entries(entries, policy) == Result::<
            Seq<(Seq<char>, SpecJob)>,
            SpecErr,
        >::Ok(jobs),
    decreases entries.len(),
{
    if entries.len() == 0 {
        assert(jobs =~= Seq::<(Seq<char>, SpecJob)>::empty());
    } else {
        lemma_job_entries_roundtrip(entries.drop_first(), jobs.drop_first(), policy);
        assert(jobs =~= seq![jobs[0]] + jobs.drop_first());
        assert(jobs[0] == (jobs[0].0, jobs[0].1));
    }
}

/// A complete workflow definition.
#[derive(Debug, PartialEq)]
pub struct Workflow {
    pub name: Option<String>,
    pub run_name: Option<String>,
    pub on: Trigger,
    pub permissions: Permissions,
    pub env: Env,
    pub defaults: Option<Defaults>,
    pub concurrency: Option<Concurrency>,
    pub jobs: Vec<(String, Job)>,
}

/// The ghost form of a workflow.
pub struct SpecWorkflow {
    pub name: Option<Seq<char>>,
    pub run_name: Option<Seq<char>>,
    pub on: SpecTrigger,
    pub permissions: Permissions,
    pub env: Seq<(Seq<char>, SpecEnvValue)>,
    pub defaults: Option<SpecDefaults>,
    pub concurrency: Option<SpecConcurrency>,
    pub jobs: Seq<(Seq<char>, SpecJob)>,
}

/// The ghost form of the named job list.
pub open spec fn jobs_view(jobs: Seq<(String, Job)>) -> Seq<(Seq<char>, SpecJob)> {
    jobs.map_values(|p: (String, Job)| (p.0@, p.1@))
}

impl View for Workflow {
    type V = SpecWorkflow;

    open spec fn view(&self) -> SpecWorkflow {
        SpecWorkflow {
            name: opt_text_view(self.name),
            run_name: opt_text_view(self.run_name),
            on: self.on@,
            permissions: self.permissions,
            env: env_view(self.env@),
            defaults: match &self.defaults {
                Option::Some(d) => Option::Some(d@),
                Option::None => Option::None,
            },
            concurrency: match &self.concurrency {
                Option::Some(c) => Option::Some(c@),
                Option::None => Option::None,
            },
            jobs: jobs_view(self.jobs@),
        }
    }
}

/// Decoding the named jobs of a workflow, in document order; a failing
/// job is reported under its name.
pub open spec fn spec_decode_job_entries(
    entries: Seq<(String, Node)>,
    policy: UnknownFieldPolicy,
) -> Result<Seq<(Seq<char>, SpecJob)>, SpecErr>
    decreases entries.len(),
{
    if entries.len() == 0 {
        Result::Ok(Seq::empty())
    } else {
        match spec_decode_job(entries[0].1, policy) {
            Result::Err(e) => Result::Err(spec_under_key(entries[0].0@, e)),
            Result::Ok(j) => match spec_decode_job_entries(entries.drop_first(), policy) {
                Result::Err(e) => Result::Err(e),
                Result::Ok(rest) => Result::Ok(seq![(entries[0].0@, j)] + rest),
            },
        }
    }
}

/// Decodes the named jobs of a workflow.
pub fn decode_job_entries(entries: &Vec<(String, Node)>, policy: UnknownFieldPolicy) -> (r: Result<
    Vec<(String, Job)>,
    DecodeError,
>)
    ensures
        match r {
            Result::Ok(v) => spec_decode_job_entries(entries@, policy) == Result::<
                Seq<(Seq<char>, SpecJob)>,
                SpecErr,
            >::Ok(jobs_view(v@)) && forall|k: int|
                0 <= k < v@.len() ==> wf_job((#[trigger] v@[k]).1@),
            Result::Err(e) => spec_decode_job_entries(entries@, policy) == Result::<
                Seq<(Seq<char>, SpecJob)>,
                SpecErr,
            >::Err(e@),
        },
{
    let mut acc: Vec<(String, Job)> = Vec::new();
    let mut i: usize = 0;
    assert(entries@.skip(0) =~= entries@);
    assert(jobs_view(acc@) =~= Seq::<(Seq<char>, SpecJob)>::empty());
    while i < entries.len()
        invariant
            i <= entries@.len(),
            forall|k: int| 0 <= k < acc@.len() ==> wf_job((#[trigger] acc@[k]).1@),
            match spec_decode_job_entries(entries@.skip(i as int), policy) {
                Result::Ok(rest) => spec_decode_job_entries(entries@, policy) == Result::<
                    Seq<(Seq<char>, SpecJob)>,
                    SpecErr,
                >::Ok(jobs_view(acc@) + rest),
                Result::Err(e) => spec_decode_job_entries(entries@, policy) == Result::<
                    Seq<(Seq<char>, SpecJob)>,
                    SpecErr,
                >::Err(e),
            },
        decreases entries@.len() - i,
    {
        assert(entries@.skip(i as int)[0] == entries@[i as int]);
        assert(entries@.skip(i as int).drop_first() =~= entries@.skip(i as int + 1));
        match decode_job(&entries[i].1, policy) {
            Result::Err(e) => {
                return Result::Err(e.under_key(entries[i].0.as_str()));
            },
            Result::Ok(j) => {
                let ghost old_acc = acc@;
                let ghost jv = j@;
                acc.push((entries[i].0.clone(), j));
                proof {
                    assert(jobs_view(acc@) =~= jobs_view(old_acc) + seq![
                        (entries@[i as int].0@, jv),
                    ]);
                    if spec_decode_job_entries(entries@.skip(i as int + 1), policy) is Ok {
                        assert(jobs_view(old_acc) + (seq![(entries@[i as int].0@, jv)]
                            + spec_decode_job_entries(entries@.skip(i as int + 1), policy)->Ok_0)
                            =~= jobs_view(acc@) + spec_decode_job_entries(
                            entries@.skip(i as int + 1),
                            policy,
                        )->Ok_0);
                    }
                }
            },
        }
        i = i + 1;
    }
    proof {
        assert(entries@.skip(i as int) =~= Seq::<(String, Node)>::empty());
        assert(jobs_view(acc@) + Seq::<(Seq<char>, SpecJob)>::empty() =~= jobs_view(acc@));
    }
    Result::Ok(acc)
}

/// The declared field names of the workflow record.
pub open spec fn spec_workflow_keys() -> Seq<Seq<char>> {
    seq![
        "name"@,
        "run-name"@,
        "on"@,
        "permissions"@,
        "env"@,
        "defaults"@,
        "concurrency"@,
        "jobs"@,
    ]
}

/// Decoding the workflow record: `on` and `jobs` are required, every
/// other field defaults or is optional.
pub open spec fn spec_decode_workflow(n: Node, policy: UnknownFieldPolicy) -> Result<
    SpecWorkflow,
    SpecErr,
> {
    match n.kind {
        NodeKind::Mapping(es) => match spec_check_keys(es@, spec_workflow_keys(), policy, n.loc) {
            Result::Err(e) => Result::Err(e),
            Result::Ok(_) => match spec_text_field(es@, "name"@) {
                Result::Err(e) => Result::Err(e),
                Result::Ok(name) => match spec_text_field(es@, "run-name"@) {
                    Result::Err(e) => Result::Err(e),
                    Result::Ok(run_name) => match spec_lookup(es@, "on"@) {
                        Option::None => Result::Err(
                            spec_err(SpecErrKind::MissingRequiredField { field: "on"@ }, n.loc),
                        ),
                        Option::Some(onn) => match spec_decode_trigger(onn, policy) {
                            Result::Err(e) => Result::Err(spec_under_key("on"@, e)),
                            Result::Ok(on) => match spec_permissions_field(es@, policy) {
                                Result::Err(e) => Result::Err(e),
                                Result::Ok(permissions) => match spec_env_field(es@, "env"@) {
                                    Result::Err(e) => Result::Err(e),
                                    Result::Ok(env) => match spec_defaults_field(es@, policy) {
                                        Result::Err(e) => Result::Err(e),
                                        Result::Ok(defaults) => match spec_concurrency_field(
                                            es@,
                                            policy,
                                        ) {
                                            Result::Err(e) => Result::Err(e),
                                            Result::Ok(concurrency) => match spec_jobs_field(
                                                es@,
                                                policy,
                                                n.loc,
                                            ) {
                                                Result::Err(e) => Result::Err(e),
                                                Result::Ok(jobs) => Result::Ok(
                                                    SpecWorkflow {
                                                        name,
                                                        run_name,
                                                        on,
                                                        permissions,
                                                        env,
                                                        defaults,
                                                        concurrency,
                                                        jobs,
                                                    },
                                                ),
                                            },
                                        },
                                    },
                                },
                            },
                        },
                    },
                },
            },
        },
        _ => Result::Err(
            spec_err(
                SpecErrKind::ShapeMismatch {
                    expected: KindName::MappingKind,
                    found: n.spec_kind_name(),
                },
                n.loc,
            ),
        ),
    }
}

/// The optional defaults field of a workflow.
pub open spec fn spec_defaults_field(
    entries: Seq<(String, Node)>,
    policy: UnknownFieldPolicy,
) -> Result<Option<SpecDefaults>, SpecErr> {
    match spec_lookup(entries, "defaults"@) {
        Option::None => Result::Ok(Option::None),
        Option::Some(v) => if v.kind is Null {
            Result::Ok(Option::None)
        } else {
            match spec_decode_defaults(v, policy) {
                Result::Err(e) => Result::Err(spec_under_key("defaults"@, e)),
                Result::Ok(d) => Result::Ok(Option::Some(d)),
            }
        },
    }
}

/// The optional concurrency field of a workflow.
pub open spec fn spec_concurrency_field(
    entries: Seq<(String, Node)>,
    policy: UnknownFieldPolicy,
) -> Result<Option<SpecConcurrency>, SpecErr> {
    match spec_lookup(entries, "concurrency"@) {
        Option::None => Result::Ok(Option::None),
        Option::Some(v) => if v.kind is Null {
            Result::Ok(Option::None)
        } else {
            match spec_decode_concurrency(v, policy) {
                Result::Err(e) => Result::Err(spec_under_key("concurrency"@, e)),
                Result::Ok(c) => Result::Ok(Option::Some(c)),
            }
        },
    }
}

/// The required jobs field of a workflow: a mapping of named jobs.
pub open spec fn spec_jobs_field(
    entries: Seq<(String, Node)>,
    policy: UnknownFieldPolicy,
    loc: Option<u64>,
) -> Result<Seq<(Seq<char>, SpecJob)>, SpecErr> {
    match spec_lookup(entries, "jobs"@) {
        Option::None => Result::Err(
            spec_err(SpecErrKind::MissingRequiredField { field: "jobs"@ }, loc),
        ),
        Option::Some(v) => match v.kind {
            NodeKind::Mapping(js) => match spec_decode_job_entries(js@, policy) {
                Result::Err(e) => Result::Err(spec_under_key("jobs"@, e)),
                Result::Ok(jobs) => Result::Ok(jobs),
            },
            _ => Result::Err(
                spec_under_key(
                    "jobs"@,
                    spec_err(
                        SpecErrKind::ShapeMismatch {
                            expected: KindName::MappingKind,
                            found: v.spec_kind_name(),
                        },
                        v.loc,
                    ),
                ),
            ),
        },
    }
}

/// The defaulting law of the workflow's permissions field: when the
/// key is wholly absent, decoding yields the base keyword `default`.
pub proof fn lemma_absent_permissions_defaults(
    entries: Seq<(String, Node)>,
    policy: UnknownFieldPolicy,
)
    requires
        spec_lookup(entries, "permissions"@) is None,
    ensures
        spec_permissions_field(entries, policy) == Result::<Permissions, SpecErr>::Ok(
            Permissions::Base(crate::common::BasePermission::Default),
        ),
{
}

/// Decodes a complete workflow document.
pub fn decode_workflow(n: &Node, policy: UnknownFieldPolicy) -> (r: Result<Workflow, DecodeError>)
    ensures
        match r {
            Result::Ok(v) => spec_decode_workflow(*n, policy) == Result::<
                SpecWorkflow,
                SpecErr,
            >::Ok(v@) && wf_workflow(v@),
            Result::Err(e) => spec_decode_workflow(*n, policy) == Result::<
                SpecWorkflow,
                SpecErr,
            >::Err(e@),
        },
{
    let entries = match &n.kind {
        NodeKind::Mapping(es) => es,
        _ => {
            return Result::Err(
                DecodeError::at(
                    ErrorKind::ShapeMismatch {
                        expected: KindName::MappingKind,
                        found: n.kind_name(),
                    },
                    n.loc,
                ),
            );
        },
    };
    let mut allowed: Vec<String> = Vec::new();
    allowed.push("name".to_owned());
    allowed.push("run-name".to_owned());
    allowed.push("on".to_owned());
    allowed.push("permissions".to_owned());
    allowed.push("env".to_owned());
    allowed.push("defaults".to_owned());
    allowed.push("concurrency".to_owned());
    allowed.push("jobs".to_owned());
    proof {
        assert(allowed@.map_values(|s: String| s@) =~= spec_workflow_keys());
    }
    match check_keys(entries, &allowed, policy, n.loc) {
        Result::Ok(_) => {},
        Result::Err(e) => {
            return Result::Err(e);
        },
    }
    let name = match text_field(entries, "name") {
        Result::Err(e) => {
            return Result::Err(e);
        },
        Result::Ok(s) => s,
    };
    let run_name = match text_field(entries, "run-name") {
        Result::Err(e) => {
            return Result::Err(e);
        },
        Result::Ok(s) => s,
    };
    let on = match lookup(entries, "on") {
        Option::None => {
            return Result::Err(
                DecodeError::at(ErrorKind::MissingRequiredField { field: "on".to_owned() }, n.loc),
            );
        },
        Option::Some(onn) => match decode_trigger(onn, policy) {
            Result::Err(e) => {
                return Result::Err(e.under_key("on"));
            },
            Result::Ok(t) => t,
        },
    };
    let permissions = match permissions_field(entries, policy) {
        Result::Err(e) => {
            return Result::Err(e);
        },
        Result::Ok(p) => p,
    };
    let env = match env_field(entries, "env") {
        Result::Err(e) => {
            return Result::Err(e);
        },
        Result::Ok(v) => v,
    };
    let defaults = match lookup(entries, "defaults") {
        Option::None => Option::None,
        Option::Some(v) => if matches!(&v.kind, NodeKind::Null) {
            Option::None
        } else {
            match decode_defaults(v, policy) {
                Result::Err(e) => {
                    return Result::Err(e.under_key("defaults"));
                },
                Result::Ok(d) => Option::Some(d),
            }
        },
    };
    let concurrency = match lookup(entries, "concurrency") {
        Option::None => Option::None,
        Option::Some(v) => if matches!(&v.kind, NodeKind::Null) {
            Option::None
        } else {
            match decode_concurrency(v, policy) {
                Result::Err(e) => {
                    return Result::Err(e.under_key("concurrency"));
                },
                Result::Ok(c) => Option::Some(c),
            }
        },
    };
    let jobs = match lookup(entries, "jobs") {
        Option::None => {
            return Result::Err(
                DecodeError::at(
                    ErrorKind::MissingRequiredField { field: "jobs".to_owned() },
                    n.loc,
                ),
            );
        },
        Option::Some(v) => match &v.kind {
            NodeKind::Mapping(js) => match decode_job_entries(js, policy) {
                Result::Err(e) => {
                    return Result::Err(e.under_key("jobs"));
                },
                Result::Ok(jobs) => jobs,
            },
            _ => {
                let e = DecodeError::at(
                    ErrorKind::ShapeMismatch {
                        expected: KindName::MappingKind,
                        found: v.kind_name(),
                    },
                    v.loc,
                );
                return Result::Err(e.under_key("jobs"));
            },
        },
    };
    Result::Ok(Workflow { name, run_name, on, permissions, env, defaults, concurrency, jobs })
}

/// Every workflow this decoder can produce: each expression branch it
/// holds is a recognized placeholder.
pub open spec fn wf_workflow(w: SpecWorkflow) -> bool {
    &&& match w.concurrency {
        Option::Some(c) => boe_wf(c.cancel_in_progress),
        Option::None => true,
    }
    &&& forall|i: int| 0 <= i < w.jobs.len() ==> wf_job(#[trigger] w.jobs[i].1)
}

/// Writes a workflow back as a mapping node, every declared field under
/// its key, optional fields as null.  Decoding the result under either
/// policy gives the workflow back: encode followed by decode is the
/// identity on every well-formed workflow, which is the round-trip law
/// of this decoder.
#[verifier::rlimit(100)]
pub fn encode_workflow(w: &Workflow) -> (n: Node)
    requires
        wf_workflow(w@),
    ensures
        n.kind is Mapping,
        forall|pol: UnknownFieldPolicy| #[trigger]
            spec_decode_workflow(n, pol) == Result::<SpecWorkflow, SpecErr>::Ok(w@),
{
    let mut jobs_entries: Vec<(String, Node)> = Vec::new();
    let mut i: usize = 0;
    while i < w.jobs.len()
        invariant
            i <= w.jobs@.len(),
            wf_workflow(w@),
            jobs_entries@.len() == i,
            forall|j: int|
                0 <= j < i ==> (#[trigger] jobs_entries@[j].0@) == w.jobs@[j].0@ && forall|
                    pol: UnknownFieldPolicy,
                | #[trigger]
                    spec_decode_job(jobs_entries@[j].1, pol) == Result::<SpecJob, SpecErr>::Ok(
                        w.jobs@[j].1@,
                    ),
        decreases w.jobs@.len() - i,
    {
        proof {
            assert(jobs_view(w.jobs@)[i as int] == (w.jobs@[i as int].0@, w.jobs@[i as int].1@));
            assert(wf_job(w@.jobs[i as int].1));
        }
        let jn = encode_job(&w.jobs[i].1);
        jobs_entries.push((w.jobs[i].0.clone(), jn));
        i = i + 1;
    }
    let jobs_node = Node::new(NodeKind::Mapping(jobs_entries));
    let mut entries: Vec<(String, Node)> = Vec::new();
    entries.push(("name".to_owned(), opt_text_node(&w.name)));
    entries.push(("run-name".to_owned(), opt_text_node(&w.run_name)));
    entries.push(("on".to_owned(), encode_trigger(&w.on)));
    entries.push(("permissions".to_owned(), encode_permissions(&w.permissions)));
    entries.push(("env".to_owned(), encode_env(&w.env)));
    let defaults_node = match &w.defaults {
        Option::Some(d) => encode_defaults(d),
        Option::None => Node::new(NodeKind::Null),
    };
    entries.push(("defaults".to_owned(), defaults_node));
    let concurrency_node = match &w.concurrency {
        Option::Some(c) => encode_concurrency(c),
        Option::None => Node::new(NodeKind::Null),
    };
    entries.push(("concurrency".to_owned(), concurrency_node));
    entries.push(("jobs".to_owned(), jobs_node));
    let n = Node::new(NodeKind::Mapping(entries));
    proof {
        let es = n.kind->Mapping_0@;
        reveal_strlit("name");
        reveal_strlit("run-name");
        reveal_strlit("on");
        reveal_strlit("permissions");
        reveal_strlit("env");
        reveal_strlit("defaults");
        reveal_strlit("concurrency");
        reveal_strlit("jobs");
        reveal_with_fuel(spec_lookup, 10);
        reveal_with_fuel(spec_first_unknown, 10);
        assert(es[0].0@ == "name"@);
        assert(es[1].0@ == "run-name"@);
        assert(es[2].0@ == "on"@);
        assert(es[3].0@ == "permissions"@);
        assert(es[4].0@ == "env"@);
        assert(es[5].0@ == "defaults"@);
        assert(es[6].0@ == "concurrency"@);
        assert(es[7].0@ == "jobs"@);
        assert("name"@.len() == 4 && "run-name"@.len() == 8 && "on"@.len() == 2
            && "permissions"@.len() == 11 && "env"@.len() == 3 && "defaults"@.len() == 8
            && "concurrency"@.len() == 11 && "jobs"@.len() == 4);
        assert("name"@[0] == 'n' && "jobs"@[0] == 'j');
        assert("run-name"@[0] == 'r' && "defaults"@[0] == 'd');
        assert("permissions"@[0] == 'p' && "concurrency"@[0] == 'c');
        assert(spec_lookup(es, "name"@) == Option::Some(es[0].1));
        assert(spec_lookup(es, "run-name"@) == Option::Some(es[1].1));
        assert(spec_lookup(es, "on"@) == Option::Some(es[2].1));
        assert(spec_lookup(es, "permissions"@) == Option::Some(es[3].1));
        assert(spec_lookup(es, "env"@) == Option::Some(es[4].1));
        assert(spec_lookup(es, "defaults"@) == Option::Some(es[5].1));
        assert(spec_lookup(es, "concurrency"@) == Option::Some(es[6].1));
        assert(spec_lookup(es, "jobs"@) == Option::Some(es[7].1));
        assert(key_allowed("name"@, spec_workflow_keys())) by {
            assert(spec_workflow_keys()[0] == "name"@);
        }
        assert(key_allowed("run-name"@, spec_workflow_keys())) by {
            assert(spec_workflow_keys()[1] == "run-name"@);
        }
        assert(key_allowed("on"@, spec_workflow_keys())) by {
            assert(spec_workflow_keys()[2] == "on"@);
        }
        assert(key_allowed("permissions"@, spec_workflow_keys())) by {
            assert(spec_workflow_keys()[3] == "permissions"@);
        }
        assert(key_allowed("env"@, spec_workflow_keys())) by {
            assert(spec_workflow_keys()[4] == "env"@);
        }
        assert(key_allowed("defaults"@, spec_workflow_keys())) by {
            assert(spec_workflow_keys()[5] == "defaults"@);
        }
        assert(key_allowed("concurrency"@, spec_workflow_keys())) by {
            assert(spec_workflow_keys()[6] == "concurrency"@);
        }
        assert(key_allowed("jobs"@, spec_workflow_keys())) by {
            assert(spec_workflow_keys()[7] == "jobs"@);
        }
        assert(spec_first_unknown(es, spec_workflow_keys()) is None);
        assert(spec_text_field(es, "name"@) == Result::<Option<Seq<char>>, SpecErr>::Ok(
            opt_text_view(w.name),
        ));
        assert(spec_text_field(es, "run-name"@) == Result::<Option<Seq<char>>, SpecErr>::Ok(
            opt_text_view(w.run_name),
        ));
        assert(spec_env_field(es, "env"@) == Result::<Seq<(Seq<char>, SpecEnvValue)>, SpecErr>::Ok(
            env_view(w.env@),
        ));
        assert forall|pol: UnknownFieldPolicy| #[trigger] spec_decode_workflow(n, pol)
            == Result::<SpecWorkflow, SpecErr>::Ok(w@) by {
            lemma_job_entries_roundtrip(jobs_node.kind->Mapping_0@, jobs_view(w.jobs@), pol);
            assert(spec_jobs_field(es, pol, n.loc) == Result::<
                Seq<(Seq<char>, SpecJob)>,
                SpecErr,
            >::Ok(jobs_view(w.jobs@)));
            assert(spec_defaults_field(es, pol) == Result::<Option<SpecDefaults>, SpecErr>::Ok(
                w@.defaults,
            ));
            assert(spec_concurrency_field(es, pol) == Result::<
                Option<SpecConcurrency>,
                SpecErr,
            >::Ok(w@.concurrency));
            assert(spec_permissions_field(es, pol) == Result::<Permissions, SpecErr>::Ok(
                w.permissions,
            ));
        }
    }
    n
}

} // verus!
