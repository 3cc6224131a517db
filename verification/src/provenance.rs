//! Who made a change: human, AI or agent attribution.

use vstd::prelude::*;
use crate::attrs::{attr_entries, attrs_clone, attrs_insert, attrs_new, entry_insert, AttrMap};
use crate::node::clone_opt_string;
use crate::text::opt_str_view;

verus! {

#[derive(Debug, Clone, Copy, PartialEq, Eq, Hash, Structural)]
pub enum ActorKind {
    Human,
    Ai,
    Agent,
}

#[derive(Debug)]
pub struct Actor {
    pub kind: ActorKind,
    pub id: Option<String>,
    pub agent: Option<String>,
    pub model: Option<String>,
}

/// One tool call the AI made: name plus the JSON text of its arguments and output.
#[derive(Debug)]
pub struct ToolCall {
    pub name: String,
    pub arguments: Option<String>,
    pub output: Option<String>,
}

/// Provenance metadata. The AI sampling temperature is kept as the text it
/// was given in.
#[derive(Debug)]
pub enum Provenance {
    Code { file: String, symbol: Option<String>, commit: Option<String> },
    UserInput,
    ExternalDocument { uri: String },
    Operation {
        actor: Actor,
        task: Option<String>,
        reason: Option<String>,
        prompt: Option<String>,
        tool_calls: Vec<ToolCall>,
        temperature: Option<String>,
        input_refs: AttrMap,
        output: Option<String>,
        reasoning_summary: Option<String>,
    },
}

/// An actor as plain values.
pub struct ActorV {
    pub kind: ActorKind,
    pub id: Option<Seq<char>>,
    pub agent: Option<Seq<char>>,
    pub model: Option<Seq<char>>,
}

impl View for Actor {
    type V = ActorV;

    open spec fn view(&self) -> ActorV {
        ActorV {
            kind: self.kind,
            id: opt_str_view(self.id),
            agent: opt_str_view(self.agent),
            model: opt_str_view(self.model),
        }
    }
}

/// A tool call as plain values.
pub struct ToolCallV {
    pub name: Seq<char>,
    pub arguments: Option<Seq<char>>,
    pub output: Option<Seq<char>>,
}

impl View for ToolCall {
    type V = ToolCallV;

    open spec fn view(&self) -> ToolCallV {
        ToolCallV { name: self.name@, arguments: opt_str_view(self.arguments), output: opt_str_view(self.output) }
    }
}

pub open spec fn tool_calls_view(v: Seq<ToolCall>) -> Seq<ToolCallV> {
    v.map_values(|c: ToolCall| c@)
}

/// Provenance as plain values.
pub enum ProvenanceV {
    Code { file: Seq<char>, symbol: Option<Seq<char>>, commit: Option<Seq<char>> },
    UserInput,
    ExternalDocument { uri: Seq<char> },
    Operation {
        actor: ActorV,
        task: Option<Seq<char>>,
        reason: Option<Seq<char>>,
        prompt: Option<Seq<char>>,
        tool_calls: Seq<ToolCallV>,
        temperature: Option<Seq<char>>,
        input_refs: Seq<(Seq<char>, Seq<char>)>,
        output: Option<Seq<char>>,
        reasoning_summary: Option<Seq<char>>,
    },
}

impl View for Provenance {
    type V = ProvenanceV;

    open spec fn view(&self) -> ProvenanceV {
        match self {
            Provenance::Code { file, symbol, commit } => ProvenanceV::Code {
                file: file@,
                symbol: opt_str_view(*symbol),
                commit: opt_str_view(*commit),
            },
            Provenance::UserInput => ProvenanceV::UserInput,
            Provenance::ExternalDocument { uri } => ProvenanceV::ExternalDocument { uri: uri@ },
            Provenance::Operation {
                actor,
                task,
                reason,
                prompt,
                tool_calls,
                temperature,
                input_refs,
                output,
                reasoning_summary,
            } => ProvenanceV::Operation {
                actor: actor@,
                task: opt_str_view(*task),
                reason: opt_str_view(*reason),
                prompt: opt_str_view(*prompt),
                tool_calls: tool_calls_view(tool_calls@),
                temperature: opt_str_view(*temperature),
                input_refs: attr_entries(*input_refs),
                output: opt_str_view(*output),
                reasoning_summary: opt_str_view(*reasoning_summary),
            },
        }
    }
}

/// The attribution of a change the library makes for a human it does not
/// name (a revert or a merge): no task, reason, prompt, tool calls or
/// references.
pub open spec fn unnamed_human() -> ProvenanceV {
    ProvenanceV::Operation {
        actor: ActorV { kind: ActorKind::Human, id: None, agent: None, model: None },
        task: None,
        reason: None,
        prompt: None,
        tool_calls: Seq::empty(),
        temperature: None,
        input_refs: Seq::empty(),
        output: None,
        reasoning_summary: None,
    }
}

impl Clone for Actor {
    fn clone(&self) -> (r: Self)
        ensures
            r@ == self@,
    {
        Actor {
            kind: self.kind,
            id: clone_opt_string(&self.id),
            agent: clone_opt_string(&self.agent),
            model: clone_opt_string(&self.model),
        }
    }
}

impl Clone for ToolCall {
    fn clone(&self) -> (r: Self)
        ensures
            r@ == self@,
    {
        ToolCall {
            name: self.name.clone(),
            arguments: clone_opt_string(&self.arguments),
            output: clone_opt_string(&self.output),
        }
    }
}

impl Clone for Provenance {
    fn clone(&self) -> (r: Self)
        ensures
            r@ == self@,
    {
        match self {
            Provenance::Code { file, symbol, commit } => Provenance::Code {
                file: file.clone(),
                symbol: clone_opt_string(symbol),
                commit: clone_opt_string(commit),
            },
            Provenance::UserInput => Provenance::UserInput,
            Provenance::ExternalDocument { uri } => Provenance::ExternalDocument { uri: uri.clone() },
            Provenance::Operation {
                actor,
                task,
                reason,
                prompt,
                tool_calls,
                temperature,
                input_refs,
                output,
                reasoning_summary,
            } => {
                let mut calls: Vec<ToolCall> = Vec::new();
                let mut i: usize = 0;
                while i < tool_calls.len()
                    invariant
                        i <= tool_calls@.len(),
                        tool_calls_view(calls@) == tool_calls_view(tool_calls@.take(i as int)),
                    decreases tool_calls@.len() - i,
                {
                    let c = tool_calls[i].clone();
                    let ghost before = calls@;
                    calls.push(c);
                    proof {
                        assert(tool_calls@.take(i + 1) =~= tool_calls@.take(i as int).push(tool_calls@[i as int]));
                        assert(calls@ =~= before.push(c));
                        assert(tool_calls_view(calls@) =~= tool_calls_view(before).push(c@));
                        assert(tool_calls_view(tool_calls@.take(i + 1)) =~= tool_calls_view(tool_calls@.take(i as int)).push(tool_calls@[i as int]@));
                    }
                    i = i + 1;
                }
                proof {
                    assert(tool_calls@.take(tool_calls@.len() as int) =~= tool_calls@);
                }
                Provenance::Operation {
                    actor: actor.clone(),
                    task: clone_opt_string(task),
                    reason: clone_opt_string(reason),
                    prompt: clone_opt_string(prompt),
                    tool_calls: calls,
                    temperature: clone_opt_string(temperature),
                    input_refs: attrs_clone(input_refs),
                    output: clone_opt_string(output),
                    reasoning_summary: clone_opt_string(reasoning_summary),
                }
            },
        }
    }
}

/// Edit attribution for `actor` with every optional field empty.
pub open spec fn is_bare_operation(p: Provenance, actor_kind: ActorKind) -> bool {
    &&& p matches Provenance::Operation {
        actor,
        task,
        reason,
        prompt,
        tool_calls,
        temperature,
        input_refs,
        output,
        reasoning_summary,
    }
    &&& actor.kind == actor_kind
    &&& task is None
    &&& reason is None
    &&& prompt is None
    &&& tool_calls@.len() == 0
    &&& temperature is None
    &&& attr_entries(input_refs).len() == 0
    &&& output is None
    &&& reasoning_summary is None
}

impl Provenance {
    /// Human edit attribution.
    pub fn human(id: Option<String>) -> (r: Provenance)
        ensures
            r@ == (ProvenanceV::Operation {
                actor: ActorV { kind: ActorKind::Human, id: opt_str_view(id), agent: None, model: None },
                task: None,
                reason: None,
                prompt: None,
                tool_calls: Seq::empty(),
                temperature: None,
                input_refs: Seq::empty(),
                output: None,
                reasoning_summary: None,
            }),
            is_bare_operation(r, ActorKind::Human),
            r matches Provenance::Operation { actor, .. } && actor.id == id && actor.agent is None
                && actor.model is None,
    {
        let calls: Vec<ToolCall> = Vec::new();
        let r = Provenance::Operation {
            actor: Actor { kind: ActorKind::Human, id, agent: None, model: None },
            task: None,
            reason: None,
            prompt: None,
            tool_calls: calls,
            temperature: None,
            input_refs: attrs_new(),
            output: None,
            reasoning_summary: None,
        };
        assert(tool_calls_view(calls@) =~= Seq::<ToolCallV>::empty());
        r
    }

    /// AI edit attribution.
    pub fn ai(agent: String, model: Option<String>) -> (r: Provenance)
        ensures
            is_bare_operation(r, ActorKind::Ai),
            r matches Provenance::Operation { actor, .. } && actor.id is None && actor.agent
                == Some(agent) && actor.model == model,
    {
        Provenance::Operation {
            actor: Actor { kind: ActorKind::Ai, id: None, agent: Some(agent), model },
            task: None,
            reason: None,
            prompt: None,
            tool_calls: Vec::new(),
            temperature: None,
            input_refs: attrs_new(),
            output: None,
            reasoning_summary: None,
        }
    }

    /// Start building AI attribution step by step.
    pub fn ai_builder(agent: String, model: Option<String>) -> (r: AiProvenanceBuilder)
        ensures
            is_bare_operation(r.inner, ActorKind::Ai),
            r.inner matches Provenance::Operation { actor, .. } && actor.id is None && actor.agent
                == Some(agent) && actor.model == model,
    {
        AiProvenanceBuilder { inner: Self::ai(agent, model) }
    }
}

/// Builder for AI attribution; each step returns the builder.
pub struct AiProvenanceBuilder {
    pub inner: Provenance,
}

impl AiProvenanceBuilder {
    pub fn task(self, task: String) -> (r: Self)
        ensures
            r.inner == (match self.inner {
                Provenance::Operation {
                    actor,
                    task: _,
                    reason,
                    prompt,
                    tool_calls,
                    temperature,
                    input_refs,
                    output,
                    reasoning_summary,
                } => Provenance::Operation {
                    actor,
                    task: Some(task),
                    reason,
                    prompt,
                    tool_calls,
                    temperature,
                    input_refs,
                    output,
                    reasoning_summary,
                },
                other => other,
            }),
    {
        let mut s = self;
        if let Provenance::Operation { task: t, .. } = &mut s.inner {
            *t = Some(task);
        }
        s
    }

    pub fn reason(self, reason: String) -> (r: Self)
        ensures
            r.inner == (match self.inner {
                Provenance::Operation {
                    actor,
                    task,
                    reason: _,
                    prompt,
                    tool_calls,
                    temperature,
                    input_refs,
                    output,
                    reasoning_summary,
                } => Provenance::Operation {
                    actor,
                    task,
                    reason: Some(reason),
                    prompt,
                    tool_calls,
                    temperature,
                    input_refs,
                    output,
                    reasoning_summary,
                },
                other => other,
            }),
    {
        let mut s = self;
        if let Provenance::Operation { reason: t, .. } = &mut s.inner {
            *t = Some(reason);
        }
        s
    }

    pub fn prompt(self, prompt: String) -> (r: Self)
        ensures
            r.inner == (match self.inner {
                Provenance::Operation {
                    actor,
                    task,
                    reason,
                    prompt: _,
                    tool_calls,
                    temperature,
                    input_refs,
                    output,
                    reasoning_summary,
                } => Provenance::Operation {
                    actor,
                    task,
                    reason,
                    prompt: Some(prompt),
                    tool_calls,
                    temperature,
                    input_refs,
                    output,
                    reasoning_summary,
                },
                other => other,
            }),
    {
        let mut s = self;
        if let Provenance::Operation { prompt: t, .. } = &mut s.inner {
            *t = Some(prompt);
        }
        s
    }

    /// Record the sampling temperature, given as its decimal text.
    pub fn temperature(self, t: String) -> (r: Self)
        ensures
            r.inner == (match self.inner {
                Provenance::Operation {
                    actor,
                    task,
                    reason,
                    prompt,
                    tool_calls,
                    temperature: _,
                    input_refs,
                    output,
                    reasoning_summary,
                } => Provenance::Operation {
                    actor,
                    task,
                    reason,
                    prompt,
                    tool_calls,
                    temperature: Some(t),
                    input_refs,
                    output,
                    reasoning_summary,
                },
                other => other,
            }),
    {
        let mut s = self;
        if let Provenance::Operation { temperature: v, .. } = &mut s.inner {
            *v = Some(t);
        }
        s
    }

    pub fn reasoning_summary(self, summary: String) -> (r: Self)
        ensures
            r.inner == (match self.inner {
                Provenance::Operation {
                    actor,
                    task,
                    reason,
                    prompt,
                    tool_calls,
                    temperature,
                    input_refs,
                    output,
                    reasoning_summary: _,
                } => Provenance::Operation {
                    actor,
                    task,
                    reason,
                    prompt,
                    tool_calls,
                    temperature,
                    input_refs,
                    output,
                    reasoning_summary: Some(summary),
                },
                other => other,
            }),
    {
        let mut s = self;
        if let Provenance::Operation { reasoning_summary: v, .. } = &mut s.inner {
            *v = Some(summary);
        }
        s
    }

    /// Append one tool call (arguments and output as JSON text).
    pub fn tool_call(self, name: String, arguments: Option<String>, output: Option<String>) -> (r:
        Self)
        ensures
            match (self.inner, r.inner) {
                (
                    Provenance::Operation {
                        actor: a0,
                        task: t0,
                        reason: r0,
                        prompt: p0,
                        tool_calls: c0,
                        temperature: e0,
                        input_refs: i0,
                        output: o0,
                        reasoning_summary: s0,
                    },
                    Provenance::Operation {
                        actor: a1,
                        task: t1,
                        reason: r1,
                        prompt: p1,
                        tool_calls: c1,
                        temperature: e1,
                        input_refs: i1,
                        output: o1,
                        reasoning_summary: s1,
                    },
                ) => a0 == a1 && t0 == t1 && r0 == r1 && p0 == p1 && e0 == e1 && i0 == i1 && o0
                    == o1 && s0 == s1 && c1@ == c0@.push(ToolCall { name, arguments, output }),
                (Provenance::Operation { .. }, _) => false,
                (other, r1) => r1 == other,
            },
    {
        let mut s = self;
        if let Provenance::Operation { tool_calls: t, .. } = &mut s.inner {
            t.push(ToolCall { name, arguments, output });
        }
        s
    }

    /// Record one input reference (kind -> id); a repeated kind is replaced in place.
    pub fn input_ref(self, kind: String, id: String) -> (r: Self)
        ensures
            match (self.inner, r.inner) {
                (
                    Provenance::Operation {
                        actor: a0,
                        task: t0,
                        reason: r0,
                        prompt: p0,
                        tool_calls: c0,
                        temperature: e0,
                        input_refs: i0,
                        output: o0,
                        reasoning_summary: s0,
                    },
                    Provenance::Operation {
                        actor: a1,
                        task: t1,
                        reason: r1,
                        prompt: p1,
                        tool_calls: c1,
                        temperature: e1,
                        input_refs: i1,
                        output: o1,
                        reasoning_summary: s1,
                    },
                ) => a0 == a1 && t0 == t1 && r0 == r1 && p0 == p1 && e0 == e1 && c0 == c1 && o0
                    == o1 && s0 == s1 && attr_entries(i1) == entry_insert(
                    attr_entries(i0),
                    kind@,
                    id@,
                ),
                (Provenance::Operation { .. }, _) => false,
                (other, r1) => r1 == other,
            },
    {
        let mut s = self;
        if let Provenance::Operation { input_refs: m, .. } = &mut s.inner {
            attrs_insert(m, kind, id);
        }
        s
    }

    pub fn build(self) -> (r: Provenance)
        ensures
            r == self.inner,
    {
        self.inner
    }
}

} // verus!
