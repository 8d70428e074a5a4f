//! Action handlers defined by configuration: proposing an action at the
//! cursor and resolving it into an edit.

use vstd::prelude::*;
use crate::config::{CodeAction, Hint, PlacementStrategy, matches_from, resolved_from};
use crate::coords::{IndexedText, TextRange, internal_to_wire_range};
use crate::document::{ParsedDocument, SyntaxNode, byte_span_text, span_of};
use crate::placement::{TextEdit, place, first_hit, is_first_hit, placement_range, placement_text};
use crate::prompt::{build_prompt, opt_view, pair_views, prompt_of, wrap_answer, wrapped_answer};
use crate::text::concat_str;

verus! {

/// What an action carries between proposal and resolution: the document
/// and the range of the context node.
#[derive(Clone, Debug)]
pub struct ActionContext {
    pub uri: String,
    pub selection_range: TextRange,
}

/// The opaque payload of a proposed action: the handler's identifier and
/// the handler's data.
#[derive(Clone, Debug)]
pub struct ResolveAction<T> {
    /// The data to be resolved.
    pub data: T,
    /// The unique identifier of the handler that resolves the action.
    pub id: String,
}

/// The part of the payload that routing reads.
#[derive(Clone, Debug)]
pub struct ResolveActionKind {
    pub id: String,
}

/// An action offered to the editor.
#[derive(Clone, Debug)]
pub struct ProposedAction {
    pub title: String,
    pub resolve: ResolveAction<ActionContext>,
}

/// Why a resolution produced no edit.
#[derive(Clone, Copy, Debug, PartialEq, Eq, Structural)]
pub enum ResolveError {
    /// No node stands at the recorded context range any more.
    NoContext,
    /// The text-generation service failed.
    GenerationFailed,
    /// No placement query matched in the context node.
    NoPlacement,
    /// A script declined a step of the resolution.
    Cancelled,
    /// The edit's range does not lie inside the document.
    OutOfDocument,
}

/// The title prefix of configured and scripted actions.
pub open spec fn title_of(name: Seq<char>) -> Seq<char> {
    "Polyglot: "@ + name
}

pub fn action_title(name: &str) -> (r: String)
    ensures
        r@ == title_of(name@),
{
    proof {
        reveal_strlit("Polyglot: ");
    }
    concat_str("Polyglot: ", name)
}

/// Every capture of every query names a node of the tree.
pub open spec fn captures_in(caps: Seq<Vec<usize>>, n: nat) -> bool {
    forall|j: int, k: int| 0 <= j < caps.len() && 0 <= k < caps[j].len() ==> (#[trigger] caps[j]@[k]) < n
}

/// The texts that feed the prompt: for each hint in order whose query
/// matched, its name and the text of its first match.
pub open spec fn hint_texts_of(
    hints: Seq<Hint>,
    caps: Seq<Vec<usize>>,
    nodes: Seq<SyntaxNode>,
    source: Seq<char>,
) -> Seq<(Seq<char>, Seq<char>)>
    decreases hints.len(),
{
    if hints.len() == 0 || caps.len() != hints.len() {
        Seq::empty()
    } else {
        let prev = hint_texts_of(hints.drop_last(), caps.drop_last(), nodes, source);
        let last = caps.last();
        if last.len() > 0 {
            let n = nodes[last@[0] as int];
            match byte_span_text(source, n.start_byte as int, n.end_byte as int) {
                Some(t) => prev.push((hints.last().name@, t)),
                None => prev,
            }
        } else {
            prev
        }
    }
}

/// The edit that the first matching placement strategy makes for `answer`.
pub open spec fn planned_edit(
    strategies: Seq<PlacementStrategy>,
    caps: Seq<Vec<usize>>,
    nodes: Seq<SyntaxNode>,
    j: int,
    answer: Seq<char>,
    e: TextEdit,
) -> bool {
    let n = nodes[caps[j]@[0] as int];
    &&& e.range == placement_range(strategies[j].position, n)
    &&& e.new_text@ == placement_text(strategies[j].position, n, answer)
}

/// A handler defined by one action of a configuration file.
pub struct YamlProvider {
    pub config: CodeAction,
    pub id: String,
}

impl YamlProvider {
    pub fn from_config(config: CodeAction, id: &str) -> (r: YamlProvider)
        ensures
            r.config == config,
            r.id@ == id@,
    {
        YamlProvider { config, id: id.to_owned() }
    }

    /// Whether this handler resolves actions with the identifier `action_name`.
    pub fn can_handle(&self, action_name: &str) -> (r: bool)
        ensures
            r == (action_name@ == self.id@),
    {
        action_name.to_owned() == self.id
    }

    /// Some trigger of the action fires at `cursor`.
    pub open spec fn fires(&self, nodes: Seq<SyntaxNode>, cursor: Option<usize>) -> bool {
        exists|t: int|
            0 <= t < self.config.triggers.len() && #[trigger] matches_from(
                nodes,
                self.config.triggers@[t].kind@,
                self.config.triggers@[t].relation,
                cursor,
            )
    }

    /// Offers the action when a trigger fires at `cursor` and the context
    /// node is found from it; the action records the context node's range.
    pub fn create_code_action(&self, doc: &ParsedDocument, cursor: Option<usize>) -> (r: Option<ProposedAction>)
        requires
            doc.wf(),
            cursor matches Some(i) ==> i < doc.nodes.len(),
        ensures
            !self.fires(doc.nodes@, cursor) ==> r is None,
            self.fires(doc.nodes@, cursor) ==> (r is None <==> resolved_from(
                doc.nodes@,
                self.config.context.kind@,
                self.config.context.relation,
                cursor,
                None,
            )),
            r matches Some(a) ==> exists|c: usize|
                c < doc.nodes.len() && #[trigger] resolved_from(
                    doc.nodes@,
                    self.config.context.kind@,
                    self.config.context.relation,
                    cursor,
                    Some(c),
                ) && a.resolve.data.selection_range == span_of(doc.nodes@[c as int]),
            r matches Some(a) ==> a.title@ == title_of(self.config.name@) && a.resolve.id@ == self.id@
                && a.resolve.data.uri@ == doc.uri@,
    {
        let mut triggered = false;
        let mut t: usize = 0;
        while t < self.config.triggers.len()
            invariant
                t <= self.config.triggers.len(),
                doc.wf(),
                cursor matches Some(i) ==> i < doc.nodes.len(),
                triggered <==> exists|m: int|
                    0 <= m < t && #[trigger] matches_from(
                        doc.nodes@,
                        self.config.triggers@[m].kind@,
                        self.config.triggers@[m].relation,
                        cursor,
                    ),
            decreases self.config.triggers.len() - t,
        {
            if self.config.triggers[t].is_triggered(&doc.nodes, cursor) {
                triggered = true;
            }
            t = t + 1;
        }
        if !triggered {
            return None;
        }
        match self.config.context.find(&doc.nodes, cursor) {
            Some(c) => {
                let selection_range = TextRange { start: doc.nodes[c].start, end: doc.nodes[c].end };
                Some(ProposedAction {
                    title: action_title(self.config.name.as_str()),
                    resolve: ResolveAction {
                        id: self.id.clone(),
                        data: ActionContext { uri: doc.uri.clone(), selection_range },
                    },
                })
            },
            None => None,
        }
    }

    /// The hint texts, from the captures of each hint's query in the
    /// context node, in textual order.
    pub fn hint_texts(&self, doc: &ParsedDocument, hint_captures: &Vec<Vec<usize>>) -> (r: Vec<(String, String)>)
        requires
            hint_captures.len() == self.config.context.hints.len(),
            captures_in(hint_captures@, doc.nodes.len() as nat),
        ensures
            pair_views(r@) == hint_texts_of(self.config.context.hints@, hint_captures@, doc.nodes@, doc.source@),
    {
        let ghost hints = self.config.context.hints@;
        let mut out: Vec<(String, String)> = Vec::new();
        let mut j: usize = 0;
        while j < hint_captures.len()
            invariant
                j <= hint_captures.len(),
                hint_captures.len() == hints.len(),
                hints == self.config.context.hints@,
                captures_in(hint_captures@, doc.nodes.len() as nat),
                pair_views(out@) == hint_texts_of(hints.take(j as int), hint_captures@.take(j as int), doc.nodes@, doc.source@),
            decreases hint_captures.len() - j,
        {
            assert(hints.take(j + 1).drop_last() =~= hints.take(j as int));
            assert(hint_captures@.take(j + 1).drop_last() =~= hint_captures@.take(j as int));
            let ghost before = out@;
            if hint_captures[j].len() > 0 {
                let node = hint_captures[j][0];
                assert(node == hint_captures@[j as int]@[0]);
                match doc.text_from_node(node) {
                    Some(text) => {
                        out.push((self.config.context.hints[j].name.clone(), text));
                        assert(pair_views(out@) =~= pair_views(before).push((hints[j as int].name@, out@.last().1@)));
                    },
                    None => {},
                }
            }
            j = j + 1;
        }
        assert(hints.take(j as int) =~= hints);
        assert(hint_captures@.take(j as int) =~= hint_captures@);
        out
    }

    /// The prompt for a resolution: `NoContext` when no node stands at the
    /// recorded range, else the template filled with the hint texts.
    pub fn resolve_prompt(
        &self,
        doc: &ParsedDocument,
        ctx_node: Option<usize>,
        hint_captures: &Vec<Vec<usize>>,
    ) -> (r: Result<String, ResolveError>)
        requires
            hint_captures.len() == self.config.context.hints.len(),
            captures_in(hint_captures@, doc.nodes.len() as nat),
        ensures
            ctx_node is None ==> r == Err::<String, ResolveError>(ResolveError::NoContext),
            ctx_node is Some ==> (r matches Ok(p) && p@ == prompt_of(
                self.config.prompt_template@,
                hint_texts_of(self.config.context.hints@, hint_captures@, doc.nodes@, doc.source@),
            )),
    {
        if ctx_node.is_none() {
            return Err(ResolveError::NoContext);
        }
        let hints = self.hint_texts(doc, hint_captures);
        let p = build_prompt(self.config.prompt_template.as_str(), &hints);
        Ok(p)
    }

    /// `e` is what the first strategy, in declared order, whose query
    /// matched makes at its first capture, for the answer embedded in the
    /// answer template.
    pub open spec fn placed_answer(
        &self,
        nodes: Seq<SyntaxNode>,
        caps: Seq<Vec<usize>>,
        answer: Seq<char>,
        e: TextEdit,
    ) -> bool {
        exists|j: int|
            is_first_hit(caps, j) && #[trigger] planned_edit(
                self.config.placement_strategies@,
                caps,
                nodes,
                j,
                wrapped_answer(opt_view(self.config.answer_template), answer),
                e,
            )
    }

    /// The edit for a generated answer: a failed generation gives no edit;
    /// else the answer, embedded in the answer template if there is one, is
    /// placed by the first strategy, in declared order, whose query matched,
    /// at its first capture.
    pub fn on_resolve(
        &self,
        doc: &ParsedDocument,
        answer: &Result<String, String>,
        placement_captures: &Vec<Vec<usize>>,
    ) -> (r: Result<TextEdit, ResolveError>)
        requires
            placement_captures.len() == self.config.placement_strategies.len(),
            captures_in(placement_captures@, doc.nodes.len() as nat),
        ensures
            answer is Err ==> r == Err::<TextEdit, ResolveError>(ResolveError::GenerationFailed),
            answer is Ok && r is Err ==> r == Err::<TextEdit, ResolveError>(ResolveError::NoPlacement),
            answer is Ok ==> (r is Err <==> forall|m: int|
                0 <= m < placement_captures.len() ==> (#[trigger] placement_captures@[m]).len() == 0),
            answer matches Ok(a) ==> (r matches Ok(e) ==> self.placed_answer(doc.nodes@, placement_captures@, a@, e)),
    {
        let a = match answer {
            Ok(a) => a,
            Err(_) => return Err(ResolveError::GenerationFailed),
        };
        let text = wrap_answer(&self.config.answer_template, a.as_str());
        match first_hit(placement_captures) {
            None => Err(ResolveError::NoPlacement),
            Some(j) => {
                let node = placement_captures[j][0];
                assert(node == placement_captures@[j as int]@[0]);
                let e = place(self.config.placement_strategies[j].position, &doc.nodes[node], text.as_str());
                assert(planned_edit(
                    self.config.placement_strategies@,
                    placement_captures@,
                    doc.nodes@,
                    j as int,
                    wrapped_answer(opt_view(self.config.answer_template), a@),
                    e,
                ));
                Ok(e)
            },
        }
    }
}

/// The proposal with its recorded range in the wire encoding, as it goes
/// to the editor; `None` when the range does not translate.
pub fn proposal_to_wire(a: ProposedAction, index: &IndexedText) -> (r: Option<ProposedAction>)
    requires
        index.wf(),
    ensures
        match internal_to_wire_range(index.text@, a.resolve.data.selection_range) {
            Some(w) => r matches Some(b) && b.resolve.data.selection_range == w && b.title@ == a.title@
                && b.resolve.id@ == a.resolve.id@ && b.resolve.data.uri@ == a.resolve.data.uri@,
            None => r is None,
        },
{
    match index.internal_to_wire(&a.resolve.data.selection_range) {
        Some(w) => Some(ProposedAction {
            title: a.title,
            resolve: ResolveAction { id: a.resolve.id, data: ActionContext { uri: a.resolve.data.uri, selection_range: w } },
        }),
        None => None,
    }
}

/// Translates an edit's range into the wire encoding; `OutOfDocument` when
/// it does not translate.
pub fn map_to_lsp(edit: TextEdit, index: &IndexedText) -> (r: Result<TextEdit, ResolveError>)
    requires
        index.wf(),
    ensures
        match internal_to_wire_range(index.text@, edit.range) {
            Some(w) => r matches Ok(e) && e.range == w && e.new_text@ == edit.new_text@,
            None => r == Err::<TextEdit, ResolveError>(ResolveError::OutOfDocument),
        },
{
    match index.internal_to_wire(&edit.range) {
        Some(w) => Ok(TextEdit { range: w, new_text: edit.new_text }),
        None => Err(ResolveError::OutOfDocument),
    }
}

} // verus!
