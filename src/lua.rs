//! The decisions of script-backed actions. A script supplies whether it is
//! triggered, a prompt, a placement range and a post-processed answer; the
//! host runs it and hands those results here. A script post-processes its
//! answer itself: the answer template of declarative actions does not apply.

use vstd::prelude::*;
use crate::coords::{TextPosition, TextRange};
use crate::placement::TextEdit;
use crate::provider::{ActionContext, ProposedAction, ResolveAction, ResolveError, action_title, title_of};

verus! {

/// A range as scripts see it: four flat fields.
#[derive(Clone, Copy, Debug, PartialEq, Eq, Structural)]
pub struct LuaRange {
    pub start_line: u32,
    pub end_line: u32,
    pub start_character: u32,
    pub end_character: u32,
}

impl From<LuaRange> for TextRange {
    fn from(value: LuaRange) -> (r: TextRange) {
        TextRange {
            start: TextPosition { line: value.start_line, character: value.start_character },
            end: TextPosition { line: value.end_line, character: value.end_character },
        }
    }
}

impl vstd::std_specs::convert::FromSpecImpl<LuaRange> for TextRange {
    open spec fn obeys_from_spec() -> bool {
        true
    }

    open spec fn from_spec(value: LuaRange) -> TextRange {
        TextRange {
            start: TextPosition { line: value.start_line, character: value.start_character },
            end: TextPosition { line: value.end_line, character: value.end_character },
        }
    }
}

impl From<TextRange> for LuaRange {
    fn from(value: TextRange) -> (r: LuaRange) {
        LuaRange {
            start_line: value.start.line,
            end_line: value.end.line,
            start_character: value.start.character,
            end_character: value.end.character,
        }
    }
}

impl vstd::std_specs::convert::FromSpecImpl<TextRange> for LuaRange {
    open spec fn obeys_from_spec() -> bool {
        true
    }

    open spec fn from_spec(value: TextRange) -> LuaRange {
        LuaRange {
            start_line: value.start.line,
            end_line: value.end.line,
            start_character: value.start.character,
            end_character: value.end.character,
        }
    }
}

/// Why a script handler could not be created.
#[derive(Debug)]
pub enum LuaProviderError {
    /// The script file could not be read.
    FileReadError(String),
    /// The script could not be parsed.
    LuaParseError(String),
}

/// A handler backed by one script file, identified by the file's path.
pub struct LuaProvider {
    pub lua_source: String,
    pub id: String,
}

impl LuaProvider {
    /// The handler for the script at `file_name`, given what reading that
    /// file gave.
    pub fn try_new(file_name: &str, contents: Result<String, String>) -> (r: Result<LuaProvider, LuaProviderError>)
        ensures
            contents matches Ok(src) ==> (r matches Ok(p) && p.id@ == file_name@ && p.lua_source@ == src@),
            contents matches Err(e) ==> (r matches Err(LuaProviderError::FileReadError(m)) && m@ == e@),
    {
        match contents {
            Ok(src) => Ok(LuaProvider { lua_source: src, id: file_name.to_owned() }),
            Err(e) => Err(LuaProviderError::FileReadError(e)),
        }
    }

    /// The handler once its script has been evaluated: kept when the
    /// evaluation succeeded, refused with the evaluator's message otherwise.
    pub fn loaded(self, evaluation: Result<(), String>) -> (r: Result<LuaProvider, LuaProviderError>)
        ensures
            evaluation is Ok ==> (r matches Ok(p) && p.id@ == self.id@ && p.lua_source@ == self.lua_source@),
            evaluation matches Err(e) ==> (r matches Err(LuaProviderError::LuaParseError(m)) && m@ == e@),
    {
        match evaluation {
            Ok(()) => Ok(self),
            Err(e) => Err(LuaProviderError::LuaParseError(e)),
        }
    }

    pub fn can_handle(&self, action_name: &str) -> (r: bool)
        ensures
            r == (action_name@ == self.id@),
    {
        action_name.to_owned() == self.id
    }

    /// Offers the action at the selection when the script said it is
    /// triggered there; the action records the selection itself.
    pub fn create_code_action(
        &self,
        uri: &str,
        selection_range: &TextRange,
        triggered: bool,
        action_name: &str,
    ) -> (r: Option<ProposedAction>)
        ensures
            r is Some <==> triggered,
            r matches Some(a) ==> {
                &&& a.title@ == title_of(action_name@)
                &&& a.resolve.id@ == self.id@
                &&& a.resolve.data.uri@ == uri@
                &&& a.resolve.data.selection_range == *selection_range
            },
    {
        if !triggered {
            return None;
        }
        Some(ProposedAction {
            title: action_title(action_name),
            resolve: ResolveAction {
                id: self.id.clone(),
                data: ActionContext { uri: uri.to_owned(), selection_range: *selection_range },
            },
        })
    }

    /// The placement range and the prompt that the script gave; `Cancelled`
    /// when it gave either as nothing.
    pub fn plan_resolve(placement: Option<TextRange>, prompt: Option<String>) -> (r: Result<(TextRange, String), ResolveError>)
        ensures
            match (placement, prompt) {
                (Some(range), Some(p)) => r matches Ok(pair) && pair.0 == range && pair.1@ == p@,
                _ => r == Err::<(TextRange, String), ResolveError>(ResolveError::Cancelled),
            },
    {
        match (placement, prompt) {
            (Some(range), Some(p)) => Ok((range, p)),
            _ => Err(ResolveError::Cancelled),
        }
    }

    /// The edit: the processed answer at the planned range; `Cancelled`
    /// when the script's post-processing gave nothing.
    pub fn finish_resolve(range: TextRange, processed: Option<String>) -> (r: Result<TextEdit, ResolveError>)
        ensures
            match processed {
                Some(t) => r matches Ok(e) && e.range == range && e.new_text@ == t@,
                None => r == Err::<TextEdit, ResolveError>(ResolveError::Cancelled),
            },
    {
        match processed {
            Some(t) => Ok(TextEdit { range, new_text: t }),
            None => Err(ResolveError::Cancelled),
        }
    }
}

/// The generated text, or `GenerationFailed`: a failed generation never
/// leads to an edit.
pub fn answer_text(answer: Result<String, String>) -> (r: Result<String, ResolveError>)
    ensures
        answer matches Ok(a) ==> (r matches Ok(t) && t@ == a@),
        answer is Err ==> r == Err::<String, ResolveError>(ResolveError::GenerationFailed),
{
    match answer {
        Ok(a) => Ok(a),
        Err(_) => Err(ResolveError::GenerationFailed),
    }
}

} // verus!
