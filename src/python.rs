//! The built-in actions for Python: docstrings for functions and classes,
//! comment rewording, and parameter annotations.

use vstd::prelude::*;
use crate::config::Position;
use crate::coords::TextRange;
use crate::document::{ParsedDocument, findup, has_ancestor_of_kind, nearest_of_kind, span_of};
use crate::placement::{TextEdit, place, placement_range, placement_text};
use crate::provider::{ActionContext, ProposedAction, ResolveAction, ResolveError};
use crate::text::concat_str;

verus! {

/// The identifier of the action.
pub const FUNCTION_DOCSTRING_ACTION: &'static str = "povider.py.func_docstring";

/// Part of the prompt around the text it is about.
pub const FUNCTION_DOCSTRING_PRE: &'static str = r#"
Human: Write a google style docstring for a given function. Here is an example
    for

    def fetch_smalltable_rows(
        table_handle: smalltable.Table,
        keys: Sequence[bytes | str],
        require_all_keys: bool = False,
    ) -> Mapping[bytes, tuple[str, ...]]:

    how it can look like

        """Fetch rows from a Smalltable.

        Retrieves rows pertaining to the given keys from the Table instance
        represented by table_handle.  String keys will be UTF-8 encoded.

        Args:
            table_handle: An open smalltable.Table instance.
            keys: A sequence of strings representing the key of each table
              row to fetch.  String keys will be UTF-8 encoded.
            require_all_keys: If True only rows with values set for all keys will be
              returned.

        Returns:
            A dict mapping keys to the corresponding table row data
            fetched. Each row is represented as a tuple of strings. For
            example:

            {b'Serak': ('Rigel VII', 'Preparer'),
             b'Zim': ('Irk', 'Invader'),
             b'Lrrr': ('Omicron Persei 8', 'Emperor')}

            Returned keys are always bytes.  If a key from the keys argument is
            missing from the dictionary, then that row was not found in the
            table (and require_all_keys must have been False).

        Raises:
            IOError: An error occurred accessing the smalltable.

        Examples:
            >>> my_table = fetch_smalltable_rows(handle, ["id", "user"], True)
        """

    NEVER write anything else besides the docstring block. ONLY generate the docstring,
    It should include Args, Returns, Raise, Yield, Attributes, Notes, Example if necessary. First line must be in imperative mood. Do NOT output anything else after the docstring.
    Update and correct the pre-existing docstring, parametern names or types might have changed. Wrap everything to 88 chars.
    NEVER write back the initial code, JUST the docstring itself.

    Here is the task:
    <task>"#;

/// Part of the prompt around the text it is about.
pub const FUNCTION_DOCSTRING_POST: &'static str = r#"
</task>
    Assistant:

"#;

/// The identifier of the action.
pub const CLASS_DOCSTRING_ACTION: &'static str = "povider.py.class_docstring";

/// Part of the prompt around the text it is about.
pub const CLASS_DOCSTRING_PRE: &'static str = r#"
Human: Write a google style docstring for a given class not a function. JUST the class. Here is an example
    for

    class ExampleClass(object):


    this is how it can look like

        """The summary line for a class docstring should fit on one line.

        If the class has public attributes, they may be documented here
        in an ``Attributes`` section and follow the same formatting as a
        function's ``Args`` section. Alternatively, attributes may be documented
        inline with the attribute's declaration (see __init__ method below).

        Properties created with the ``@property`` decorator should be documented
        in the property's getter method.

        Attributes:
            attr1 (str): Description of `attr1`.
            attr2 (:obj:`int`, optional): Description of `attr2`.

        """

    NEVER write anything else besides the docstring block. No markdown like "```python". ONLY generate the docstring.
    It should include a summary of what th class is doing and attributes if necessary. First line must be in imperative mood. Do NOT output anything else after the docstring.
    Update and correct the pre-existing docstring. Wrap everything to 88 chars.
    NEVER write back the initial code, JUST the docstring itself.
    Here is the task:

    <task>"#;

/// Part of the prompt around the text it is about.
pub const CLASS_DOCSTRING_POST: &'static str = r#"
</task>
    Assistant:

"#;

/// The identifier of the action.
pub const COMMENT_ACTION: &'static str = "povider.py.comment";

/// Part of the prompt around the text it is about.
pub const COMMENT_PRE: &'static str = r#"
Human: Improve the comment by better grammer, fixing typos and concise expression.
    ONLY output the comment without explanations. Do not wrap it in any markdown. Just return the comment. Keep the start "\#" as it is a comment.
    <task>"#;

/// Part of the prompt around the text it is about.
pub const COMMENT_POST: &'static str = r#"
</task>
    Assistant:

"#;

/// The identifier of the action.
pub const FUNCTION_ARGS_ACTION: &'static str = "povider.py.func_args";

/// Part of the prompt around the text it is about.
pub const FUNCTION_ARGS_PRE: &'static str = r#"
Human: Enhance the function parameters by updating or adding python3 type annotations

for
    def fetch_smalltable_rows( table_handle, keys,
        require_all_keys: bool = False,
    ):

a version with annotations might look like

    def fetch_smalltable_rows(
        table_handle: smalltable.Table,
        keys: Sequence[bytes | str],
        require_all_keys: bool = False,
    ) -> Mapping[bytes, tuple[str, ...]]:


    Use the correct type by understand the function body. Do NOT use "Any" if you can derive the correct type from the function body.
    If there are pre-existing default values, keep them as they are oif they make sense.
    Remember, class methods start with "self" as first arguments without an annotation. Keep pre-existing "self" args.
    ONLY output the parameters comma-separated, without function name and parenthese

    Here is the task:
    <task>"#;

/// Part of the prompt around the text it is about.
pub const FUNCTION_ARGS_POST: &'static str = r#"
</task>
    Assistant:

"#;

/// The docstring of a function, as a query capture.
pub const FUNCTION_DOCSTRING_QUERY: &'static str = r#"
(function_definition
  body: (block
    (expression_statement
      (string) @docstring)))
"#;

/// The body of a function, as a query capture.
pub const FUNCTION_BODY_QUERY: &'static str = r#"
(function_definition
  body: (block) @body)
"#;

/// The docstring of a class, as a query capture.
pub const CLASS_DOCSTRING_QUERY: &'static str = r#"
(class_definition
    body: (block
      (expression_statement
        (string) @docstring)))"#;

/// The body of a class, as a query capture.
pub const CLASS_BODY_QUERY: &'static str = r#"
(class_definition
    body: (block) @body)
"#;

/// The parameter list of a function, as a query capture.
pub const PARAMETERS_QUERY: &'static str = r#"
(function_definition
        parameters: (parameters) @parameters)
"#;

/// A prompt framed by a fixed preamble and closing, each set off by a newline.
pub open spec fn framed(pre: Seq<char>, text: Seq<char>, post: Seq<char>) -> Seq<char> {
    pre + seq!['\n'] + text + seq!['\n'] + post
}

fn frame(pre: &str, text: &str, post: &str) -> (r: String)
    ensures
        r@ == framed(pre@, text@, post@),
{
    proof {
        reveal_strlit("\n");
    }
    let a = concat_str(pre, "\n");
    let b = concat_str(a.as_str(), text);
    let c = concat_str(b.as_str(), "\n");
    concat_str(c.as_str(), post)
}

/// The proposal made for the nearest enclosing node of a kind.
pub open spec fn proposes_enclosing(
    doc: ParsedDocument,
    cursor: Option<usize>,
    kind: Seq<char>,
    title: Seq<char>,
    id: Seq<char>,
    r: Option<ProposedAction>,
) -> bool {
    &&& cursor is None ==> r is None
    &&& cursor matches Some(i) ==> (r is None <==> !has_ancestor_of_kind(doc.nodes@, i as int, kind))
    &&& cursor matches Some(i) ==> (r matches Some(a) ==> exists|c: int|
        #[trigger] nearest_of_kind(doc.nodes@, i as int, kind, c) && 0 <= c < doc.nodes.len()
            && a.resolve.data.selection_range == span_of(doc.nodes@[c]))
    &&& r matches Some(a) ==> a.title@ == title && a.resolve.id@ == id && a.resolve.data.uri@ == doc.uri@
}

fn propose_enclosing(doc: &ParsedDocument, cursor: Option<usize>, kind: &str, title: &str, id: &str) -> (r: Option<ProposedAction>)
    requires
        doc.wf(),
        cursor matches Some(i) ==> i < doc.nodes.len(),
    ensures
        proposes_enclosing(*doc, cursor, kind@, title@, id@, r),
{
    let k = kind.to_owned();
    match findup(&doc.nodes, cursor, &k) {
        Some(c) => {
            let selection_range = TextRange { start: doc.nodes[c].start, end: doc.nodes[c].end };
            Some(ProposedAction {
                title: title.to_owned(),
                resolve: ResolveAction {
                    id: id.to_owned(),
                    data: ActionContext { uri: doc.uri.clone(), selection_range },
                },
            })
        },
        None => None,
    }
}

/// The docstring edit: the reindented answer replaces the lines of the
/// existing docstring, or, when there is none, goes in new lines above the
/// first line of the body.
pub open spec fn docstring_result(
    doc: ParsedDocument,
    ctx_node: Option<usize>,
    answer: Result<String, String>,
    docstring: Option<usize>,
    body: Option<usize>,
    r: Result<TextEdit, ResolveError>,
) -> bool {
    if ctx_node is None {
        r == Err::<TextEdit, ResolveError>(ResolveError::NoContext)
    } else {
        match answer {
            Err(_) => r == Err::<TextEdit, ResolveError>(ResolveError::GenerationFailed),
            Ok(a) => match (docstring, body) {
                (Some(d), _) => r matches Ok(e) && e.range == placement_range(Position::ReplaceBlock, doc.nodes@[d as int])
                    && e.new_text@ == placement_text(Position::ReplaceBlock, doc.nodes@[d as int], a@),
                (None, Some(b)) => r matches Ok(e) && e.range == placement_range(Position::Before, doc.nodes@[b as int])
                    && e.new_text@ == placement_text(Position::Before, doc.nodes@[b as int], a@),
                (None, None) => r == Err::<TextEdit, ResolveError>(ResolveError::NoPlacement),
            },
        }
    }
}

fn docstring_edit(
    doc: &ParsedDocument,
    ctx_node: Option<usize>,
    answer: &Result<String, String>,
    docstring: Option<usize>,
    body: Option<usize>,
) -> (r: Result<TextEdit, ResolveError>)
    requires
        docstring matches Some(d) ==> d < doc.nodes.len(),
        body matches Some(b) ==> b < doc.nodes.len(),
    ensures
        docstring_result(*doc, ctx_node, *answer, docstring, body, r),
{
    if ctx_node.is_none() {
        return Err(ResolveError::NoContext);
    }
    let a = match answer {
        Ok(a) => a,
        Err(_) => return Err(ResolveError::GenerationFailed),
    };
    match docstring {
        Some(d) => Ok(place(Position::ReplaceBlock, &doc.nodes[d], a.as_str())),
        None => match body {
            Some(b) => Ok(place(Position::Before, &doc.nodes[b], a.as_str())),
            None => Err(ResolveError::NoPlacement),
        },
    }
}

/// Writes or rewrites the docstring of the function around the cursor.
pub struct EnhanceFunctionDocstringProvider {}

impl EnhanceFunctionDocstringProvider {
    pub fn new() -> Self {
        EnhanceFunctionDocstringProvider {}
    }

    pub fn can_handle(&self, action_name: &str) -> (r: bool)
        ensures
            r == (action_name@ == FUNCTION_DOCSTRING_ACTION@),
    {
        action_name.to_owned() == FUNCTION_DOCSTRING_ACTION.to_owned()
    }

    /// The prompt that asks for a docstring of the function's text.
    pub fn build_prompt(function_text: &str) -> (r: String)
        ensures
            r@ == framed(FUNCTION_DOCSTRING_PRE@, function_text@, FUNCTION_DOCSTRING_POST@),
    {
        frame(FUNCTION_DOCSTRING_PRE, function_text, FUNCTION_DOCSTRING_POST)
    }

    /// Offered inside a function; records the function's range.
    pub fn create_code_action(&self, doc: &ParsedDocument, cursor: Option<usize>) -> (r: Option<ProposedAction>)
        requires
            doc.wf(),
            cursor matches Some(i) ==> i < doc.nodes.len(),
        ensures
            proposes_enclosing(*doc, cursor, "function_definition"@, "Update Function Docstring"@, FUNCTION_DOCSTRING_ACTION@, r),
    {
        propose_enclosing(doc, cursor, "function_definition", "Update Function Docstring", FUNCTION_DOCSTRING_ACTION)
    }

    /// The edit, from the function node found at the recorded range, the
    /// answer, and the first captures of the docstring and body queries.
    pub fn on_resolve(
        &self,
        doc: &ParsedDocument,
        function_node: Option<usize>,
        answer: &Result<String, String>,
        docstring: Option<usize>,
        body: Option<usize>,
    ) -> (r: Result<TextEdit, ResolveError>)
        requires
            docstring matches Some(d) ==> d < doc.nodes.len(),
            body matches Some(b) ==> b < doc.nodes.len(),
        ensures
            docstring_result(*doc, function_node, *answer, docstring, body, r),
    {
        docstring_edit(doc, function_node, answer, docstring, body)
    }
}

/// Writes or rewrites the docstring of the class around the cursor.
pub struct EnhanceClassDocstringProvider {}

impl EnhanceClassDocstringProvider {
    pub fn new() -> Self {
        EnhanceClassDocstringProvider {}
    }

    pub fn can_handle(&self, action_name: &str) -> (r: bool)
        ensures
            r == (action_name@ == CLASS_DOCSTRING_ACTION@),
    {
        action_name.to_owned() == CLASS_DOCSTRING_ACTION.to_owned()
    }

    /// The prompt that asks for a docstring of the class's text.
    pub fn build_prompt(class_text: &str) -> (r: String)
        ensures
            r@ == framed(CLASS_DOCSTRING_PRE@, class_text@, CLASS_DOCSTRING_POST@),
    {
        frame(CLASS_DOCSTRING_PRE, class_text, CLASS_DOCSTRING_POST)
    }

    /// Offered inside a class; records the class's range.
    pub fn create_code_action(&self, doc: &ParsedDocument, cursor: Option<usize>) -> (r: Option<ProposedAction>)
        requires
            doc.wf(),
            cursor matches Some(i) ==> i < doc.nodes.len(),
        ensures
            proposes_enclosing(*doc, cursor, "class_definition"@, "Update Class Docstring"@, CLASS_DOCSTRING_ACTION@, r),
    {
        propose_enclosing(doc, cursor, "class_definition", "Update Class Docstring", CLASS_DOCSTRING_ACTION)
    }

    /// The edit, from the class node found at the recorded range, the
    /// answer, and the first captures of the docstring and body queries.
    pub fn on_resolve(
        &self,
        doc: &ParsedDocument,
        class_node: Option<usize>,
        answer: &Result<String, String>,
        docstring: Option<usize>,
        body: Option<usize>,
    ) -> (r: Result<TextEdit, ResolveError>)
        requires
            docstring matches Some(d) ==> d < doc.nodes.len(),
            body matches Some(b) ==> b < doc.nodes.len(),
        ensures
            docstring_result(*doc, class_node, *answer, docstring, body, r),
    {
        docstring_edit(doc, class_node, answer, docstring, body)
    }
}

/// Rewords the comment under the cursor.
pub struct EnhanceCommentProvider {}

impl EnhanceCommentProvider {
    pub fn new() -> Self {
        EnhanceCommentProvider {}
    }

    pub fn can_handle(&self, action_name: &str) -> (r: bool)
        ensures
            r == (action_name@ == COMMENT_ACTION@),
    {
        action_name.to_owned() == COMMENT_ACTION.to_owned()
    }

    /// The prompt that asks for a better wording of the comment.
    pub fn build_prompt(comment_text: &str) -> (r: String)
        ensures
            r@ == framed(COMMENT_PRE@, comment_text@, COMMENT_POST@),
    {
        frame(COMMENT_PRE, comment_text, COMMENT_POST)
    }

    /// Offered inside a comment; records the comment's range.
    pub fn create_code_action(&self, doc: &ParsedDocument, cursor: Option<usize>) -> (r: Option<ProposedAction>)
        requires
            doc.wf(),
            cursor matches Some(i) ==> i < doc.nodes.len(),
        ensures
            proposes_enclosing(*doc, cursor, "comment"@, "Update Comment"@, COMMENT_ACTION@, r),
    {
        propose_enclosing(doc, cursor, "comment", "Update Comment", COMMENT_ACTION)
    }

    /// The answer replaces exactly the comment found at the recorded range.
    pub fn on_resolve(
        &self,
        doc: &ParsedDocument,
        comment_node: Option<usize>,
        answer: &Result<String, String>,
    ) -> (r: Result<TextEdit, ResolveError>)
        requires
            comment_node matches Some(c) ==> c < doc.nodes.len(),
        ensures
            comment_node is None ==> r == Err::<TextEdit, ResolveError>(ResolveError::NoContext),
            comment_node matches Some(c) ==> match *answer {
                Err(_) => r == Err::<TextEdit, ResolveError>(ResolveError::GenerationFailed),
                Ok(a) => r matches Ok(e) && e.range == span_of(doc.nodes@[c as int]) && e.new_text@ == a@,
            },
    {
        let c = match comment_node {
            Some(c) => c,
            None => return Err(ResolveError::NoContext),
        };
        match answer {
            Ok(a) => Ok(place(Position::ReplaceExact, &doc.nodes[c], a.as_str())),
            Err(_) => Err(ResolveError::GenerationFailed),
        }
    }
}

/// Annotates the parameters of the function around the cursor.
pub struct EnhanceFunctionArgsProvider {}

impl EnhanceFunctionArgsProvider {
    pub fn new() -> Self {
        EnhanceFunctionArgsProvider {}
    }

    pub fn can_handle(&self, action_name: &str) -> (r: bool)
        ensures
            r == (action_name@ == FUNCTION_ARGS_ACTION@),
    {
        action_name.to_owned() == FUNCTION_ARGS_ACTION.to_owned()
    }

    /// The prompt that asks for annotated parameters of the function.
    pub fn build_prompt(function_text: &str) -> (r: String)
        ensures
            r@ == framed(FUNCTION_ARGS_PRE@, function_text@, FUNCTION_ARGS_POST@),
    {
        frame(FUNCTION_ARGS_PRE, function_text, FUNCTION_ARGS_POST)
    }

    /// Offered inside a function; records the function's range.
    pub fn create_code_action(&self, doc: &ParsedDocument, cursor: Option<usize>) -> (r: Option<ProposedAction>)
        requires
            doc.wf(),
            cursor matches Some(i) ==> i < doc.nodes.len(),
        ensures
            proposes_enclosing(*doc, cursor, "function_definition"@, "Update Function Args"@, FUNCTION_ARGS_ACTION@, r),
    {
        propose_enclosing(doc, cursor, "function_definition", "Update Function Args", FUNCTION_ARGS_ACTION)
    }

    /// The answer, in parentheses, replaces exactly the parameter list.
    pub fn on_resolve(
        &self,
        doc: &ParsedDocument,
        function_node: Option<usize>,
        answer: &Result<String, String>,
        parameters: Option<usize>,
    ) -> (r: Result<TextEdit, ResolveError>)
        requires
            parameters matches Some(p) ==> p < doc.nodes.len(),
        ensures
            function_node is None ==> r == Err::<TextEdit, ResolveError>(ResolveError::NoContext),
            function_node is Some ==> match *answer {
                Err(_) => r == Err::<TextEdit, ResolveError>(ResolveError::GenerationFailed),
                Ok(a) => match parameters {
                    None => r == Err::<TextEdit, ResolveError>(ResolveError::NoPlacement),
                    Some(p) => r matches Ok(e) && e.range == span_of(doc.nodes@[p as int])
                        && e.new_text@ == seq!['('] + a@ + seq![')'],
                },
            },
    {
        if function_node.is_none() {
            return Err(ResolveError::NoContext);
        }
        let a = match answer {
            Ok(a) => a,
            Err(_) => return Err(ResolveError::GenerationFailed),
        };
        let p = match parameters {
            Some(p) => p,
            None => return Err(ResolveError::NoPlacement),
        };
        proof {
            reveal_strlit("(");
            reveal_strlit(")");
        }
        let open = concat_str("(", a.as_str());
        let text = concat_str(open.as_str(), ")");
        Ok(place(Position::ReplaceExact, &doc.nodes[p], text.as_str()))
    }
}

} // verus!
