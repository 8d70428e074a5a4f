use polyglot_ls::config::{CodeAction, Context, Hint, PlacementStrategy, Position, Relation, Trigger};
use polyglot_ls::coords::{IndexedText, TextPosition, TextRange};
use polyglot_ls::dispatch::{config_action_id, Handler, Registry};
use polyglot_ls::document::{child, child_by_field_name, children, findup, sibling, ParsedDocument, SyntaxNode};
use polyglot_ls::lua::{answer_text, LuaProvider, LuaProviderError, LuaRange};
use polyglot_ls::placement::{first_hit, place};
use polyglot_ls::prompt::{build_prompt, wrap_answer};
use polyglot_ls::provider::{map_to_lsp, proposal_to_wire, ResolveError, YamlProvider};
use polyglot_ls::python::{EnhanceCommentProvider, EnhanceFunctionArgsProvider, EnhanceFunctionDocstringProvider};

fn pos(line: u32, character: u32) -> TextPosition {
    TextPosition { line, character }
}

fn node(kind: &str, parent: Option<usize>, s: (u32, u32), e: (u32, u32), sb: usize, eb: usize) -> SyntaxNode {
    SyntaxNode {
        kind: kind.to_string(),
        parent,
        start: pos(s.0, s.1),
        end: pos(e.0, e.1),
        start_byte: sb,
        end_byte: eb,
        named: true,
        field: None,
        id: 0,
    }
}

/// `def f(a, b):\n    pass\n`
fn plain_function() -> ParsedDocument {
    let nodes = vec![
        node("module", None, (0, 0), (2, 0), 0, 22),
        node("function_definition", Some(0), (0, 0), (1, 8), 0, 21),
        node("identifier", Some(1), (0, 4), (0, 5), 4, 5),
        node("parameters", Some(1), (0, 5), (0, 11), 5, 11),
        node("block", Some(1), (1, 4), (1, 8), 17, 21),
        node("pass_statement", Some(4), (1, 4), (1, 8), 17, 21),
    ];
    ParsedDocument::from_parts("def f(a, b):\n    pass\n", "file:///f.py", "python", nodes).unwrap()
}

/// `def f(a, b):\n    """Old."""\n    pass\n`
fn documented_function() -> ParsedDocument {
    let src = "def f(a, b):\n    \"\"\"Old.\"\"\"\n    pass\n";
    let nodes = vec![
        node("module", None, (0, 0), (3, 0), 0, 37),
        node("function_definition", Some(0), (0, 0), (2, 8), 0, 36),
        node("parameters", Some(1), (0, 5), (0, 11), 5, 11),
        node("block", Some(1), (1, 4), (2, 8), 17, 36),
        node("expression_statement", Some(3), (1, 4), (1, 14), 17, 27),
        node("string", Some(4), (1, 4), (1, 14), 17, 27),
        node("pass_statement", Some(3), (2, 4), (2, 8), 32, 36),
    ];
    ParsedDocument::from_parts(src, "file:///f.py", "python", nodes).unwrap()
}

fn docstring_action() -> CodeAction {
    CodeAction {
        name: "docstring".to_string(),
        triggers: vec![Trigger { kind: "function_definition".to_string(), relation: Relation::Findup }],
        context: Context {
            kind: "function_definition".to_string(),
            relation: Relation::Findup,
            hints: vec![Hint { name: "code".to_string(), query: "(function_definition) @f".to_string() }],
        },
        placement_strategies: vec![
            PlacementStrategy { query: "docstring".to_string(), position: Position::ReplaceBlock },
            PlacementStrategy { query: "body".to_string(), position: Position::Before },
        ],
        prompt_template: "Document <<<code>>> please".to_string(),
        answer_template: None,
    }
}

#[test]
fn arena_with_forward_parent_is_refused() {
    let nodes = vec![node("a", Some(1), (0, 0), (0, 1), 0, 1), node("b", None, (0, 0), (0, 1), 0, 1)];
    assert!(ParsedDocument::from_parts("x", "u", "python", nodes).is_none());
}

#[test]
fn findup_returns_nearest_ancestor() {
    let doc = plain_function();
    let k = "function_definition".to_string();
    assert_eq!(findup(&doc.nodes, Some(5), &k), Some(1));
    assert_eq!(findup(&doc.nodes, Some(1), &k), Some(1));
    assert_eq!(findup(&doc.nodes, Some(5), &"block".to_string()), Some(4));
    assert_eq!(findup(&doc.nodes, Some(5), &"class_definition".to_string()), None);
    assert_eq!(findup(&doc.nodes, None, &k), None);
}

#[test]
fn triggers_exact_and_findup() {
    let doc = plain_function();
    let exact = Trigger { kind: "pass_statement".to_string(), relation: Relation::Exact };
    let up = Trigger { kind: "function_definition".to_string(), relation: Relation::Findup };
    assert!(exact.is_triggered(&doc.nodes, Some(5)));
    assert!(!exact.is_triggered(&doc.nodes, Some(4)));
    assert!(up.is_triggered(&doc.nodes, Some(5)));
    assert!(!up.is_triggered(&doc.nodes, Some(0)));
    assert!(!up.is_triggered(&doc.nodes, None));
    let ctx = Context { kind: "block".to_string(), relation: Relation::Exact, hints: vec![] };
    assert_eq!(ctx.find(&doc.nodes, Some(4)), Some(4));
    assert_eq!(ctx.find(&doc.nodes, Some(5)), None);
}

#[test]
fn node_text_and_range_text() {
    let doc = plain_function();
    assert_eq!(doc.text_from_node(3), Some("(a, b)".to_string()));
    assert_eq!(doc.text_from_node(5), Some("pass".to_string()));
    let r = TextRange { start: pos(0, 4), end: pos(1, 8) };
    assert_eq!(doc.text_from_range(&r), Some("f(a, b):\n    pass".to_string()));
    let copy = doc.duplicate();
    assert_eq!(copy.source, doc.source);
    assert_eq!(copy.nodes.len(), doc.nodes.len());
}

#[test]
fn update_replaces_text_and_tree_together() {
    let mut doc = plain_function();
    assert!(doc.tree.is_none());
    doc.update("x = 1\n");
    assert_eq!(doc.source, "x = 1\n");
    assert!(doc.tree.is_some());
    assert_eq!(doc.nodes[0].kind, "module");
    assert!(doc.nodes.iter().any(|n| n.kind == "assignment"));
}

#[test]
fn parsing_builds_an_arena_in_preorder() {
    let doc = ParsedDocument::new("def f(a, b):\n    pass\n", "file:///f.py", "python");
    assert_eq!(doc.nodes[0].kind, "module");
    assert_eq!(doc.nodes[0].parent, None);
    for (i, n) in doc.nodes.iter().enumerate() {
        if let Some(p) = n.parent {
            assert!(p < i);
        }
    }
    let f = doc.nodes.iter().position(|n| n.kind == "function_definition").unwrap();
    assert_eq!(doc.nodes[f].start, pos(0, 0));
    assert_eq!(doc.nodes[f].end, pos(1, 8));
    let params = child_by_field_name(&doc.nodes, f, "parameters").unwrap();
    assert_eq!(doc.text_from_node(params), Some("(a, b)".to_string()));
    let body = child_by_field_name(&doc.nodes, f, "body").unwrap();
    assert_eq!(doc.nodes[body].kind, "block");
    let cursor = doc.node_for_range(&TextRange { start: pos(1, 5), end: pos(1, 5) }).unwrap();
    assert_eq!(findup(&doc.nodes, Some(cursor), &"function_definition".to_string()), Some(f));
    let copy = doc.duplicate();
    assert!(copy.tree.is_some());
    assert_eq!(copy.nodes.len(), doc.nodes.len());
    assert_eq!(copy.node_for_range(&TextRange { start: pos(1, 5), end: pos(1, 5) }), Some(cursor));
    for (i, n) in doc.nodes.iter().enumerate() {
        assert_eq!(n.parent.is_none(), i == 0);
    }
    assert_eq!(doc.node_for_range(&TextRange { start: pos(7, 0), end: pos(7, 0) }), None);
    let whole = doc.node_for_range(&TextRange { start: pos(0, 0), end: pos(1, 8) }).unwrap();
    assert_eq!(whole, f);
    assert!(ParsedDocument::new("fn main() {}", "u", "rust").nodes.iter().any(|n| n.kind == "function_item"));
    assert!(ParsedDocument::new("package m", "u", "go").nodes.iter().any(|n| n.kind == "package_clause"));
}

#[test]
fn scenario_with_parsed_document() {
    let doc = ParsedDocument::new("def f(a, b):\n    pass\n", "file:///f.py", "python");
    let cursor = doc.node_for_range(&TextRange { start: pos(1, 6), end: pos(1, 6) });
    let p = EnhanceFunctionDocstringProvider::new();
    let action = p.create_code_action(&doc, cursor).unwrap();
    assert_eq!(action.resolve.data.selection_range, TextRange { start: pos(0, 0), end: pos(1, 8) });
    let f = doc.nodes.iter().position(|n| n.kind == "function_definition").unwrap();
    let body = child_by_field_name(&doc.nodes, f, "body");
    let edit = p.on_resolve(&doc, Some(f), &Ok("\"\"\"Do f.\"\"\"".to_string()), None, body).unwrap();
    assert_eq!(edit.range, TextRange { start: pos(1, 0), end: pos(1, 0) });
    assert_eq!(edit.new_text, "    \"\"\"Do f.\"\"\"\n");
}

#[test]
fn scenario_insert_docstring_above_body() {
    let doc = plain_function();
    let p = EnhanceFunctionDocstringProvider::new();
    let action = p.create_code_action(&doc, Some(5)).unwrap();
    assert_eq!(action.title, "Update Function Docstring");
    assert_eq!(action.resolve.data.selection_range, TextRange { start: pos(0, 0), end: pos(1, 8) });
    let edit = p.on_resolve(&doc, Some(1), &Ok("\"\"\"Do f.\"\"\"".to_string()), None, Some(4)).unwrap();
    assert_eq!(edit.range, TextRange { start: pos(1, 0), end: pos(1, 0) });
    assert_eq!(edit.new_text, "    \"\"\"Do f.\"\"\"\n");
}

#[test]
fn scenario_replace_existing_docstring() {
    let doc = documented_function();
    let p = EnhanceFunctionDocstringProvider::new();
    let edit = p.on_resolve(&doc, Some(1), &Ok("\"\"\"New.\nMore.\"\"\"".to_string()), Some(5), Some(3)).unwrap();
    assert_eq!(edit.range, TextRange { start: pos(1, 0), end: pos(1, 14) });
    assert_eq!(edit.new_text, "    \"\"\"New.\n    More.\"\"\"");
}

#[test]
fn configured_action_proposes_and_resolves() {
    let doc = plain_function();
    let p = YamlProvider::from_config(docstring_action(), "/cfg/python/doc.yaml.0");
    assert!(p.can_handle("/cfg/python/doc.yaml.0"));
    assert!(!p.can_handle("/cfg/python/doc.yaml.1"));
    let action = p.create_code_action(&doc, Some(5)).unwrap();
    assert_eq!(action.title, "Polyglot: docstring");
    assert_eq!(action.resolve.id, "/cfg/python/doc.yaml.0");
    assert_eq!(action.resolve.data.uri, "file:///f.py");
    assert!(p.create_code_action(&doc, None).is_none());
    let prompt = p.resolve_prompt(&doc, Some(1), &vec![vec![1]]).unwrap();
    assert_eq!(prompt, "Document def f(a, b):\n    pass please");
    assert_eq!(p.resolve_prompt(&doc, None, &vec![vec![1]]), Err(ResolveError::NoContext));
    let edit = p.on_resolve(&doc, &Ok("\"\"\"Doc.\"\"\"".to_string()), &vec![vec![], vec![4, 5]]).unwrap();
    assert_eq!(edit.range, TextRange { start: pos(1, 0), end: pos(1, 0) });
    assert_eq!(edit.new_text, "    \"\"\"Doc.\"\"\"\n");
}

#[test]
fn first_matching_placement_wins() {
    let doc = documented_function();
    let p = YamlProvider::from_config(docstring_action(), "id");
    let edit = p.on_resolve(&doc, &Ok("x".to_string()), &vec![vec![5, 2], vec![3]]).unwrap();
    assert_eq!(edit.range, TextRange { start: pos(1, 0), end: pos(1, 14) });
    assert_eq!(edit.new_text, "    x");
    assert_eq!(first_hit(&vec![vec![], vec![], vec![7]]), Some(2));
    assert_eq!(first_hit(&vec![vec![], vec![]]), None);
}

#[test]
fn no_placement_match_is_an_error() {
    let doc = plain_function();
    let p = YamlProvider::from_config(docstring_action(), "id");
    assert_eq!(p.on_resolve(&doc, &Ok("x".to_string()), &vec![vec![], vec![]]), Err(ResolveError::NoPlacement));
}

#[test]
fn generation_failure_gives_no_edit() {
    let doc = plain_function();
    let p = YamlProvider::from_config(docstring_action(), "id");
    assert_eq!(p.on_resolve(&doc, &Err("timeout".to_string()), &vec![vec![], vec![4]]), Err(ResolveError::GenerationFailed));
    let f = EnhanceFunctionDocstringProvider::new();
    assert_eq!(f.on_resolve(&doc, Some(1), &Err("down".to_string()), None, Some(4)), Err(ResolveError::GenerationFailed));
    assert_eq!(answer_text(Err("down".to_string())), Err(ResolveError::GenerationFailed));
    assert_eq!(answer_text(Ok("a".to_string())), Ok("a".to_string()));
}

#[test]
fn script_not_triggered_proposes_nothing() {
    let p = LuaProvider::try_new("/cfg/__all__/x.lua", Ok("return {}".to_string())).unwrap();
    let sel = TextRange { start: pos(3, 1), end: pos(3, 2) };
    assert!(p.create_code_action("file:///a", &sel, false, "Fix").is_none());
    let a = p.create_code_action("file:///a", &sel, true, "Fix").unwrap();
    assert_eq!(a.title, "Polyglot: Fix");
    assert_eq!(a.resolve.data.selection_range, sel);
    assert_eq!(a.resolve.id, "/cfg/__all__/x.lua");
}

#[test]
fn script_steps_cancel_on_nothing() {
    let sel = TextRange { start: pos(0, 0), end: pos(0, 3) };
    assert_eq!(LuaProvider::plan_resolve(None, Some("p".to_string())), Err(ResolveError::Cancelled));
    assert_eq!(LuaProvider::plan_resolve(Some(sel), None), Err(ResolveError::Cancelled));
    assert_eq!(LuaProvider::plan_resolve(Some(sel), Some("p".to_string())), Ok((sel, "p".to_string())));
    assert!(LuaProvider::finish_resolve(sel, None).is_err());
    let e = LuaProvider::finish_resolve(sel, Some("t".to_string())).unwrap();
    assert_eq!(e.range, sel);
    assert_eq!(e.new_text, "t");
    match LuaProvider::try_new("x.lua", Err("missing".to_string())) {
        Err(LuaProviderError::FileReadError(m)) => assert_eq!(m, "missing"),
        _ => panic!("expected a read error"),
    }
}

#[test]
fn lua_range_converts_both_ways() {
    let r = TextRange { start: pos(1, 2), end: pos(3, 4) };
    let l: LuaRange = r.into();
    assert_eq!(l, LuaRange { start_line: 1, end_line: 3, start_character: 2, end_character: 4 });
    let back: TextRange = l.into();
    assert_eq!(back, r);
}

#[test]
fn placement_strategies_shape_the_edit() {
    let n = node("block", None, (2, 4), (3, 9), 0, 0);
    let block = place(Position::ReplaceBlock, &n, "a\nb");
    assert_eq!(block.range, TextRange { start: pos(2, 0), end: pos(3, 9) });
    assert_eq!(block.new_text, "    a\n    b");
    let exact = place(Position::ReplaceExact, &n, "a\nb");
    assert_eq!(exact.range, TextRange { start: pos(2, 4), end: pos(3, 9) });
    assert_eq!(exact.new_text, "a\nb");
    let before = place(Position::Before, &n, "a");
    assert_eq!(before.range, TextRange { start: pos(2, 0), end: pos(2, 0) });
    assert_eq!(before.new_text, "    a\n");
}

#[test]
fn prompt_and_answer_templates() {
    let hints = vec![("name".to_string(), "f".to_string()), ("body".to_string(), "pass".to_string())];
    assert_eq!(build_prompt("<<<name>>>: <<<body>>> <<<x>>>", &hints), "f: pass <<<x>>>");
    assert_eq!(wrap_answer(&Some("[<<<ANSWER>>>]".to_string()), "hi"), "[hi]");
    assert_eq!(wrap_answer(&None, "hi"), "hi");
}

#[test]
fn comment_and_args_edits() {
    let doc = plain_function();
    let c = EnhanceCommentProvider::new();
    assert!(c.create_code_action(&doc, Some(5)).is_none());
    let e = c.on_resolve(&doc, Some(5), &Ok("# better".to_string())).unwrap();
    assert_eq!(e.range, TextRange { start: pos(1, 4), end: pos(1, 8) });
    assert_eq!(e.new_text, "# better");
    let a = EnhanceFunctionArgsProvider::new();
    let e = a.on_resolve(&doc, Some(1), &Ok("a: int, b: str".to_string()), Some(3)).unwrap();
    assert_eq!(e.range, TextRange { start: pos(0, 5), end: pos(0, 11) });
    assert_eq!(e.new_text, "(a: int, b: str)");
    assert_eq!(a.on_resolve(&doc, Some(1), &Ok("x".to_string()), None), Err(ResolveError::NoPlacement));
    assert!(EnhanceFunctionDocstringProvider::build_prompt("def g(): pass").contains("\ndef g(): pass\n"));
}

#[test]
fn edit_range_is_mapped_to_wire_units() {
    let idx = IndexedText::new("é = 1\n");
    let n = node("x", None, (0, 2), (0, 4), 0, 0);
    let e = map_to_lsp(place(Position::ReplaceExact, &n, "y"), &idx).unwrap();
    assert_eq!(e.range, TextRange { start: pos(0, 1), end: pos(0, 3) });
    let far = node("x", None, (5, 0), (5, 0), 0, 0);
    assert_eq!(map_to_lsp(place(Position::ReplaceExact, &far, "y"), &idx).err(), Some(ResolveError::OutOfDocument));
}

#[test]
fn registry_routes_to_first_claiming_handler() {
    let mut reg = Registry::new();
    let id0 = config_action_id("/cfg/python/a.yaml", 0);
    assert_eq!(id0, "/cfg/python/a.yaml.0");
    assert_eq!(config_action_id("b.yaml", 120), "b.yaml.120");
    reg.register("python", Handler::Yaml(YamlProvider::from_config(docstring_action(), &id0)));
    reg.register("__all__", Handler::Lua(LuaProvider::try_new("/cfg/__all__/s.lua", Ok(String::new())).unwrap()));
    reg.register("python", Handler::Lua(LuaProvider::try_new("/cfg/python/t.lua", Ok(String::new())).unwrap()));
    assert_eq!(reg.buckets.len(), 2);
    assert_eq!(reg.handlers_for("python"), vec![(0, 0), (0, 1), (1, 0)]);
    assert_eq!(reg.handlers_for("rust"), vec![(1, 0)]);
    assert_eq!(reg.find_resolver("/cfg/python/t.lua", "python"), Some((0, 1)));
    assert_eq!(reg.find_resolver("/cfg/__all__/s.lua", "go"), Some((1, 0)));
    assert_eq!(reg.find_resolver("/cfg/python/t.lua", "go"), None);
    assert_eq!(reg.find_resolver("nothing", "python"), None);
}

#[test]
fn node_navigation_follows_arena_order() {
    let mut nodes = vec![
        node("call", None, (0, 0), (0, 6), 0, 6),
        node("identifier", Some(0), (0, 0), (0, 1), 0, 1),
        node("(", Some(0), (0, 1), (0, 2), 1, 2),
        node("argument", Some(0), (0, 2), (0, 5), 2, 5),
        node(")", Some(0), (0, 5), (0, 6), 5, 6),
    ];
    nodes[2].named = false;
    nodes[4].named = false;
    nodes[1].field = Some("function".to_string());
    nodes[3].field = Some("arguments".to_string());
    let doc = ParsedDocument::from_parts("f(abc)", "u", "python", nodes).unwrap();
    assert_eq!(children(&doc.nodes, 0, false), vec![1, 2, 3, 4]);
    assert_eq!(children(&doc.nodes, 0, true), vec![1, 3]);
    assert_eq!(child(&doc.nodes, 0, 2, false), Some(3));
    assert_eq!(child(&doc.nodes, 0, 1, true), Some(3));
    assert_eq!(child(&doc.nodes, 0, 2, true), None);
    assert_eq!(sibling(&doc.nodes, 2, true), Some(3));
    assert_eq!(sibling(&doc.nodes, 2, false), Some(1));
    assert_eq!(sibling(&doc.nodes, 4, true), None);
    assert_eq!(sibling(&doc.nodes, 1, false), None);
    assert_eq!(sibling(&doc.nodes, 0, true), None);
    assert_eq!(child_by_field_name(&doc.nodes, 0, "arguments"), Some(3));
    assert_eq!(child_by_field_name(&doc.nodes, 0, "body"), None);
}

#[test]
fn node_lookup_on_a_hand_built_arena() {
    let doc = plain_function();
    let r = |sl, sc, el, ec| TextRange { start: pos(sl, sc), end: pos(el, ec) };
    assert_eq!(doc.node_for_range(&r(1, 5, 1, 6)), Some(5));
    assert_eq!(doc.node_for_range(&r(0, 6, 0, 7)), Some(3));
    assert_eq!(doc.node_for_range(&r(0, 2, 1, 2)), Some(1));
    assert_eq!(doc.node_for_range(&r(3, 0, 3, 0)), None);
}

#[test]
fn script_that_fails_to_load_is_refused() {
    let p = LuaProvider::try_new("bad.lua", Ok("return {".to_string())).unwrap();
    match p.loaded(Err("unexpected end".to_string())) {
        Err(LuaProviderError::LuaParseError(m)) => assert_eq!(m, "unexpected end"),
        _ => panic!("expected a parse error"),
    }
    let q = LuaProvider::try_new("good.lua", Ok("return {}".to_string())).unwrap();
    assert_eq!(q.loaded(Ok(())).unwrap().id, "good.lua");
}

#[test]
fn proposal_range_goes_out_in_wire_units() {
    let idx = IndexedText::new("é = f(x)\n");
    let p = LuaProvider::try_new("s.lua", Ok(String::new())).unwrap();
    let sel = TextRange { start: pos(0, 4), end: pos(0, 9) };
    let a = p.create_code_action("file:///a", &sel, true, "X").unwrap();
    let w = proposal_to_wire(a, &idx).unwrap();
    assert_eq!(w.resolve.data.selection_range, TextRange { start: pos(0, 3), end: pos(0, 8) });
    assert_eq!(w.title, "Polyglot: X");
}
