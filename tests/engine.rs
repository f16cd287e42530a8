use jsonatr::command::{split_command, trimmed_end};
use jsonatr::error::Error;
use jsonatr::expr::parse_expr;
use jsonatr::input::{Input, InputKind};
use jsonatr::json::Json;
use jsonatr::protocol::{Progress, Reply, Request};
use jsonatr::transformer::{SpecDoc, Transformer};

fn conv(v: &serde_json::Value) -> Json {
    match v {
        serde_json::Value::Null => Json::Null,
        serde_json::Value::Bool(b) => Json::Bool(*b),
        serde_json::Value::Number(n) => Json::Number(n.to_string()),
        serde_json::Value::String(s) => Json::Str(s.clone()),
        serde_json::Value::Array(a) => Json::Array(a.iter().map(conv).collect()),
        serde_json::Value::Object(m) => {
            Json::Object(m.iter().map(|(k, v)| (k.clone(), conv(v))).collect())
        }
    }
}

fn back(v: &Json) -> serde_json::Value {
    match v {
        Json::Null => serde_json::Value::Null,
        Json::Bool(b) => serde_json::Value::Bool(*b),
        Json::Number(t) => serde_json::from_str(t).unwrap(),
        Json::Str(s) => serde_json::Value::String(s.clone()),
        Json::Array(a) => serde_json::Value::Array(a.iter().map(back).collect()),
        Json::Object(m) => {
            serde_json::Value::Object(m.iter().map(|(k, v)| (k.clone(), back(v))).collect())
        }
    }
}

fn j(text: &str) -> Json {
    conv(&serde_json::from_str::<serde_json::Value>(text).unwrap())
}

fn s(t: &str) -> String {
    t.to_string()
}

fn load(text: &str) -> Transformer {
    let doc = SpecDoc::from_json(&j(text)).unwrap();
    Transformer::new(&doc, &Vec::new()).unwrap()
}

fn run_with(t: &Transformer, main: &Json, answer: &dyn Fn(&Request) -> Reply) -> Result<Json, Error> {
    let mut replies: Vec<Reply> = Vec::new();
    for _ in 0..100 {
        match t.transform(main, &replies) {
            Progress::Finished(v) => return Ok(v),
            Progress::Failed(e) => return Err(e),
            Progress::Needs(Request::Select { doc, path }) => {
                let doc = back(&doc);
                let reply = match jsonpath_lib::select(&doc, &path) {
                    Ok(found) => Reply::Selected(found.into_iter().map(conv).collect()),
                    Err(_) => Reply::SelectError,
                };
                replies.push(reply);
            }
            Progress::Needs(q) => replies.push(answer(&q)),
        }
    }
    panic!("too many requests");
}

fn no_outside(q: &Request) -> Reply {
    panic!("unexpected request {:?}", q)
}

fn run(spec: &str) -> Result<Json, Error> {
    run_with(&load(spec), &Json::Null, &no_outside)
}

fn keys(v: &Json) -> Vec<String> {
    match v {
        Json::Object(m) => m.iter().map(|(k, _)| k.clone()).collect(),
        _ => panic!("not an object"),
    }
}

#[test]
fn inline_input_keeps_key_order() {
    let spec = r#"{
        "input": [ { "name": "name", "kind": "INLINE", "source": "jsonatr" } ],
        "output": { "tool": "$name", "zeta": 1, "alpha": [true, null] }
    }"#;
    let out = run(spec).unwrap();
    assert_eq!(out, j(r#"{ "tool": "jsonatr", "zeta": 1, "alpha": [true, null] }"#));
    assert_eq!(keys(&out), vec![s("tool"), s("zeta"), s("alpha")]);
}

#[test]
fn unwrap_singleton_and_other_lengths() {
    let one = r#"{ "input": [ { "name": "arr", "kind": "INLINE", "source": [42] } ], "output": "$arr | unwrap" }"#;
    assert_eq!(run(one).unwrap(), j("42"));
    let two = r#"{ "input": [ { "name": "arr", "kind": "INLINE", "source": [1, 2] } ], "output": "$arr | unwrap" }"#;
    assert_eq!(run(two).unwrap(), j(r#""$arr | unwrap""#));
    let none = r#"{ "input": [ { "name": "arr", "kind": "INLINE", "source": [] } ], "output": "$arr | unwrap" }"#;
    assert_eq!(run(none).unwrap(), j(r#""$arr | unwrap""#));
}

#[test]
fn command_output_text_or_json() {
    let spec = r#"{
        "input": [
            { "name": "hello", "kind": "COMMAND", "source": "echo hello" },
            { "name": "num", "kind": "COMMAND", "source": "echo \"42\"", "stdin": false }
        ],
        "output": { "a": "$hello", "b": "$num" }
    }"#;
    let answer = |q: &Request| match q {
        Request::RunCommand { program, args, stdin } => {
            assert_eq!(program, "echo");
            if args == &vec![s("hello")] {
                assert_eq!(stdin, &Some(Json::Null));
                Reply::Output { text: s("hello\n"), parsed: None }
            } else {
                assert_eq!(args, &vec![s("42")]);
                assert_eq!(stdin, &None);
                Reply::Output { text: s("42\n"), parsed: Some(Json::Number(s("42"))) }
            }
        }
        _ => panic!("unexpected request"),
    };
    let out = run_with(&load(spec), &Json::Null, &answer).unwrap();
    assert_eq!(out, j(r#"{ "a": "hello", "b": 42 }"#));
}

#[test]
fn ifelse_picks_branch_by_truth() {
    let values = [
        ("0", "N"), ("\"\"", "N"), ("[]", "N"), ("null", "N"), ("false", "N"), ("{}", "N"), ("0.0", "N"),
        ("1", "Y"), ("\"x\"", "Y"), ("[0]", "Y"), ("{\"a\": 1}", "Y"), ("true", "Y"), ("2.5", "Y"),
    ];
    for (v, expect) in values {
        let spec = format!(
            r#"{{
                "input": [
                    {{ "name": "yes", "kind": "INLINE", "source": "Y" }},
                    {{ "name": "no", "kind": "INLINE", "source": "N" }},
                    {{ "name": "v", "kind": "INLINE", "source": {} }}
                ],
                "output": "$v | ifelse(yes, no)"
            }}"#,
            v
        );
        assert_eq!(run(&spec).unwrap(), Json::Str(s(expect)), "{}", v);
    }
}

#[test]
fn ifelse_branch_sees_value_as_context() {
    let spec = r#"{
        "input": [
            { "name": "list", "kind": "INLINE", "source": [0, 5] },
            { "name": "pick", "kind": "INLINE", "source": "$ | ifelse(keep, zero)" },
            { "name": "keep", "kind": "INLINE", "source": { "kept": "$" } },
            { "name": "zero", "kind": "INLINE", "source": "none" }
        ],
        "output": "$list | map(pick)"
    }"#;
    assert_eq!(run(spec).unwrap(), j(r#"["none", { "kept": 5 }]"#));
}

#[test]
fn ifelse_needs_two_arguments() {
    let spec = r#"{
        "input": [ { "name": "yes", "kind": "INLINE", "source": "Y" } ],
        "output": "$yes | ifelse(yes)"
    }"#;
    assert_eq!(run(spec).unwrap(), j(r#""$yes | ifelse(yes)""#));
}

#[test]
fn literal_template_is_unchanged() {
    let spec = r#"{ "output": { "a": [1, "b", { "c": null }], "d": "no $ here", "e": "" } }"#;
    let t = load(spec);
    let main = j(r#"{ "x": 1 }"#);
    let out = run_with(&t, &main, &no_outside).unwrap();
    assert_eq!(out, j(r#"{ "a": [1, "b", { "c": null }], "d": "no $ here", "e": "" }"#));
}

#[test]
fn path_query_always_gives_array() {
    let spec = r#"{
        "input": [ { "name": "doc", "kind": "INLINE", "source": { "a": { "b": 7 }, "list": [1, 2, 3] } } ],
        "output": { "one": "$doc.a.b", "many": "$doc.list[*]", "none": "$doc.missing", "scalar": "$doc.a.b | unwrap" }
    }"#;
    let out = run(spec).unwrap();
    assert_eq!(out, j(r#"{ "one": [7], "many": [1, 2, 3], "none": [], "scalar": 7 }"#));
}

#[test]
fn path_query_request_is_rooted() {
    let t = load(r#"{ "input": [ { "name": "doc", "kind": "INLINE", "source": { "a": 1 } } ], "output": "$doc.a" }"#);
    match t.transform(&Json::Null, &Vec::new()) {
        Progress::Needs(Request::Select { doc, path }) => {
            assert_eq!(path, "$.a");
            assert_eq!(doc, j(r#"{ "a": 1 }"#));
        }
        other => panic!("unexpected {:?}", other),
    }
    let replies = vec![Reply::SelectError];
    assert_eq!(
        match t.transform(&Json::Null, &replies) {
            Progress::Finished(v) => v,
            other => panic!("unexpected {:?}", other),
        },
        j(r#""$doc.a""#)
    );
}

#[test]
fn context_value_and_missing_context() {
    let t = load(r#"{ "output": { "all": "$", "field": "$.k | unwrap" } }"#);
    let main = j(r#"{ "k": "v" }"#);
    assert_eq!(run_with(&t, &main, &no_outside).unwrap(), j(r#"{ "all": { "k": "v" }, "field": "v" }"#));
    assert_eq!(
        run_with(&t, &Json::Null, &no_outside).unwrap(),
        j(r#"{ "all": "$", "field": "$.k | unwrap" }"#)
    );
}

#[test]
fn let_binding_shadows_only_inside() {
    let spec = r#"{
        "input": [
            { "name": "x", "kind": "INLINE", "source": "outer" },
            { "name": "inner", "kind": "INLINE", "let": { "x": "shadow" }, "source": { "seen": "$x", "via": "$show" } },
            { "name": "show", "kind": "INLINE", "source": "$x" }
        ],
        "output": { "a": "$inner", "b": "$x", "c": "$show" }
    }"#;
    let out = run(spec).unwrap();
    assert_eq!(
        out,
        j(r#"{ "a": { "seen": "shadow", "via": "shadow" }, "b": "outer", "c": "outer" }"#)
    );
}

#[test]
fn let_values_are_evaluated_in_callers_context() {
    let spec = r#"{
        "input": [
            { "name": "wrap", "kind": "INLINE", "let": { "me": "$" }, "source": { "value": "$me" } }
        ],
        "output": "$ | wrap"
    }"#;
    let out = run_with(&load(spec), &j("5"), &no_outside).unwrap();
    assert_eq!(out, j(r#"{ "value": 5 }"#));
}

#[test]
fn map_keeps_failed_elements() {
    let spec = r#"{
        "input": [
            { "name": "list", "kind": "INLINE", "source": [[1], [2, 3], [4]] },
            { "name": "first", "kind": "INLINE", "source": "$ | unwrap" },
            { "name": "bad", "kind": "INLINE", "source": "$ | nothing" }
        ],
        "output": { "firsts": "$list | map(first)", "kept": "$list | map(bad)", "noarg": "$list | map" }
    }"#;
    let out = run(spec).unwrap();
    assert_eq!(
        out,
        j(r#"{ "firsts": [1, "$ | unwrap", 4], "kept": [[1], [2, 3], [4]], "noarg": "$list | map" }"#)
    );
}

#[test]
fn input_used_as_function() {
    let spec = r#"{
        "input": [
            { "name": "n", "kind": "INLINE", "source": 3 },
            { "name": "pair", "kind": "INLINE", "source": ["$", "$"] }
        ],
        "output": "$n | pair | pair"
    }"#;
    assert_eq!(run(spec).unwrap(), j("[[3, 3], [3, 3]]"));
}

#[test]
fn file_input_is_a_template() {
    let spec = r#"{
        "input": [
            { "name": "name", "kind": "INLINE", "source": "tool" },
            { "name": "f", "kind": "FILE", "source": "data.json" }
        ],
        "output": "$f"
    }"#;
    let answer = |q: &Request| match q {
        Request::ReadFile { path } => {
            assert_eq!(path, "data.json");
            Reply::File(j(r#"{ "called": "$name" }"#))
        }
        _ => panic!("unexpected request"),
    };
    assert_eq!(run_with(&load(spec), &Json::Null, &answer).unwrap(), j(r#"{ "called": "tool" }"#));
}

#[test]
fn outside_failures_are_errors() {
    let file = r#"{ "input": [ { "name": "f", "kind": "FILE", "source": "gone.json" } ], "output": "$f" }"#;
    let answer = |_: &Request| Reply::FileError(s("no such file"));
    match run_with(&load(file), &Json::Null, &answer) {
        Err(Error::FileFailed(n, m)) => {
            assert_eq!(n, "f");
            assert_eq!(m, "no such file");
        }
        other => panic!("unexpected {:?}", other),
    }
    let cmd = r#"{ "input": [ { "name": "c", "kind": "COMMAND", "source": "false" } ], "output": "$c" }"#;
    let answer = |_: &Request| Reply::CommandError(s("exit status: 1"));
    assert!(matches!(run_with(&load(cmd), &Json::Null, &answer), Err(Error::CommandFailed(_, _))));
    let answer = |_: &Request| Reply::SelectError;
    assert!(matches!(run_with(&load(cmd), &Json::Null, &answer), Err(Error::ReplyMismatch)));
}

#[test]
fn resolution_errors() {
    assert!(matches!(run(r#"{ "output": "$nobody" }"#), Err(Error::UnknownInput(n)) if n == "nobody"));
    let nonstring = r#"{ "input": [ { "name": "f", "kind": "FILE", "source": 3 } ], "output": "$f" }"#;
    assert!(matches!(run(nonstring), Err(Error::NonStringSource(n)) if n == "f"));
    let quote = r#"{ "input": [ { "name": "c", "kind": "COMMAND", "source": "echo \"open" } ], "output": "$c" }"#;
    assert!(matches!(run(quote), Err(Error::BadCommand(n)) if n == "c"));
    let blank = r#"{ "input": [ { "name": "c", "kind": "COMMAND", "source": "   " } ], "output": "$c" }"#;
    assert!(matches!(run(blank), Err(Error::BadCommand(_))));
    let deep = r#"{ "input": [ { "name": "loop", "kind": "INLINE", "source": "$loop" } ], "output": "$loop" }"#;
    assert!(matches!(run(deep), Err(Error::TooDeep(n)) if n == "loop"));
    assert!(matches!(run(r#"{ "input": [] }"#), Err(Error::NoOutput)));
}

#[test]
fn declaration_errors() {
    let mut t = Transformer::empty();
    let builtin = Input::from_json(&j(r#"{ "name": "map", "kind": "INLINE", "source": 1 }"#)).unwrap();
    assert!(matches!(t.add_input(builtin), Err(Error::BuiltinName(n)) if n == "map"));
    let bad_let = Input::from_json(&j(r#"{ "name": "a", "kind": "INLINE", "let": [1], "source": 1 }"#)).unwrap();
    assert!(matches!(t.add_input(bad_let), Err(Error::LetNotObject(n)) if n == "a"));
    let a = Input::from_json(&j(r#"{ "name": "a", "kind": "INLINE", "source": 1 }"#)).unwrap();
    t.add_input(a).unwrap();
    let again = Input::from_json(&j(r#"{ "name": "a", "kind": "INLINE", "source": 1 }"#)).unwrap();
    t.add_input(again).unwrap();
    let other = Input::from_json(&j(r#"{ "name": "a", "kind": "INLINE", "source": 2 }"#)).unwrap();
    assert!(matches!(t.add_input(other), Err(Error::Conflict(n)) if n == "a"));
    t.add_output(j("1")).unwrap();
    assert!(matches!(t.add_output(j("2")), Err(Error::DoubleOutput)));
    assert_eq!(t.output(), &Some(j("1")));
}

#[test]
fn spec_document_errors() {
    assert!(matches!(SpecDoc::from_json(&j("[]")), Err(Error::NotAnObject)));
    assert!(matches!(SpecDoc::from_json(&j(r#"{ "use": "x" }"#)), Err(Error::BadField(f)) if f == "use"));
    assert!(matches!(SpecDoc::from_json(&j(r#"{ "input": {} }"#)), Err(Error::BadField(f)) if f == "input"));
    assert!(matches!(Input::from_json(&j(r#"{ "kind": "INLINE", "source": 1 }"#)), Err(Error::BadField(f)) if f == "name"));
    assert!(matches!(Input::from_json(&j(r#"{ "name": "a", "kind": "PIPE", "source": 1 }"#)), Err(Error::BadField(f)) if f == "kind"));
    assert!(matches!(Input::from_json(&j(r#"{ "name": "a", "kind": "FILE" }"#)), Err(Error::BadField(f)) if f == "source"));
    assert!(matches!(Input::from_json(&j(r#"{ "name": "a", "kind": "FILE", "source": "x", "stdin": 1 }"#)), Err(Error::BadField(f)) if f == "stdin"));
    assert!(matches!(Input::from_json(&j(r#"{ "name": "a", "kind": "FILE", "source": "x", "args": [1] }"#)), Err(Error::BadField(f)) if f == "args"));
}

#[test]
fn input_fields_and_defaults() {
    let i = Input::from_json(&j(r#"{ "name": "c", "kind": "COMMAND", "source": "ls", "let": null }"#)).unwrap();
    assert_eq!(i.name, "c");
    assert_eq!(i.kind, InputKind::Command);
    assert!(i.lets.is_none());
    assert!(i.stdin);
    assert!(Input::pass_stdin());
    assert!(i.args.is_empty());
    let doc = SpecDoc::from_json(&j(r#"{ "use": ["a.json", "b.json"], "output": null }"#)).unwrap();
    assert_eq!(doc.uses, vec![s("a.json"), s("b.json")]);
    assert!(doc.inputs.is_empty());
    assert!(doc.output.is_none());
}

#[test]
fn merge_same_spec_twice() {
    let used = load(r#"{ "input": [ { "name": "a", "kind": "INLINE", "source": 1 }, { "name": "b", "kind": "FILE", "source": "b.json" } ] }"#);
    let mut t = Transformer::empty();
    t.merge(&used).unwrap();
    t.merge(&used).unwrap();
    t.add_output(j(r#"["$a"]"#)).unwrap();
    assert_eq!(run_with(&t, &Json::Null, &no_outside).unwrap(), j("[1]"));
}

#[test]
fn merge_conflicting_specs_fails() {
    let one = load(r#"{ "input": [ { "name": "a", "kind": "INLINE", "source": 1 } ] }"#);
    let kind = load(r#"{ "input": [ { "name": "a", "kind": "FILE", "source": 1 } ] }"#);
    let source = load(r#"{ "input": [ { "name": "a", "kind": "INLINE", "source": 2 } ] }"#);
    let mut t = Transformer::empty();
    t.merge(&one).unwrap();
    assert!(matches!(t.merge(&kind), Err(Error::Conflict(n)) if n == "a"));
    assert!(matches!(t.merge(&source), Err(Error::Conflict(n)) if n == "a"));
}

#[test]
fn merge_output_twice_fails() {
    let with_output = load(r#"{ "output": 1 }"#);
    let mut t = Transformer::empty();
    t.merge(&with_output).unwrap();
    assert!(matches!(t.merge(&with_output), Err(Error::DoubleOutput)));
}

#[test]
fn new_merges_used_specs_before_own_inputs() {
    let lib = load(r#"{ "input": [ { "name": "a", "kind": "INLINE", "source": "lib" } ] }"#);
    let doc = SpecDoc::from_json(&j(r#"{ "use": ["lib.json"], "input": [ { "name": "a", "kind": "INLINE", "source": "lib" } ], "output": "$a" }"#)).unwrap();
    let t = Transformer::new(&doc, &vec![lib]).unwrap();
    assert_eq!(run_with(&t, &Json::Null, &no_outside).unwrap(), j(r#""lib""#));
    let lib = load(r#"{ "input": [ { "name": "a", "kind": "INLINE", "source": "lib" } ], "output": 0 }"#);
    assert!(matches!(Transformer::new(&doc, &vec![lib]), Err(Error::DoubleOutput)));
    let lib = load(r#"{ "input": [ { "name": "a", "kind": "INLINE", "source": "other" } ] }"#);
    assert!(matches!(Transformer::new(&doc, &vec![lib]), Err(Error::Conflict(_))));
}

#[test]
fn parse_reference_grammar() {
    let e = parse_expr("$x.a[0] | f(a,  b ) |g| h ( ) ").unwrap();
    assert_eq!(e.input, "x");
    assert_eq!(e.jpath, ".a[0]");
    let names: Vec<String> = e.transforms.iter().map(|t| t.name.clone()).collect();
    assert_eq!(names, vec![s("f"), s("g"), s("h")]);
    assert_eq!(e.transforms[0].args, vec![s("a"), s("b")]);
    assert!(e.transforms[1].args.is_empty());
    assert_eq!(e.transforms[2].args, vec![s("")]);
    let e = parse_expr("$").unwrap();
    assert_eq!(e.input, "");
    assert_eq!(e.jpath, "");
    assert!(e.transforms.is_empty());
    let e = parse_expr("$.k | unwrap").unwrap();
    assert_eq!(e.input, "");
    assert_eq!(e.jpath, ".k");
    let e = parse_expr("$a | f(x | y)").unwrap();
    assert_eq!(e.jpath, "");
    assert_eq!(e.transforms[0].args, vec![s("x | y")]);
    let e = parse_expr("$a | f(x) y").unwrap();
    assert_eq!(e.jpath, " | f(x) y");
    assert!(e.transforms.is_empty());
    assert!(parse_expr("abc").is_none());
    assert!(parse_expr("").is_none());
    assert!(parse_expr(" $a").is_none());
}

#[test]
fn command_words_and_trimming() {
    let (p, a) = split_command("grep -e 'a b' \"c\\\"d\"").unwrap();
    assert_eq!(p, "grep");
    assert_eq!(a, vec![s("-e"), s("a b"), s("c\"d")]);
    assert!(split_command("'open").is_none());
    assert!(split_command("").is_none());
    assert_eq!(trimmed_end("text \t\n\r\n"), "text");
    assert_eq!(trimmed_end(" lead"), " lead");
    assert_eq!(trimmed_end("\u{3000}"), "");
}

#[test]
fn truth_of_numbers() {
    for (t, expect) in [("0", false), ("-0", false), ("0.0", false), ("0e10", false), ("1e-5", true), ("10", true), ("-3.5", true), ("0.001", true)] {
        assert_eq!(Json::Number(s(t)).is_truthy(), expect, "{}", t);
    }
    assert!(!Json::Str(s("")).is_truthy());
    assert!(Json::Str(s(" ")).is_truthy());
}

#[test]
fn values_copy_and_compare() {
    let v = j(r#"{ "a": [1, "x", null, true, { "b": [] }] }"#);
    let c = v.clone();
    assert_eq!(c, v);
    assert!(c.same_as(&v));
    assert_ne!(v, j(r#"{ "a": [1, "x", null, true, { "b": [0] }] }"#));
    assert_ne!(j("1"), j("1.0"));
    assert_eq!(v.get("a"), Some(&j(r#"[1, "x", null, true, { "b": [] }]"#)));
    assert_eq!(v.get("z"), None);
}
