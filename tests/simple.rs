use jsonatr::error::Error;
use jsonatr::json::Json;
use jsonatr::protocol::{Progress, Reply, Request};
use jsonatr::transformer::{SpecDoc, Transformer};

fn conv(v: &serde_json::Value) -> Json {
    match v {
        serde_json::Value::Null => Json::Null,
        serde_json::Value::Bool(b) => Json::Bool(*b),
        serde_json::Value::Number(n) => Json::Number(n.to_string()),
        serde_json::Value::String(s) => Json::Str(s.clone()),
        serde_json::Value::Array(a) => Json::Array(a.iter().map(conv).collect()),
        serde_json::Value::Object(m) => {
            Json::Object(m.iter().map(|(k, v)| (k.clone(), conv(v))).collect())
        }
    }
}

fn back(v: &Json) -> serde_json::Value {
    match v {
        Json::Null => serde_json::Value::Null,
        Json::Bool(b) => serde_json::Value::Bool(*b),
        Json::Number(t) => serde_json::from_str(t).unwrap(),
        Json::Str(s) => serde_json::Value::String(s.clone()),
        Json::Array(a) => serde_json::Value::Array(a.iter().map(back).collect()),
        Json::Object(m) => {
            serde_json::Value::Object(m.iter().map(|(k, v)| (k.clone(), back(v))).collect())
        }
    }
}

fn j(text: &str) -> Json {
    conv(&serde_json::from_str::<serde_json::Value>(text).unwrap())
}

fn load(text: &str) -> Transformer {
    let doc = SpecDoc::from_json(&j(text)).unwrap();
    Transformer::new(&doc, &Vec::new()).unwrap()
}

fn text(s: &str) -> String {
    s.to_string()
}

/// Runs a transformation to its end: JSONPath queries are answered by
/// jsonpath_lib, files and commands by `answer`.
fn run_with(t: &Transformer, main: &Json, answer: &dyn Fn(&Request) -> Reply) -> Result<Json, Error> {
    let mut replies: Vec<Reply> = Vec::new();
    for _ in 0..100 {
        match t.transform(main, &replies) {
            Progress::Finished(v) => return Ok(v),
            Progress::Failed(e) => return Err(e),
            Progress::Needs(Request::Select { doc, path }) => {
                let doc = back(&doc);
                let reply = match jsonpath_lib::select(&doc, &path) {
                    Ok(found) => Reply::Selected(found.into_iter().map(conv).collect()),
                    Err(_) => Reply::SelectError,
                };
                replies.push(reply);
            }
            Progress::Needs(q) => replies.push(answer(&q)),
        }
    }
    panic!("too many requests");
}

fn no_outside(q: &Request) -> Reply {
    panic!("unexpected request {:?}", q)
}

fn run(spec: &str) -> Result<Json, Error> {
    run_with(&load(spec), &Json::Null, &no_outside)
}

#[test]
fn test_simple() {
    let spec = r#"{
        "input": [ { "name": "name", "kind": "INLINE", "source": "jsonatr" } ],
        "output": { "tool": "$name", "version": 0.1, "stable": false, "features": ["read", "write"] }
    }"#;
    let expect = j(r#"{
  "tool": "jsonatr",
  "version": 0.1,
  "stable": false,
  "features": [
    "read",
    "write"
  ]
}"#);
    assert_eq!(run(spec).unwrap(), expect);
}

#[test]
fn test_simple_with_version() {
    let spec = r#"{
        "input": [
            { "name": "name", "kind": "INLINE", "source": "jsonatr" },
            { "name": "info", "kind": "INLINE", "source": { "version": "0.1" } }
        ],
        "output": { "tool": "$name", "version": "$info.version | unwrap", "stable": false, "features": ["read", "write"] }
    }"#;
    let expect = j(r#"{
  "tool": "jsonatr",
  "version": "0.1",
  "stable": false,
  "features": [
    "read",
    "write"
  ]
}"#);
    assert_eq!(run(spec).unwrap(), expect);
}

#[test]
fn test_simple_with_command() {
    let spec = r#"{
        "input": [
            { "name": "name", "kind": "INLINE", "source": "jsonatr" },
            { "name": "date", "kind": "COMMAND", "source": "date -I" }
        ],
        "output": { "tool": "$name", "version": 0.1, "date": "$date", "stable": false, "features": ["read", "write"] }
    }"#;
    let answer = |q: &Request| match q {
        Request::RunCommand { program, args, stdin } => {
            assert_eq!(program, "date");
            assert_eq!(args, &vec![text("-I")]);
            assert_eq!(stdin, &Some(Json::Null));
            Reply::Output { text: text("2020-05-04\n"), parsed: None }
        }
        _ => panic!("unexpected request"),
    };
    let expect = j(r#"{
  "tool": "jsonatr",
  "version": 0.1,
  "date": "2020-05-04",
  "stable": false,
  "features": [
    "read",
    "write"
  ]
}"#);
    assert_eq!(run_with(&load(spec), &Json::Null, &answer).unwrap(), expect);
}
