//! Input declarations and how they are read from a spec document.
use vstd::prelude::*;
use crate::error::{Error, ErrorModel};
use crate::json::{Json, JsonModel, member, same_text};

verus! {

/// Where an input's value comes from.
#[derive(PartialEq, Eq, Structural, Clone, Copy, Debug)]
pub enum InputKind {
    /// The source is itself a template.
    Inline,
    /// The source names a JSON file whose content is a template.
    File,
    /// The source is a command line whose output is the value.
    Command,
}

/// A named input of a spec.
#[derive(Debug)]
pub struct Input {
    pub name: String,
    pub kind: InputKind,
    pub lets: Option<Json>,
    pub source: Json,
    pub stdin: bool,
    pub args: Vec<String>,
}

pub struct InputModel {
    pub name: Seq<char>,
    pub kind: InputKind,
    pub lets: Option<JsonModel>,
    pub source: JsonModel,
    pub stdin: bool,
    pub args: Seq<Seq<char>>,
}

pub open spec fn option_view(o: Option<Json>) -> Option<JsonModel> {
    match o {
        Some(v) => Some(v@),
        None => None,
    }
}

impl View for Input {
    type V = InputModel;

    open spec fn view(&self) -> InputModel {
        InputModel {
            name: self.name@,
            kind: self.kind,
            lets: option_view(self.lets),
            source: self.source@,
            stdin: self.stdin,
            args: self.args@.map_values(|a: String| a@),
        }
    }
}

pub open spec fn kind_named(t: Seq<char>) -> Option<InputKind> {
    if t == "INLINE"@ {
        Some(InputKind::Inline)
    } else if t == "FILE"@ {
        Some(InputKind::File)
    } else if t == "COMMAND"@ {
        Some(InputKind::Command)
    } else {
        None
    }
}

/// The strings of an array whose elements are all strings.
pub open spec fn texts_from(items: Seq<JsonModel>, i: int) -> Option<Seq<Seq<char>>>
    decreases items.len() - i,
{
    if i < 0 || i >= items.len() {
        Some(seq![])
    } else {
        match (items[i], texts_from(items, i + 1)) {
            (JsonModel::Str(t), Some(rest)) => Some(seq![t] + rest),
            _ => None,
        }
    }
}

pub open spec fn texts_of(v: JsonModel) -> Option<Seq<Seq<char>>> {
    match v {
        JsonModel::Array(items) => texts_from(items, 0),
        _ => None,
    }
}

/// An optional field: absent and `null` both count as absent.
pub open spec fn field(ms: Seq<(Seq<char>, JsonModel)>, key: Seq<char>) -> Option<JsonModel> {
    match member(ms, key) {
        Some(JsonModel::Null) => None,
        other => other,
    }
}

/// The declaration that an element of a spec's `input` array describes.
pub open spec fn input_of(v: JsonModel) -> Result<InputModel, ErrorModel> {
    match v {
        JsonModel::Object(ms) => {
            match (member(ms, "name"@), member(ms, "kind"@)) {
                (Some(JsonModel::Str(name)), Some(JsonModel::Str(k))) => {
                    if kind_named(k) is None {
                        Err(ErrorModel::BadField("kind"@))
                    } else if member(ms, "source"@) is None {
                        Err(ErrorModel::BadField("source"@))
                    } else {
                        let stdin = match member(ms, "stdin"@) {
                            None => Some(true),
                            Some(JsonModel::Bool(b)) => Some(b),
                            _ => None,
                        };
                        let args = match member(ms, "args"@) {
                            None => Some(seq![]),
                            Some(a) => texts_of(a),
                        };
                        if stdin is None {
                            Err(ErrorModel::BadField("stdin"@))
                        } else if args is None {
                            Err(ErrorModel::BadField("args"@))
                        } else {
                            Ok(
                                InputModel {
                                    name,
                                    kind: kind_named(k)->0,
                                    lets: field(ms, "let"@),
                                    source: member(ms, "source"@)->0,
                                    stdin: stdin->0,
                                    args: args->0,
                                },
                            )
                        }
                    }
                },
                (Some(JsonModel::Str(_)), _) => Err(ErrorModel::BadField("kind"@)),
                _ => Err(ErrorModel::BadField("name"@)),
            }
        },
        _ => Err(ErrorModel::BadField("input"@)),
    }
}

/// A copy of a list of strings.
pub fn copy_texts(v: &Vec<String>) -> (r: Vec<String>)
    ensures
        r@ == v@,
{
    let mut out: Vec<String> = Vec::new();
    let mut i: usize = 0;
    while i < v.len()
        invariant
            i <= v@.len(),
            out@ == v@.subrange(0, i as int),
        decreases v.len() - i,
    {
        out.push(v[i].clone());
        assert(out@ =~= v@.subrange(0, i + 1));
        i = i + 1;
    }
    assert(out@ =~= v@);
    out
}

/// A copy of an optional value.
pub fn copy_option(o: &Option<Json>) -> (r: Option<Json>)
    ensures
        option_view(r) == option_view(*o),
{
    match o {
        Some(v) => Some(v.duplicate()),
        None => None,
    }
}

/// The strings of `v`, if it is an array of strings.
pub fn texts_in(v: &Json) -> (r: Option<Vec<String>>)
    ensures
        match texts_of(v@) {
            Some(ts) => r is Some && r->0@.map_values(|a: String| a@) == ts,
            None => r is None,
        },
{
    match v {
        Json::Array(items) => {
            let ghost im = v@->Array_0;
            let mut out: Vec<String> = Vec::new();
            let mut i: usize = 0;
            while i < items.len()
                invariant
                    v@ == JsonModel::Array(im),
                    im.len() == items@.len(),
                    forall|k: int| 0 <= k < items@.len() ==> #[trigger] im[k] == items@[k]@,
                    i <= items@.len(),
                    texts_from(im, 0) == match texts_from(im, i as int) {
                        Some(rest) => Some(out@.map_values(|a: String| a@) + rest),
                        None => None::<Seq<Seq<char>>>,
                    },
                decreases items.len() - i,
            {
                match &items[i] {
                    Json::Str(t) => {
                        let ghost before = out@.map_values(|a: String| a@);
                        out.push(t.clone());
                        assert(out@.map_values(|a: String| a@) =~= before.push(t@));
                        proof {
                            match texts_from(im, i + 1) {
                                Some(rest) => {
                                    assert(before + (seq![t@] + rest) =~= before.push(t@) + rest);
                                },
                                None => {},
                            }
                        }
                    },
                    _ => {
                        return None;
                    },
                }
                i = i + 1;
            }
            assert(out@.map_values(|a: String| a@) + seq![] =~= out@.map_values(|a: String| a@));
            Some(out)
        },
        _ => None,
    }
}

impl Input {
    /// The default of `stdin`: a command input is handed its context.
    pub fn pass_stdin() -> (r: bool)
        ensures
            r,
    {
        true
    }

    /// A deep copy of this declaration.
    pub fn duplicate(&self) -> (r: Input)
        ensures
            r@ == self@,
    {
        Input {
            name: self.name.clone(),
            kind: self.kind,
            lets: copy_option(&self.lets),
            source: self.source.duplicate(),
            stdin: self.stdin,
            args: copy_texts(&self.args),
        }
    }

    /// Whether two declarations are identical.
    pub fn same_as(&self, other: &Input) -> (r: bool)
        ensures
            r == (self@ == other@),
    {
        if !same_text(self.name.as_str(), other.name.as_str()) || self.kind != other.kind
            || self.stdin != other.stdin || !self.source.same_as(&other.source) {
            return false;
        }
        let lets_same = match (&self.lets, &other.lets) {
            (Some(a), Some(b)) => a.same_as(b),
            (None, None) => true,
            _ => false,
        };
        if !lets_same {
            return false;
        }
        if self.args.len() != other.args.len() {
            assert(self@.args.len() != other@.args.len());
            return false;
        }
        let mut i: usize = 0;
        while i < self.args.len()
            invariant
                self.args@.len() == other.args@.len(),
                i <= self.args@.len(),
                forall|k: int| 0 <= k < i ==> #[trigger] self.args@[k]@ == other.args@[k]@,
            decreases self.args.len() - i,
        {
            if !same_text(self.args[i].as_str(), other.args[i].as_str()) {
                assert(self@.args[i as int] != other@.args[i as int]);
                return false;
            }
            i = i + 1;
        }
        assert(self@.args =~= other@.args);
        true
    }

    /// Read a declaration from an element of a spec's `input` array.
    pub fn from_json(v: &Json) -> (r: Result<Input, Error>)
        ensures
            match input_of(v@) {
                Ok(m) => r is Ok && r->Ok_0@ == m,
                Err(e) => r is Err && r->Err_0@ == e,
            },
    {
        if !matches!(v, Json::Object(_)) {
            return Err(Error::BadField(String::from_str("input")));
        }
        let name_v = v.get("name");
        let kind_v = v.get("kind");
        let name = match name_v {
            Some(Json::Str(n)) => n.clone(),
            _ => {
                return Err(Error::BadField(String::from_str("name")));
            },
        };
        let kind = match kind_v {
            Some(Json::Str(k)) => {
                if same_text(k.as_str(), "INLINE") {
                    InputKind::Inline
                } else if same_text(k.as_str(), "FILE") {
                    InputKind::File
                } else if same_text(k.as_str(), "COMMAND") {
                    InputKind::Command
                } else {
                    return Err(Error::BadField(String::from_str("kind")));
                }
            },
            _ => {
                return Err(Error::BadField(String::from_str("kind")));
            },
        };
        let source = match v.get("source") {
            Some(s) => s.duplicate(),
            None => {
                return Err(Error::BadField(String::from_str("source")));
            },
        };
        let stdin = match v.get("stdin") {
            None => true,
            Some(Json::Bool(b)) => *b,
            _ => {
                return Err(Error::BadField(String::from_str("stdin")));
            },
        };
        let args = match v.get("args") {
            None => Vec::new(),
            Some(a) => match texts_in(a) {
                Some(ts) => ts,
                None => {
                    return Err(Error::BadField(String::from_str("args")));
                },
            },
        };
        let lets = match v.get("let") {
            None => None,
            Some(Json::Null) => None,
            Some(l) => Some(l.duplicate()),
        };
        let r = Input { name, kind, lets, source, stdin, args };
        proof {
            if args@.len() == 0 {
                assert(r@.args =~= seq![]);
            }
        }
        Ok(r)
    }
}

} // verus!
