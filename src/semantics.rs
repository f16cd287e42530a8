//! What evaluating a template means, stated over models.
//!
//! Each function takes the fixed environment (the declared inputs and the
//! replies received so far), the scope stack, the depth left for nested input
//! resolution, and the number of replies consumed so far; it returns its
//! outcome together with the number of replies consumed afterwards.
use vstd::prelude::*;
use crate::command::{command_words, command_value};
use crate::error::ErrorModel;
use crate::expr::{parse_model, TransformModel};
use crate::input::{InputKind, InputModel};
use crate::json::{JsonModel, MembersModel, member, size, size_items, size_members, truthy};
use crate::protocol::{HaltModel, ReplyModel, RequestModel};
use crate::transformer::find_input;

verus! {

/// What stays fixed while a template is evaluated.
pub struct Env {
    pub inputs: Seq<InputModel>,
    pub replies: Seq<ReplyModel>,
}

/// The value bound to `name` in the innermost frame that binds it.
pub open spec fn scopes_get(sc: Seq<MembersModel>, name: Seq<char>) -> Option<JsonModel>
    decreases sc.len(),
{
    if sc.len() == 0 {
        None
    } else {
        match member(sc.last(), name) {
            Some(v) => Some(v),
            None => scopes_get(sc.drop_last(), name),
        }
    }
}

/// `unwrap`: the one element of a one-element array.
pub open spec fn unwrap_model(v: JsonModel) -> Option<JsonModel> {
    match v {
        JsonModel::Array(items) => if items.len() == 1 {
            Some(items[0])
        } else {
            None
        },
        _ => None,
    }
}

/// The path part of a reference, applied to `base`. An empty path keeps the
/// value; any other path is a JSONPath query rooted at `$`, whose matches
/// always come back as an array. A query the engine refuses gives no value.
pub open spec fn project(replies: Seq<ReplyModel>, pos: nat, base: JsonModel, jpath: Seq<char>) -> (Result<Option<JsonModel>, HaltModel>, nat) {
    if jpath.len() == 0 {
        (Ok(Some(base)), pos)
    } else if pos >= replies.len() {
        (Err(HaltModel::Wait(RequestModel::Select { doc: base, path: seq!['$'] + jpath })), pos)
    } else {
        match replies[pos as int] {
            ReplyModel::Selected(vs) => (Ok(Some(JsonModel::Array(vs))), pos + 1),
            ReplyModel::SelectError => (Ok(None), pos + 1),
            _ => (Err(HaltModel::Fail(ErrorModel::ReplyMismatch)), pos + 1),
        }
    }
}

/// A template evaluated against `ctx`: strings that are references are
/// replaced by what they denote, others are kept; arrays and objects are
/// rebuilt element by element, in order.
pub open spec fn eval_value(env: Env, sc: Seq<MembersModel>, fuel: nat, pos: nat, v: JsonModel, ctx: JsonModel) -> (Result<JsonModel, HaltModel>, nat)
    decreases fuel, size(v), 1nat, 0nat,
{
    match v {
        JsonModel::Str(t) => match eval_string(env, sc, fuel, pos, t, ctx) {
            (Ok(Some(x)), p) => (Ok(x), p),
            (Ok(None), p) => (Ok(v), p),
            (Err(h), p) => (Err(h), p),
        },
        JsonModel::Array(items) => match eval_items(env, sc, fuel, pos, items, seq![], ctx) {
            (Ok(xs), p) => (Ok(JsonModel::Array(xs)), p),
            (Err(h), p) => (Err(h), p),
        },
        JsonModel::Object(ms) => match eval_members(env, sc, fuel, pos, ms, seq![], ctx) {
            (Ok(xs), p) => (Ok(JsonModel::Object(xs)), p),
            (Err(h), p) => (Err(h), p),
        },
        _ => (Ok(v), pos),
    }
}

/// `acc` followed by the evaluations of `items`, in order.
pub open spec fn eval_items(env: Env, sc: Seq<MembersModel>, fuel: nat, pos: nat, items: Seq<JsonModel>, acc: Seq<JsonModel>, ctx: JsonModel) -> (Result<Seq<JsonModel>, HaltModel>, nat)
    decreases fuel, size_items(items), 2nat, 0nat,
{
    if items.len() == 0 {
        (Ok(acc), pos)
    } else {
        match eval_value(env, sc, fuel, pos, items[0], ctx) {
            (Ok(x), p) => eval_items(env, sc, fuel, p, items.drop_first(), acc.push(x), ctx),
            (Err(h), p) => (Err(h), p),
        }
    }
}

/// `acc` followed by the members `ms` with their values evaluated, in order.
pub open spec fn eval_members(env: Env, sc: Seq<MembersModel>, fuel: nat, pos: nat, ms: MembersModel, acc: MembersModel, ctx: JsonModel) -> (Result<MembersModel, HaltModel>, nat)
    decreases fuel, size_members(ms), 2nat, 0nat,
{
    if ms.len() == 0 {
        (Ok(acc), pos)
    } else {
        match eval_value(env, sc, fuel, pos, ms[0].1, ctx) {
            (Ok(x), p) => eval_members(env, sc, fuel, p, ms.drop_first(), acc.push((ms[0].0, x)), ctx),
            (Err(h), p) => (Err(h), p),
        }
    }
}

/// A template string evaluated against `ctx`: `None` where it is no
/// reference, or where evaluating it fails softly (the caller then keeps the
/// string as it is).
pub open spec fn eval_string(env: Env, sc: Seq<MembersModel>, fuel: nat, pos: nat, t: Seq<char>, ctx: JsonModel) -> (Result<Option<JsonModel>, HaltModel>, nat)
    decreases fuel, 0nat, 6nat, 0nat,
{
    match parse_model(t) {
        None => (Ok(None), pos),
        Some(e) => {
            let (b, after_base) = if e.input.len() == 0 {
                if ctx is Null {
                    (Ok(None), pos)
                } else {
                    (Ok(Some(ctx)), pos)
                }
            } else {
                match apply_by_name(env, sc, fuel, pos, e.input, ctx) {
                    (Ok(x), p) => (Ok(Some(x)), p),
                    (Err(h), p) => (Err(h), p),
                }
            };
            match b {
                Err(h) => (Err(h), after_base),
                Ok(None) => (Ok(None), after_base),
                Ok(Some(base)) => match project(env.replies, after_base, base, e.jpath) {
                    (Ok(Some(x)), after_path) => eval_pipeline(env, sc, fuel, after_path, e.transforms, x),
                    other => other,
                },
            }
        },
    }
}

/// The transforms `ts` applied to `v` from left to right; no value as soon
/// as one gives none.
pub open spec fn eval_pipeline(env: Env, sc: Seq<MembersModel>, fuel: nat, pos: nat, ts: Seq<TransformModel>, v: JsonModel) -> (Result<Option<JsonModel>, HaltModel>, nat)
    decreases fuel, 0nat, 5nat, ts.len(),
{
    if ts.len() == 0 {
        (Ok(Some(v)), pos)
    } else {
        match apply_transform(env, sc, fuel, pos, ts[0], v) {
            (Ok(Some(x)), p) => eval_pipeline(env, sc, fuel, p, ts.drop_first(), x),
            other => other,
        }
    }
}

/// One transform applied to `v`: a builtin when its name is one, otherwise
/// the input of that name resolved with `v` as its context.
pub open spec fn apply_transform(env: Env, sc: Seq<MembersModel>, fuel: nat, pos: nat, t: TransformModel, v: JsonModel) -> (Result<Option<JsonModel>, HaltModel>, nat)
    decreases fuel, 0nat, 4nat, 0nat,
{
    if t.name == "unwrap"@ {
        (Ok(unwrap_model(v)), pos)
    } else if t.name == "map"@ {
        match v {
            JsonModel::Array(items) => if t.args.len() == 1 {
                match map_items(env, sc, fuel, pos, t.args[0], items, seq![]) {
                    (Ok(xs), p) => (Ok(Some(JsonModel::Array(xs))), p),
                    (Err(h), p) => (Err(h), p),
                }
            } else {
                (Ok(None), pos)
            },
            _ => (Ok(None), pos),
        }
    } else if t.name == "ifelse"@ {
        if t.args.len() != 2 {
            (Ok(None), pos)
        } else {
            let branch = if truthy(v) {
                t.args[0]
            } else {
                t.args[1]
            };
            match apply_by_name(env, sc, fuel, pos, branch, v) {
                (Ok(x), p) => (Ok(Some(x)), p),
                (Err(HaltModel::Fail(_)), p) => (Ok(None), p),
                (Err(h), p) => (Err(h), p),
            }
        }
    } else {
        match apply_by_name(env, sc, fuel, pos, t.name, v) {
            (Ok(x), p) => (Ok(Some(x)), p),
            (Err(h), p) => (Err(h), p),
        }
    }
}

/// `acc` followed by the input `name` resolved against each of `items`; an
/// element whose resolution fails is kept as it is.
pub open spec fn map_items(env: Env, sc: Seq<MembersModel>, fuel: nat, pos: nat, name: Seq<char>, items: Seq<JsonModel>, acc: Seq<JsonModel>) -> (Result<Seq<JsonModel>, HaltModel>, nat)
    decreases fuel, 0nat, 3nat, items.len(),
{
    if items.len() == 0 {
        (Ok(acc), pos)
    } else {
        match apply_by_name(env, sc, fuel, pos, name, items[0]) {
            (Ok(x), p) => map_items(env, sc, fuel, p, name, items.drop_first(), acc.push(x)),
            (Err(HaltModel::Fail(_)), p) => map_items(
                env,
                sc,
                fuel,
                p,
                name,
                items.drop_first(),
                acc.push(items[0]),
            ),
            (Err(h), p) => (Err(h), p),
        }
    }
}

/// What `name` denotes with `ctx` as context: a local binding, innermost
/// first, else the declared input of that name.
pub open spec fn apply_by_name(env: Env, sc: Seq<MembersModel>, fuel: nat, pos: nat, name: Seq<char>, ctx: JsonModel) -> (Result<JsonModel, HaltModel>, nat)
    decreases fuel, 0nat, 2nat, 0nat,
{
    match scopes_get(sc, name) {
        Some(x) => (Ok(x), pos),
        None => match find_input(env.inputs, name) {
            None => (Err(HaltModel::Fail(ErrorModel::UnknownInput(name))), pos),
            Some(inp) => resolve(env, sc, fuel, pos, inp, ctx),
        },
    }
}

/// An input resolved against `ctx`: its `let` bindings are evaluated in the
/// caller's scope and form a new frame, seen only while its source is evaluated.
pub open spec fn resolve(env: Env, sc: Seq<MembersModel>, fuel: nat, pos: nat, inp: InputModel, ctx: JsonModel) -> (Result<JsonModel, HaltModel>, nat)
    decreases fuel, 0nat, 1nat, 0nat,
{
    if fuel == 0 {
        (Err(HaltModel::Fail(ErrorModel::TooDeep(inp.name))), pos)
    } else {
        let (frame, p) = match inp.lets {
            None => (Ok(Seq::<(Seq<char>, JsonModel)>::empty()), pos),
            Some(JsonModel::Object(ms)) => eval_members(env, sc, (fuel - 1) as nat, pos, ms, seq![], ctx),
            Some(_) => (Err(HaltModel::Fail(ErrorModel::LetNotObject(inp.name))), pos),
        };
        match frame {
            Ok(f) => input_body(env, sc.push(f), (fuel - 1) as nat, p, inp, ctx),
            Err(h) => (Err(h), p),
        }
    }
}

/// The value of an input's source by its kind: an inline template, the
/// template in a file, or a command's output.
pub open spec fn input_body(env: Env, sc: Seq<MembersModel>, fuel: nat, pos: nat, inp: InputModel, ctx: JsonModel) -> (Result<JsonModel, HaltModel>, nat)
    decreases fuel + 1, 0nat, 0nat, 0nat,
{
    match inp.kind {
        InputKind::Inline => eval_value(env, sc, fuel, pos, inp.source, ctx),
        InputKind::File => match inp.source {
            JsonModel::Str(path) => if pos >= env.replies.len() {
                (Err(HaltModel::Wait(RequestModel::ReadFile { path })), pos)
            } else {
                match env.replies[pos as int] {
                    ReplyModel::File(doc) => eval_value(env, sc, fuel, pos + 1, doc, ctx),
                    ReplyModel::FileError(m) => (
                        Err(HaltModel::Fail(ErrorModel::FileFailed(inp.name, m))),
                        pos + 1,
                    ),
                    _ => (Err(HaltModel::Fail(ErrorModel::ReplyMismatch)), pos + 1),
                }
            },
            _ => (Err(HaltModel::Fail(ErrorModel::NonStringSource(inp.name))), pos),
        },
        InputKind::Command => match inp.source {
            JsonModel::Str(line) => match command_words(line) {
                None => (Err(HaltModel::Fail(ErrorModel::BadCommand(inp.name))), pos),
                Some((program, args)) => if pos >= env.replies.len() {
                    (
                        Err(
                            HaltModel::Wait(
                                RequestModel::RunCommand {
                                    program,
                                    args,
                                    stdin: if inp.stdin {
                                        Some(ctx)
                                    } else {
                                        None
                                    },
                                },
                            ),
                        ),
                        pos,
                    )
                } else {
                    match env.replies[pos as int] {
                        ReplyModel::Output { text, parsed } => (
                            Ok(command_value(text, parsed)),
                            pos + 1,
                        ),
                        ReplyModel::CommandError(m) => (
                            Err(HaltModel::Fail(ErrorModel::CommandFailed(inp.name, m))),
                            pos + 1,
                        ),
                        _ => (Err(HaltModel::Fail(ErrorModel::ReplyMismatch)), pos + 1),
                    }
                },
            },
            _ => (Err(HaltModel::Fail(ErrorModel::NonStringSource(inp.name))), pos),
        },
    }
}

} // verus!
