//! The evaluator: walks a template, resolves references, and stops with a
//! request where outside work is needed.
use vstd::prelude::*;
use crate::command::{output_value, split_command};
use crate::error::Error;
use crate::expr::{parse_expr, Transform};
use crate::input::{Input, InputKind};
use crate::json::{
    Json, JsonModel, MembersModel, copy_values, lemma_item_size, lemma_member_size, member_of,
    members_model, same_text, size, size_members, values_model,
};
use crate::protocol::{Halt, HaltModel, Progress, ProgressModel, Reply, ReplyModel, Request};
use crate::semantics::{
    Env, apply_by_name, eval_members, eval_pipeline, eval_string, eval_value, input_body, map_items,
    project, resolve, scopes_get, unwrap_model, apply_transform, eval_items,
};
use crate::transformer::{Transformer, TransformerModel};

verus! {

/// How deeply input resolutions may nest before evaluation gives up.
pub const MAX_DEPTH: u64 = 200;

/// A frame of `let` bindings.
pub type Frame = Vec<(String, Json)>;

/// The models of the frames of a scope stack, outermost first.
pub open spec fn scopes_model(sc: Seq<Frame>) -> Seq<MembersModel> {
    Seq::new(sc.len(), |i: int| members_model(sc[i]))
}

/// The scope stack and the number of replies consumed so far.
pub struct Cursor {
    pub scopes: Vec<Frame>,
    pub pos: usize,
}

/// The environment of an evaluation by this spec with these replies.
pub open spec fn env_of(t: TransformerModel, replies: Seq<Reply>) -> Env {
    Env { inputs: t.inputs, replies: replies.map_values(|r: Reply| r@) }
}

/// The models of evaluation outcomes.
pub open spec fn value_res(r: Result<Json, Halt>) -> Result<JsonModel, HaltModel> {
    match r {
        Ok(v) => Ok(v@),
        Err(h) => Err(h@),
    }
}

pub open spec fn option_res(r: Result<Option<Json>, Halt>) -> Result<Option<JsonModel>, HaltModel> {
    match r {
        Ok(Some(v)) => Ok(Some(v@)),
        Ok(None) => Ok(None),
        Err(h) => Err(h@),
    }
}

pub open spec fn values_res(r: Result<Vec<Json>, Halt>) -> Result<Seq<JsonModel>, HaltModel> {
    match r {
        Ok(v) => Ok(values_model(v)),
        Err(h) => Err(h@),
    }
}

pub open spec fn members_res(r: Result<Frame, Halt>) -> Result<MembersModel, HaltModel> {
    match r {
        Ok(v) => Ok(members_model(v)),
        Err(h) => Err(h@),
    }
}

/// What the whole transformation gives with the replies received so far.
pub open spec fn run_model(t: TransformerModel, main: JsonModel, replies: Seq<ReplyModel>) -> ProgressModel {
    match t.output {
        None => ProgressModel::Failed(crate::error::ErrorModel::NoOutput),
        Some(o) => match eval_value(
            Env { inputs: t.inputs, replies },
            seq![],
            MAX_DEPTH as nat,
            0,
            o,
            main,
        ).0 {
            Ok(v) => ProgressModel::Finished(v),
            Err(HaltModel::Fail(e)) => ProgressModel::Failed(e),
            Err(HaltModel::Wait(q)) => ProgressModel::Needs(q),
        },
    }
}

/// The innermost local binding of `name`.
fn lookup_local(scopes: &Vec<Frame>, name: &str) -> (r: Option<Json>)
    ensures
        match scopes_get(scopes_model(scopes@), name@) {
            Some(v) => r is Some && r->0@ == v,
            None => r is None,
        },
{
    let ghost sm = scopes_model(scopes@);
    let mut j: usize = scopes.len();
    assert(sm.take(j as int) =~= sm);
    while j > 0
        invariant
            j <= scopes@.len(),
            sm == scopes_model(scopes@),
            scopes_get(sm, name@) == scopes_get(sm.take(j as int), name@),
        decreases j,
    {
        let ghost pre = sm.take(j as int);
        assert(pre.drop_last() =~= sm.take(j - 1));
        assert(pre.last() == members_model(scopes@[j - 1]));
        match member_of(&scopes[j - 1], name) {
            Some(v) => {
                return Some(v.duplicate());
            },
            None => {},
        }
        j = j - 1;
    }
    None
}

/// `unwrap`.
fn builtin_unwrap(v: &Json) -> (r: Option<Json>)
    ensures
        match unwrap_model(v@) {
            Some(x) => r is Some && r->0@ == x,
            None => r is None,
        },
{
    match v {
        Json::Array(items) => {
            if items.len() == 1 {
                assert(v@->Array_0[0] == items@[0]@);
                Some(items[0].duplicate())
            } else {
                None
            }
        },
        _ => None,
    }
}

/// The path part of a reference applied to `base`.
fn select_path(cur: &mut Cursor, replies: &Vec<Reply>, base: Json, jpath: &String) -> (r: Result<Option<Json>, Halt>)
    requires
        old(cur).pos <= replies@.len(),
    ensures
        final(cur).pos <= replies@.len(),
        final(cur).scopes == old(cur).scopes,
        project(replies@.map_values(|x: Reply| x@), old(cur).pos as nat, base@, jpath@)
            == (option_res(r), final(cur).pos as nat),
{
    if jpath.as_str().unicode_len() == 0 {
        return Ok(Some(base));
    }
    if cur.pos >= replies.len() {
        let mut path = String::from_str("$");
        path.append(jpath.as_str());
        proof {
            reveal_strlit("$");
        }
        assert(path@ =~= seq!['$'] + jpath@);
        return Err(Halt::Wait(Request::Select { doc: base, path }));
    }
    let reply = &replies[cur.pos];
    cur.pos = cur.pos + 1;
    match reply {
        Reply::Selected(vs) => Ok(Some(Json::Array(copy_values(vs)))),
        Reply::SelectError => Ok(None),
        _ => Err(Halt::Fail(Error::ReplyMismatch)),
    }
}

impl Transformer {
    /// A template evaluated against `ctx`.
    fn transform_value(&self, cur: &mut Cursor, replies: &Vec<Reply>, fuel: u64, v: &Json, ctx: &Json) -> (r: Result<Json, Halt>)
        requires
            old(cur).pos <= replies@.len(),
        ensures
            final(cur).pos <= replies@.len(),
            final(cur).scopes@ == old(cur).scopes@,
            eval_value(env_of(self@, replies@), scopes_model(old(cur).scopes@), fuel as nat, old(cur).pos as nat, v@, ctx@)
                == (value_res(r), final(cur).pos as nat),
        decreases fuel, size(v@), 1nat, 0nat,
    {
        let ghost env = env_of(self@, replies@);
        let ghost sm = scopes_model(cur.scopes@);
        match v {
            Json::Str(t) => match self.transform_string(cur, replies, fuel, t, ctx) {
                Ok(Some(x)) => Ok(x),
                Ok(None) => Ok(v.duplicate()),
                Err(h) => Err(h),
            },
            Json::Array(items) => {
                let ghost im = v@->Array_0;
                let ghost pos0 = cur.pos as nat;
                let mut out: Vec<Json> = Vec::new();
                let mut i: usize = 0;
                assert(im.subrange(0, im.len() as int) =~= im);
                assert(values_model(out) =~= seq![]);
                while i < items.len()
                    invariant
                        pos0 == old(cur).pos as nat,
                        eval_value(env, sm, fuel as nat, pos0, v@, ctx@) == match eval_items(env, sm, fuel as nat, pos0, im, seq![], ctx@) {
                            (Ok(xs), p) => (Ok(JsonModel::Array(xs)), p),
                            (Err(h), p) => (Err::<JsonModel, HaltModel>(h), p),
                        },
                        v@ == JsonModel::Array(im),
                        im.len() == items@.len(),
                        forall|k: int| 0 <= k < items@.len() ==> #[trigger] im[k] == items@[k]@,
                        i <= items@.len(),
                        cur.pos <= replies@.len(),
                        cur.scopes@ == old(cur).scopes@,
                        sm == scopes_model(cur.scopes@),
                        env == env_of(self@, replies@),
                        eval_items(env, sm, fuel as nat, pos0, im, seq![], ctx@) == eval_items(
                            env,
                            sm,
                            fuel as nat,
                            cur.pos as nat,
                            im.subrange(i as int, im.len() as int),
                            values_model(out),
                            ctx@,
                        ),
                    decreases items.len() - i,
                {
                    let ghost rest = im.subrange(i as int, im.len() as int);
                    assert(rest[0] == im[i as int]);
                    assert(rest.drop_first() =~= im.subrange(i + 1, im.len() as int));
                    proof {
                        lemma_item_size(im, i as int);
                    }
                    let ghost before = values_model(out);
                    match self.transform_value(cur, replies, fuel, &items[i], ctx) {
                        Ok(x) => {
                            let ghost xm = x@;
                            out.push(x);
                            assert(values_model(out) =~= before.push(xm));
                        },
                        Err(h) => {
                            return Err(h);
                        },
                    }
                    i = i + 1;
                }
                Ok(Json::Array(out))
            },
            Json::Object(ms) => {
                match self.transform_members(cur, replies, fuel, ms, ctx) {
                    Ok(out) => Ok(Json::Object(out)),
                    Err(h) => Err(h),
                }
            },
            Json::Null => Ok(Json::Null),
            Json::Bool(b) => Ok(Json::Bool(*b)),
            Json::Number(t) => Ok(Json::Number(t.clone())),
        }
    }

    /// The members `ms` with their values evaluated against `ctx`.
    fn transform_members(&self, cur: &mut Cursor, replies: &Vec<Reply>, fuel: u64, ms: &Frame, ctx: &Json) -> (r: Result<Frame, Halt>)
        requires
            old(cur).pos <= replies@.len(),
        ensures
            final(cur).pos <= replies@.len(),
            final(cur).scopes@ == old(cur).scopes@,
            eval_members(env_of(self@, replies@), scopes_model(old(cur).scopes@), fuel as nat, old(cur).pos as nat, members_model(*ms), seq![], ctx@)
                == (members_res(r), final(cur).pos as nat),
        decreases fuel, size_members(members_model(*ms)), 2nat, 0nat,
    {
        let ghost env = env_of(self@, replies@);
        let ghost sm = scopes_model(cur.scopes@);
        let ghost mm = members_model(*ms);
        let ghost pos0 = cur.pos as nat;
        let mut out: Frame = Vec::new();
        let mut i: usize = 0;
        assert(mm.subrange(0, mm.len() as int) =~= mm);
        assert(members_model(out) =~= seq![]);
        while i < ms.len()
            invariant
                pos0 == old(cur).pos as nat,
                mm == members_model(*ms),
                mm.len() == ms@.len(),
                forall|k: int| 0 <= k < ms@.len() ==> #[trigger] mm[k] == (ms@[k].0@, ms@[k].1@),
                i <= ms@.len(),
                cur.pos <= replies@.len(),
                cur.scopes@ == old(cur).scopes@,
                sm == scopes_model(cur.scopes@),
                env == env_of(self@, replies@),
                eval_members(env, sm, fuel as nat, pos0, mm, seq![], ctx@) == eval_members(
                    env,
                    sm,
                    fuel as nat,
                    cur.pos as nat,
                    mm.subrange(i as int, mm.len() as int),
                    members_model(out),
                    ctx@,
                ),
            decreases ms.len() - i,
        {
            let ghost rest = mm.subrange(i as int, mm.len() as int);
            assert(rest[0] == mm[i as int]);
            assert(rest.drop_first() =~= mm.subrange(i + 1, mm.len() as int));
            proof {
                lemma_member_size(mm, i as int);
            }
            let ghost before = members_model(out);
            match self.transform_value(cur, replies, fuel, &ms[i].1, ctx) {
                Ok(x) => {
                    let ghost xm = x@;
                    out.push((ms[i].0.clone(), x));
                    assert(members_model(out) =~= before.push((mm[i as int].0, xm)));
                },
                Err(h) => {
                    return Err(h);
                },
            }
            i = i + 1;
        }
        Ok(out)
    }

    /// A template string evaluated against `ctx`; `None` where it stays as it is.
    fn transform_string(&self, cur: &mut Cursor, replies: &Vec<Reply>, fuel: u64, t: &String, ctx: &Json) -> (r: Result<Option<Json>, Halt>)
        requires
            old(cur).pos <= replies@.len(),
        ensures
            final(cur).pos <= replies@.len(),
            final(cur).scopes@ == old(cur).scopes@,
            eval_string(env_of(self@, replies@), scopes_model(old(cur).scopes@), fuel as nat, old(cur).pos as nat, t@, ctx@)
                == (option_res(r), final(cur).pos as nat),
        decreases fuel, 0nat, 6nat, 0nat,
    {
        let e = match parse_expr(t.as_str()) {
            None => {
                return Ok(None);
            },
            Some(e) => e,
        };
        let base = if e.input.as_str().unicode_len() == 0 {
            match ctx {
                Json::Null => {
                    return Ok(None);
                },
                _ => ctx.duplicate(),
            }
        } else {
            match self.apply_input_by_name(cur, replies, fuel, &e.input, ctx) {
                Ok(x) => x,
                Err(h) => {
                    return Err(h);
                },
            }
        };
        match select_path(cur, replies, base, &e.jpath) {
            Ok(Some(x)) => self.run_pipeline(cur, replies, fuel, &e.transforms, x),
            other => other,
        }
    }

    /// The transforms `ts` applied to `v` from left to right.
    fn run_pipeline(&self, cur: &mut Cursor, replies: &Vec<Reply>, fuel: u64, ts: &Vec<Transform>, v: Json) -> (r: Result<Option<Json>, Halt>)
        requires
            old(cur).pos <= replies@.len(),
        ensures
            final(cur).pos <= replies@.len(),
            final(cur).scopes@ == old(cur).scopes@,
            eval_pipeline(env_of(self@, replies@), scopes_model(old(cur).scopes@), fuel as nat, old(cur).pos as nat, ts@.map_values(|t: Transform| t@), v@)
                == (option_res(r), final(cur).pos as nat),
        decreases fuel, 0nat, 5nat, 0nat,
    {
        let ghost env = env_of(self@, replies@);
        let ghost sm = scopes_model(cur.scopes@);
        let ghost tm = ts@.map_values(|t: Transform| t@);
        let ghost pos0 = cur.pos as nat;
        let ghost v0 = v@;
        let mut value = v;
        let mut i: usize = 0;
        assert(tm.subrange(0, tm.len() as int) =~= tm);
        while i < ts.len()
            invariant
                pos0 == old(cur).pos as nat,
                v0 == v@,
                tm == ts@.map_values(|t: Transform| t@),
                i <= ts@.len(),
                cur.pos <= replies@.len(),
                cur.scopes@ == old(cur).scopes@,
                sm == scopes_model(cur.scopes@),
                env == env_of(self@, replies@),
                eval_pipeline(env, sm, fuel as nat, pos0, tm, v0) == eval_pipeline(
                    env,
                    sm,
                    fuel as nat,
                    cur.pos as nat,
                    tm.subrange(i as int, tm.len() as int),
                    value@,
                ),
            decreases ts.len() - i,
        {
            let ghost rest = tm.subrange(i as int, tm.len() as int);
            assert(rest[0] == tm[i as int]);
            assert(rest.drop_first() =~= tm.subrange(i + 1, tm.len() as int));
            match self.apply_transform(cur, replies, fuel, &ts[i], value) {
                Ok(Some(x)) => {
                    value = x;
                },
                other => {
                    return other;
                },
            }
            i = i + 1;
        }
        Ok(Some(value))
    }

    /// One transform applied to `v`.
    fn apply_transform(&self, cur: &mut Cursor, replies: &Vec<Reply>, fuel: u64, t: &Transform, v: Json) -> (r: Result<Option<Json>, Halt>)
        requires
            old(cur).pos <= replies@.len(),
        ensures
            final(cur).pos <= replies@.len(),
            final(cur).scopes@ == old(cur).scopes@,
            apply_transform(env_of(self@, replies@), scopes_model(old(cur).scopes@), fuel as nat, old(cur).pos as nat, t@, v@)
                == (option_res(r), final(cur).pos as nat),
        decreases fuel, 0nat, 4nat, 0nat,
    {
        if same_text(t.name.as_str(), "unwrap") {
            return Ok(builtin_unwrap(&v));
        }
        if same_text(t.name.as_str(), "map") {
            return match &v {
                Json::Array(items) => {
                    if t.args.len() == 1 {
                        match self.map_items(cur, replies, fuel, &t.args[0], items) {
                            Ok(xs) => Ok(Some(Json::Array(xs))),
                            Err(h) => Err(h),
                        }
                    } else {
                        Ok(None)
                    }
                },
                _ => Ok(None),
            };
        }
        if same_text(t.name.as_str(), "ifelse") {
            if t.args.len() != 2 {
                return Ok(None);
            }
            let branch = if v.is_truthy() {
                &t.args[0]
            } else {
                &t.args[1]
            };
            return match self.apply_input_by_name(cur, replies, fuel, branch, &v) {
                Ok(x) => Ok(Some(x)),
                Err(Halt::Fail(_)) => Ok(None),
                Err(h) => Err(h),
            };
        }
        match self.apply_input_by_name(cur, replies, fuel, &t.name, &v) {
            Ok(x) => Ok(Some(x)),
            Err(h) => Err(h),
        }
    }

    /// `map`: the input `name` resolved against each element in turn; an
    /// element whose resolution fails is kept.
    fn map_items(&self, cur: &mut Cursor, replies: &Vec<Reply>, fuel: u64, name: &String, items: &Vec<Json>) -> (r: Result<Vec<Json>, Halt>)
        requires
            old(cur).pos <= replies@.len(),
        ensures
            final(cur).pos <= replies@.len(),
            final(cur).scopes@ == old(cur).scopes@,
            map_items(env_of(self@, replies@), scopes_model(old(cur).scopes@), fuel as nat, old(cur).pos as nat, name@, values_model(*items), seq![])
                == (values_res(r), final(cur).pos as nat),
        decreases fuel, 0nat, 3nat, 0nat,
    {
        let ghost env = env_of(self@, replies@);
        let ghost sm = scopes_model(cur.scopes@);
        let ghost im = values_model(*items);
        let ghost pos0 = cur.pos as nat;
        let mut out: Vec<Json> = Vec::new();
        let mut i: usize = 0;
        assert(im.subrange(0, im.len() as int) =~= im);
        assert(values_model(out) =~= seq![]);
        while i < items.len()
            invariant
                pos0 == old(cur).pos as nat,
                im == values_model(*items),
                im.len() == items@.len(),
                forall|k: int| 0 <= k < items@.len() ==> #[trigger] im[k] == items@[k]@,
                i <= items@.len(),
                cur.pos <= replies@.len(),
                cur.scopes@ == old(cur).scopes@,
                sm == scopes_model(cur.scopes@),
                env == env_of(self@, replies@),
                map_items(env, sm, fuel as nat, pos0, name@, im, seq![]) == map_items(
                    env,
                    sm,
                    fuel as nat,
                    cur.pos as nat,
                    name@,
                    im.subrange(i as int, im.len() as int),
                    values_model(out),
                ),
            decreases items.len() - i,
        {
            let ghost rest = im.subrange(i as int, im.len() as int);
            assert(rest[0] == im[i as int]);
            assert(rest.drop_first() =~= im.subrange(i + 1, im.len() as int));
            let ghost before = values_model(out);
            match self.apply_input_by_name(cur, replies, fuel, name, &items[i]) {
                Ok(x) => {
                    let ghost xm = x@;
                    out.push(x);
                    assert(values_model(out) =~= before.push(xm));
                },
                Err(Halt::Fail(_)) => {
                    out.push(items[i].duplicate());
                    assert(values_model(out) =~= before.push(im[i as int]));
                },
                Err(h) => {
                    return Err(h);
                },
            }
            i = i + 1;
        }
        Ok(out)
    }

    /// What `name` denotes with `ctx` as context.
    fn apply_input_by_name(&self, cur: &mut Cursor, replies: &Vec<Reply>, fuel: u64, name: &String, ctx: &Json) -> (r: Result<Json, Halt>)
        requires
            old(cur).pos <= replies@.len(),
        ensures
            final(cur).pos <= replies@.len(),
            final(cur).scopes@ == old(cur).scopes@,
            apply_by_name(env_of(self@, replies@), scopes_model(old(cur).scopes@), fuel as nat, old(cur).pos as nat, name@, ctx@)
                == (value_res(r), final(cur).pos as nat),
        decreases fuel, 0nat, 2nat, 0nat,
    {
        match lookup_local(&cur.scopes, name.as_str()) {
            Some(v) => {
                return Ok(v);
            },
            None => {},
        }
        match self.find(name.as_str()) {
            None => Err(Halt::Fail(Error::UnknownInput(name.clone()))),
            Some(inp) => self.resolve(cur, replies, fuel, inp, ctx),
        }
    }

    /// An input resolved against `ctx`, its `let` frame pushed for the
    /// evaluation of its source and popped after, whatever the outcome.
    fn resolve(&self, cur: &mut Cursor, replies: &Vec<Reply>, fuel: u64, inp: &Input, ctx: &Json) -> (r: Result<Json, Halt>)
        requires
            old(cur).pos <= replies@.len(),
        ensures
            final(cur).pos <= replies@.len(),
            final(cur).scopes@ == old(cur).scopes@,
            resolve(env_of(self@, replies@), scopes_model(old(cur).scopes@), fuel as nat, old(cur).pos as nat, inp@, ctx@)
                == (value_res(r), final(cur).pos as nat),
        decreases fuel, 0nat, 1nat, 0nat,
    {
        if fuel == 0 {
            return Err(Halt::Fail(Error::TooDeep(inp.name.clone())));
        }
        let frame: Frame = match &inp.lets {
            None => {
                let f: Frame = Vec::new();
                assert(members_model(f) =~= Seq::<(Seq<char>, JsonModel)>::empty());
                f
            },
            Some(Json::Object(ms)) => {
                assert(inp@.lets == Some(JsonModel::Object(members_model(*ms))));
                match self.transform_members(cur, replies, fuel - 1, ms, ctx) {
                    Ok(f) => f,
                    Err(h) => {
                        return Err(h);
                    },
                }
            },
            Some(_) => {
                return Err(Halt::Fail(Error::LetNotObject(inp.name.clone())));
            },
        };
        let ghost outer = cur.scopes@;
        let ghost fm = members_model(frame);
        cur.scopes.push(frame);
        assert(scopes_model(cur.scopes@) =~= scopes_model(outer).push(fm));
        let r = self.apply_input(cur, replies, fuel - 1, inp, ctx);
        cur.scopes.pop();
        assert(cur.scopes@ =~= outer);
        r
    }

    /// The value of an input's source by its kind.
    fn apply_input(&self, cur: &mut Cursor, replies: &Vec<Reply>, fuel: u64, inp: &Input, ctx: &Json) -> (r: Result<Json, Halt>)
        requires
            old(cur).pos <= replies@.len(),
        ensures
            final(cur).pos <= replies@.len(),
            final(cur).scopes@ == old(cur).scopes@,
            input_body(env_of(self@, replies@), scopes_model(old(cur).scopes@), fuel as nat, old(cur).pos as nat, inp@, ctx@)
                == (value_res(r), final(cur).pos as nat),
        decreases fuel + 1, 0nat, 0nat, 0nat,
    {
        match inp.kind {
            InputKind::Inline => self.transform_value(cur, replies, fuel, &inp.source, ctx),
            InputKind::File => match &inp.source {
                Json::Str(path) => {
                    if cur.pos >= replies.len() {
                        return Err(Halt::Wait(Request::ReadFile { path: path.clone() }));
                    }
                    let reply = &replies[cur.pos];
                    cur.pos = cur.pos + 1;
                    match reply {
                        Reply::File(doc) => self.transform_value(cur, replies, fuel, doc, ctx),
                        Reply::FileError(m) => Err(
                            Halt::Fail(Error::FileFailed(inp.name.clone(), m.clone())),
                        ),
                        _ => Err(Halt::Fail(Error::ReplyMismatch)),
                    }
                },
                _ => Err(Halt::Fail(Error::NonStringSource(inp.name.clone()))),
            },
            InputKind::Command => match &inp.source {
                Json::Str(line) => match split_command(line.as_str()) {
                    None => Err(Halt::Fail(Error::BadCommand(inp.name.clone()))),
                    Some((program, args)) => {
                        if cur.pos >= replies.len() {
                            let stdin = if inp.stdin {
                                Some(ctx.duplicate())
                            } else {
                                None
                            };
                            return Err(Halt::Wait(Request::RunCommand { program, args, stdin }));
                        }
                        let reply = &replies[cur.pos];
                        cur.pos = cur.pos + 1;
                        match reply {
                            Reply::Output { text, parsed } => Ok(output_value(text, parsed)),
                            Reply::CommandError(m) => Err(
                                Halt::Fail(Error::CommandFailed(inp.name.clone(), m.clone())),
                            ),
                            _ => Err(Halt::Fail(Error::ReplyMismatch)),
                        }
                    },
                },
                _ => Err(Halt::Fail(Error::NonStringSource(inp.name.clone()))),
            },
        }
    }

    /// Evaluate the output template against `input` with the replies received
    /// so far: the output document, a hard error, or the next outside work needed.
    pub fn transform(&self, input: &Json, replies: &Vec<Reply>) -> (r: Progress)
        ensures
            r@ == run_model(self@, input@, replies@.map_values(|x: Reply| x@)),
    {
        let output = match self.output() {
            Some(o) => o,
            None => {
                return Progress::Failed(Error::NoOutput);
            },
        };
        let mut cur = Cursor { scopes: Vec::new(), pos: 0 };
        assert(scopes_model(cur.scopes@) =~= seq![]);
        match self.transform_value(&mut cur, replies, MAX_DEPTH, output, input) {
            Ok(v) => Progress::Finished(v),
            Err(Halt::Fail(e)) => Progress::Failed(e),
            Err(Halt::Wait(q)) => Progress::Needs(q),
        }
    }
}

} // verus!
