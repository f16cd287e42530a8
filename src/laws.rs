//! Properties of evaluation and merging, proved over the models.
use vstd::prelude::*;
use crate::eval::{run_model, MAX_DEPTH};
use crate::expr::{parse_model, TransformModel};
use crate::input::InputModel;
use crate::json::{JsonModel, MembersModel, member, size, size_items, size_members};
use crate::protocol::{HaltModel, ProgressModel, ReplyModel};
use crate::semantics::{
    Env, apply_by_name, apply_transform, eval_items, eval_members, eval_value, project, unwrap_model,
};
use crate::transformer::{
    TransformerModel, add_input_model, add_inputs_from, find_from, find_input, is_builtin,
    lets_allowed, merge_model, well_formed,
};

verus! {

/// A template with no string that starts with `$`.
pub open spec fn literal(v: JsonModel) -> bool
    decreases size(v),
{
    match v {
        JsonModel::Str(t) => t.len() == 0 || t[0] != '$',
        JsonModel::Array(items) => literal_items(items),
        JsonModel::Object(ms) => literal_members(ms),
        _ => true,
    }
}

pub open spec fn literal_items(items: Seq<JsonModel>) -> bool
    decreases size_items(items),
{
    items.len() == 0 || (literal(items[0]) && literal_items(items.drop_first()))
}

pub open spec fn literal_members(ms: MembersModel) -> bool
    decreases size_members(ms),
{
    ms.len() == 0 || (literal(ms[0].1) && literal_members(ms.drop_first()))
}

/// Evaluating a template that holds no reference gives it back unchanged and
/// consumes no reply.
pub proof fn lemma_literal_unchanged(env: Env, sc: Seq<MembersModel>, fuel: nat, pos: nat, v: JsonModel, ctx: JsonModel)
    requires
        literal(v),
    ensures
        eval_value(env, sc, fuel, pos, v, ctx) == (Ok::<JsonModel, HaltModel>(v), pos),
    decreases size(v), 1nat,
{
    match v {
        JsonModel::Str(t) => {
            assert(parse_model(t) is None);
        },
        JsonModel::Array(items) => {
            lemma_literal_items(env, sc, fuel, pos, items, seq![], ctx);
            assert(seq![] + items =~= items);
        },
        JsonModel::Object(ms) => {
            lemma_literal_members(env, sc, fuel, pos, ms, seq![], ctx);
            assert(seq![] + ms =~= ms);
        },
        _ => {},
    }
}

proof fn lemma_literal_items(env: Env, sc: Seq<MembersModel>, fuel: nat, pos: nat, items: Seq<JsonModel>, acc: Seq<JsonModel>, ctx: JsonModel)
    requires
        literal_items(items),
    ensures
        eval_items(env, sc, fuel, pos, items, acc, ctx) == (Ok::<Seq<JsonModel>, HaltModel>(acc + items), pos),
    decreases size_items(items), 0nat,
{
    if items.len() > 0 {
        lemma_literal_unchanged(env, sc, fuel, pos, items[0], ctx);
        lemma_literal_items(env, sc, fuel, pos, items.drop_first(), acc.push(items[0]), ctx);
        assert(acc.push(items[0]) + items.drop_first() =~= acc + items);
    } else {
        assert(acc + items =~= acc);
    }
}

proof fn lemma_literal_members(env: Env, sc: Seq<MembersModel>, fuel: nat, pos: nat, ms: MembersModel, acc: MembersModel, ctx: JsonModel)
    requires
        literal_members(ms),
    ensures
        eval_members(env, sc, fuel, pos, ms, acc, ctx) == (Ok::<MembersModel, HaltModel>(acc + ms), pos),
    decreases size_members(ms), 0nat,
{
    if ms.len() > 0 {
        lemma_literal_unchanged(env, sc, fuel, pos, ms[0].1, ctx);
        lemma_literal_members(env, sc, fuel, pos, ms.drop_first(), acc.push((ms[0].0, ms[0].1)), ctx);
        assert(acc.push((ms[0].0, ms[0].1)) + ms.drop_first() =~= acc + ms);
    } else {
        assert(acc + ms =~= acc);
    }
}

/// A transformation whose output template holds no reference finishes with
/// that template as it is, whatever the input and the replies.
pub proof fn lemma_literal_output(t: TransformerModel, main: JsonModel, replies: Seq<ReplyModel>)
    requires
        t.output is Some,
        literal(t.output->0),
    ensures
        run_model(t, main, replies) == ProgressModel::Finished(t.output->0),
{
    lemma_literal_unchanged(Env { inputs: t.inputs, replies }, seq![], MAX_DEPTH as nat, 0, t.output->0, main);
}

/// A non-empty path always yields an array, whatever the number of matches:
/// exactly the matches, in order.
pub proof fn lemma_query_is_array(replies: Seq<ReplyModel>, pos: nat, base: JsonModel, jpath: Seq<char>)
    requires
        jpath.len() > 0,
    ensures
        project(replies, pos, base, jpath).0 matches Ok(Some(x)) ==> x is Array,
        pos < replies.len() ==> (replies[pos as int] matches ReplyModel::Selected(vs)
            ==> project(replies, pos, base, jpath) == (Ok::<Option<JsonModel>, HaltModel>(Some(JsonModel::Array(vs))), pos + 1)),
{
}

/// `unwrap` gives back the one element of a one-element array, and gives no
/// value for an array of any other length.
pub proof fn lemma_unwrap(env: Env, sc: Seq<MembersModel>, fuel: nat, pos: nat, t: TransformModel, x: JsonModel, items: Seq<JsonModel>)
    requires
        t.name == "unwrap"@,
    ensures
        apply_transform(env, sc, fuel, pos, t, JsonModel::Array(seq![x])) == (Ok::<Option<JsonModel>, HaltModel>(Some(x)), pos),
        items.len() != 1 ==> apply_transform(env, sc, fuel, pos, t, JsonModel::Array(items)) == (Ok::<Option<JsonModel>, HaltModel>(None), pos),
{
}

/// The query's only match, unwrapped, is the match itself.
pub proof fn lemma_query_unwrap(replies: Seq<ReplyModel>, pos: nat, base: JsonModel, jpath: Seq<char>, x: JsonModel)
    requires
        jpath.len() > 0,
        pos < replies.len(),
        replies[pos as int] == ReplyModel::Selected(seq![x]),
    ensures
        project(replies, pos, base, jpath).0 matches Ok(Some(v)) && unwrap_model(v) == Some(x),
{
}

/// A `let` binding is what its name denotes while the frame that holds it
/// is innermost, whatever outer frames and declared inputs use that name.
pub proof fn lemma_let_shadows(env: Env, sc: Seq<MembersModel>, frame: MembersModel, fuel: nat, pos: nat, name: Seq<char>, ctx: JsonModel)
    requires
        member(frame, name) is Some,
    ensures
        apply_by_name(env, sc.push(frame), fuel, pos, name, ctx) == (Ok::<JsonModel, HaltModel>(member(frame, name)->0), pos),
{
    assert(sc.push(frame).last() == frame);
}

/// Sibling templates are evaluated in the same scope: what one of them bound
/// while it was evaluated is gone when the next one is.
pub proof fn lemma_siblings_share_scope(env: Env, sc: Seq<MembersModel>, fuel: nat, pos: nat, a: JsonModel, b: JsonModel, ctx: JsonModel)
    ensures
        eval_items(env, sc, fuel, pos, seq![a, b], seq![], ctx) == match eval_value(env, sc, fuel, pos, a, ctx) {
            (Ok(x), p) => match eval_value(env, sc, fuel, p, b, ctx) {
                (Ok(y), q) => (Ok(seq![x, y]), q),
                (Err(h), q) => (Err(h), q),
            },
            (Err(h), p) => (Err(h), p),
        },
{
    let s = seq![a, b];
    let e = Seq::<JsonModel>::empty();
    assert(s[0] == a);
    assert(s.drop_first() =~= seq![b]);
    assert(seq![b][0] == b);
    assert(seq![b].drop_first() =~= e);
    match eval_value(env, sc, fuel, pos, a, ctx) {
        (Ok(x), p) => {
            assert(e.push(x) =~= seq![x]);
            assert(eval_items(env, sc, fuel, pos, s, e, ctx) == eval_items(env, sc, fuel, p, seq![b], seq![x], ctx));
            match eval_value(env, sc, fuel, p, b, ctx) {
                (Ok(y), q) => {
                    assert(seq![x].push(y) =~= seq![x, y]);
                    assert(eval_items(env, sc, fuel, p, seq![b], seq![x], ctx) == eval_items(env, sc, fuel, q, e, seq![x, y], ctx));
                },
                _ => {},
            }
        },
        _ => {},
    }
}

proof fn lemma_find_push(s: Seq<InputModel>, x: InputModel, n: Seq<char>, i: int)
    requires
        0 <= i <= s.len(),
    ensures
        find_from(s.push(x), n, i) == if find_from(s, n, i) is Some {
            find_from(s, n, i)
        } else if x.name == n {
            Some(x)
        } else {
            None
        },
    decreases s.len() - i,
{
    if i < s.len() {
        assert(s.push(x)[i] == s[i]);
        lemma_find_push(s, x, n, i + 1);
    } else {
        assert(s.push(x)[i] == x);
        assert(find_from(s, n, i) is None);
        assert(find_from(s.push(x), n, i + 1) is None);
    }
}

proof fn lemma_find_at(s: Seq<InputModel>, k: int, i: int)
    requires
        0 <= i <= k < s.len(),
        forall|a: int, b: int| 0 <= a < b < s.len() ==> #[trigger] s[a].name != #[trigger] s[b].name,
    ensures
        find_from(s, s[k].name, i) == Some(s[k]),
    decreases k - i,
{
    if i < k {
        assert(s[i].name != s[k].name);
        lemma_find_at(s, k, i + 1);
    }
}

/// Declaring an input keeps every earlier declaration findable as it was,
/// and makes the new one findable.
proof fn lemma_add_keeps(t: TransformerModel, inp: InputModel, t2: TransformerModel)
    requires
        add_input_model(t, inp) == Ok::<TransformerModel, crate::error::ErrorModel>(t2),
    ensures
        find_input(t2.inputs, inp.name) == Some(inp),
        forall|n: Seq<char>| find_input(t.inputs, n) is Some ==> #[trigger] find_input(t2.inputs, n) == find_input(t.inputs, n),
{
    if find_input(t.inputs, inp.name) is None {
        assert forall|n: Seq<char>| find_input(t.inputs, n) is Some implies #[trigger] find_input(t2.inputs, n) == find_input(t.inputs, n) by {
            lemma_find_push(t.inputs, inp, n, 0);
        }
        lemma_find_push(t.inputs, inp, inp.name, 0);
    }
}

/// After `ins[k..]` are all declared, each of them is findable as declared.
proof fn lemma_added_all(t: TransformerModel, ins: Seq<InputModel>, k: int)
    requires
        0 <= k <= ins.len(),
        add_inputs_from(t, ins, k).1 is Ok,
    ensures
        forall|m: int| k <= m < ins.len() ==> find_input(add_inputs_from(t, ins, k).0.inputs, #[trigger] ins[m].name) == Some(ins[m]),
        forall|n: Seq<char>| find_input(t.inputs, n) is Some ==> #[trigger] find_input(add_inputs_from(t, ins, k).0.inputs, n) == find_input(t.inputs, n),
    decreases ins.len() - k,
{
    if k < ins.len() {
        let t2 = add_input_model(t, ins[k])->Ok_0;
        lemma_add_keeps(t, ins[k], t2);
        lemma_added_all(t2, ins, k + 1);
    }
}

/// Declaring inputs that are all findable as declared changes nothing.
proof fn lemma_redeclare(t: TransformerModel, ins: Seq<InputModel>, k: int)
    requires
        0 <= k <= ins.len(),
        forall|m: int| k <= m < ins.len() ==> find_input(t.inputs, #[trigger] ins[m].name) == Some(ins[m]),
        forall|m: int| 0 <= m < ins.len() ==> !is_builtin(#[trigger] ins[m].name) && lets_allowed(ins[m].lets),
    ensures
        add_inputs_from(t, ins, k) == (t, Ok::<(), crate::error::ErrorModel>(())),
    decreases ins.len() - k,
{
    if k < ins.len() {
        assert(!is_builtin(ins[k].name) && lets_allowed(ins[k].lets));
        assert(find_input(t.inputs, ins[k].name) == Some(ins[k]));
        lemma_redeclare(t, ins, k + 1);
    }
}

/// Merging the same spec a second time succeeds and changes nothing, when
/// that spec defines no output.
pub proof fn lemma_merge_twice(t: TransformerModel, o: TransformerModel)
    requires
        well_formed(o),
        o.output is None,
        merge_model(t, o).1 is Ok,
    ensures
        merge_model(merge_model(t, o).0, o) == (merge_model(t, o).0, Ok::<(), crate::error::ErrorModel>(())),
{
    lemma_added_all(t, o.inputs, 0);
    lemma_redeclare(merge_model(t, o).0, o.inputs, 0);
}

proof fn lemma_conflict_reached(t: TransformerModel, ins: Seq<InputModel>, k: int, j: int, target: InputModel)
    requires
        0 <= k <= j < ins.len(),
        find_input(t.inputs, ins[j].name) == Some(target),
        target != ins[j],
        !is_builtin(ins[j].name),
    ensures
        add_inputs_from(t, ins, k).1 is Err,
    decreases j - k,
{
    if k < j {
        match add_input_model(t, ins[k]) {
            Ok(t2) => {
                lemma_add_keeps(t, ins[k], t2);
                lemma_conflict_reached(t2, ins, k + 1, j, target);
            },
            Err(_) => {},
        }
    }
}

/// Merging a spec that declares an input under a name this spec already
/// uses, with another kind or another source, fails.
pub proof fn lemma_merge_conflict(t: TransformerModel, o: TransformerModel, i: int, j: int)
    requires
        well_formed(t),
        well_formed(o),
        0 <= i < t.inputs.len(),
        0 <= j < o.inputs.len(),
        t.inputs[i].name == o.inputs[j].name,
        t.inputs[i].kind != o.inputs[j].kind || t.inputs[i].source != o.inputs[j].source,
    ensures
        merge_model(t, o).1 is Err,
{
    lemma_find_at(t.inputs, i, 0);
    let t1 = match o.output {
        Some(out) => TransformerModel { output: Some(out), ..t },
        None => t,
    };
    assert(!is_builtin(o.inputs[j].name));
    if !(o.output is Some && t.output is Some) {
        lemma_conflict_reached(t1, o.inputs, 0, j, t.inputs[i]);
    }
}

} // verus!
