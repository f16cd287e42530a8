//! A spec: its registry of inputs and its output template, built from spec
//! documents and merged from the documents they use.
use vstd::prelude::*;
use crate::error::{Error, ErrorModel};
use crate::input::{Input, InputModel, input_of, option_view, texts_of, texts_in, field};
use crate::json::{Json, JsonModel, same_text};

verus! {

/// The names that pipelines resolve to builtin functions before inputs.
pub open spec fn is_builtin(n: Seq<char>) -> bool {
    n == "unwrap"@ || n == "map"@ || n == "ifelse"@
}

pub fn builtin_name(n: &str) -> (r: bool)
    ensures
        r == is_builtin(n@),
{
    same_text(n, "unwrap") || same_text(n, "map") || same_text(n, "ifelse")
}

/// The first declaration named `name` at or after position `i`.
pub open spec fn find_from(inputs: Seq<InputModel>, name: Seq<char>, i: int) -> Option<InputModel>
    decreases inputs.len() - i,
{
    if i < 0 || i >= inputs.len() {
        None
    } else if inputs[i].name == name {
        Some(inputs[i])
    } else {
        find_from(inputs, name, i + 1)
    }
}

pub open spec fn find_input(inputs: Seq<InputModel>, name: Seq<char>) -> Option<InputModel> {
    find_from(inputs, name, 0)
}

pub struct TransformerModel {
    pub inputs: Seq<InputModel>,
    pub output: Option<JsonModel>,
}

/// A registry is well formed when names are unique, none is a builtin's, and
/// every `let` clause is an object.
pub open spec fn well_formed(t: TransformerModel) -> bool {
    &&& forall|i: int, j: int|
        0 <= i < j < t.inputs.len() ==> #[trigger] t.inputs[i].name != #[trigger] t.inputs[j].name
    &&& forall|i: int|
        0 <= i < t.inputs.len() ==> !is_builtin(#[trigger] t.inputs[i].name) && lets_allowed(
            t.inputs[i].lets,
        )
}

pub open spec fn lets_allowed(lets: Option<JsonModel>) -> bool {
    match lets {
        Some(JsonModel::Object(_)) => true,
        Some(_) => false,
        None => true,
    }
}

/// What declaring `inp` does to a spec: an identical redeclaration changes
/// nothing, a new name is appended.
pub open spec fn add_input_model(t: TransformerModel, inp: InputModel) -> Result<TransformerModel, ErrorModel> {
    if is_builtin(inp.name) {
        Err(ErrorModel::BuiltinName(inp.name))
    } else if find_input(t.inputs, inp.name) is Some && find_input(t.inputs, inp.name)->0 != inp {
        Err(ErrorModel::Conflict(inp.name))
    } else if !lets_allowed(inp.lets) {
        Err(ErrorModel::LetNotObject(inp.name))
    } else if find_input(t.inputs, inp.name) is Some {
        Ok(t)
    } else {
        Ok(TransformerModel { inputs: t.inputs.push(inp), ..t })
    }
}

pub open spec fn add_output_model(t: TransformerModel, out: JsonModel) -> Result<TransformerModel, ErrorModel> {
    if t.output is Some {
        Err(ErrorModel::DoubleOutput)
    } else {
        Ok(TransformerModel { output: Some(out), ..t })
    }
}

/// Declare `ins[i..]` one after another, stopping at the first failure: the
/// spec reached and the outcome.
pub open spec fn add_inputs_from(t: TransformerModel, ins: Seq<InputModel>, i: int) -> (TransformerModel, Result<(), ErrorModel>)
    decreases ins.len() - i,
{
    if i < 0 || i >= ins.len() {
        (t, Ok(()))
    } else {
        match add_input_model(t, ins[i]) {
            Ok(t2) => add_inputs_from(t2, ins, i + 1),
            Err(e) => (t, Err(e)),
        }
    }
}

/// Merging `o` into `t`: its output first, then each of its inputs.
pub open spec fn merge_model(t: TransformerModel, o: TransformerModel) -> (TransformerModel, Result<(), ErrorModel>) {
    match o.output {
        Some(out) => match add_output_model(t, out) {
            Ok(t1) => add_inputs_from(t1, o.inputs, 0),
            Err(e) => (t, Err(e)),
        },
        None => add_inputs_from(t, o.inputs, 0),
    }
}

/// A loaded spec: the registry of declared inputs and the output template.
pub struct Transformer {
    inputs: Vec<Input>,
    output: Option<Json>,
}

impl View for Transformer {
    type V = TransformerModel;

    closed spec fn view(&self) -> TransformerModel {
        TransformerModel {
            inputs: self.inputs@.map_values(|i: Input| i@),
            output: option_view(self.output),
        }
    }
}

impl Transformer {
    /// Every spec built by these methods is well formed.
    pub open spec fn wf(&self) -> bool {
        well_formed(self@)
    }

    /// A spec with no inputs and no output.
    pub fn empty() -> (r: Transformer)
        ensures
            r.wf(),
            r@.inputs == Seq::<InputModel>::empty(),
            r@.output is None,
    {
        let r = Transformer { inputs: Vec::new(), output: None };
        assert(r@.inputs =~= Seq::<InputModel>::empty());
        r
    }

    /// The declaration named `name`, if any.
    pub fn find(&self, name: &str) -> (r: Option<&Input>)
        ensures
            match find_input(self@.inputs, name@) {
                Some(m) => r is Some && r->0@ == m,
                None => r is None,
            },
    {
        let mut i: usize = 0;
        while i < self.inputs.len()
            invariant
                i <= self.inputs@.len(),
                find_input(self@.inputs, name@) == find_from(self@.inputs, name@, i as int),
            decreases self.inputs.len() - i,
        {
            if same_text(self.inputs[i].name.as_str(), name) {
                return Some(&self.inputs[i]);
            }
            i = i + 1;
        }
        None
    }

    /// Declare an input. A second, identical declaration is accepted and
    /// changes nothing; a different one under the same name is refused, as is
    /// a builtin's name or a `let` clause that is not an object. On failure
    /// the spec is unchanged.
    pub fn add_input(&mut self, input: Input) -> (r: Result<(), Error>)
        requires
            old(self).wf(),
        ensures
            final(self).wf(),
            match add_input_model(old(self)@, input@) {
                Ok(t) => r is Ok && final(self)@ == t,
                Err(e) => r is Err && r->Err_0@ == e && final(self)@ == old(self)@,
            },
    {
        if builtin_name(input.name.as_str()) {
            return Err(Error::BuiltinName(input.name));
        }
        let found = match self.find(input.name.as_str()) {
            Some(existing) => {
                if !existing.same_as(&input) {
                    return Err(Error::Conflict(input.name));
                }
                true
            },
            None => false,
        };
        let lets_ok = match &input.lets {
            Some(Json::Object(_)) => true,
            Some(_) => false,
            None => true,
        };
        if !lets_ok {
            return Err(Error::LetNotObject(input.name));
        }
        if !found {
            let ghost before = self@;
            proof {
                self.lemma_absent_name(input@);
            }
            self.inputs.push(input);
            assert(self@.inputs =~= before.inputs.push(input@));
        }
        Ok(())
    }

    proof fn lemma_absent_name(&self, inp: InputModel)
        requires
            find_input(self@.inputs, inp.name) is None,
        ensures
            forall|i: int| 0 <= i < self@.inputs.len() ==> #[trigger] self@.inputs[i].name != inp.name,
    {
        assert forall|i: int| 0 <= i < self@.inputs.len() implies #[trigger] self@.inputs[i].name
            != inp.name by {
            lemma_find_none(self@.inputs, inp.name, 0, i);
        }
    }

    /// Set the output template; a second definition is refused and leaves the
    /// spec unchanged.
    pub fn add_output(&mut self, output: Json) -> (r: Result<(), Error>)
        requires
            old(self).wf(),
        ensures
            final(self).wf(),
            match add_output_model(old(self)@, output@) {
                Ok(t) => r is Ok && final(self)@ == t,
                Err(e) => r is Err && r->Err_0@ == e && final(self)@ == old(self)@,
            },
    {
        if self.output.is_some() {
            return Err(Error::DoubleOutput);
        }
        self.output = Some(output);
        Ok(())
    }
}

/// The outcome of a step that returns nothing on success.
pub open spec fn outcome(r: Result<(), Error>) -> Result<(), ErrorModel> {
    match r {
        Ok(()) => Ok(()),
        Err(e) => Err(e@),
    }
}

/// Merge `used[i..]` one after another into `t`.
pub open spec fn merge_all_from(t: TransformerModel, used: Seq<TransformerModel>, i: int) -> Result<TransformerModel, ErrorModel>
    decreases used.len() - i,
{
    if i < 0 || i >= used.len() {
        Ok(t)
    } else {
        match merge_model(t, used[i]) {
            (t2, Ok(())) => merge_all_from(t2, used, i + 1),
            (_, Err(e)) => Err(e),
        }
    }
}

/// The spec a document describes once the specs it uses are merged: its own
/// output, then each used spec merged in order, then its own inputs declared.
pub open spec fn new_model(d: SpecDocModel, used: Seq<TransformerModel>) -> Result<TransformerModel, ErrorModel> {
    match merge_all_from(TransformerModel { inputs: seq![], output: d.output }, used, 0) {
        Ok(t) => match add_inputs_from(t, d.inputs, 0) {
            (t2, Ok(())) => Ok(t2),
            (_, Err(e)) => Err(e),
        },
        Err(e) => Err(e),
    }
}

/// The fields of a spec document: the paths of the specs it uses, its input
/// declarations in order, and its output template.
pub struct SpecDoc {
    pub uses: Vec<String>,
    pub inputs: Vec<Input>,
    pub output: Option<Json>,
}

pub struct SpecDocModel {
    pub uses: Seq<Seq<char>>,
    pub inputs: Seq<InputModel>,
    pub output: Option<JsonModel>,
}

impl View for SpecDoc {
    type V = SpecDocModel;

    open spec fn view(&self) -> SpecDocModel {
        SpecDocModel {
            uses: self.uses@.map_values(|u: String| u@),
            inputs: self.inputs@.map_values(|i: Input| i@),
            output: option_view(self.output),
        }
    }
}

/// The declarations of the elements `items[i..]`, or the first one's error.
pub open spec fn inputs_from(items: Seq<JsonModel>, i: int) -> Result<Seq<InputModel>, ErrorModel>
    decreases items.len() - i,
{
    if i < 0 || i >= items.len() {
        Ok(seq![])
    } else {
        match (input_of(items[i]), inputs_from(items, i + 1)) {
            (Err(e), _) => Err(e),
            (Ok(m), Ok(rest)) => Ok(seq![m] + rest),
            (Ok(_), Err(e)) => Err(e),
        }
    }
}

/// The fields of a spec document. `use` and `input` may be absent or `null`;
/// `use` is then empty, and so is `input`. An absent or `null` output is no output.
pub open spec fn doc_of(v: JsonModel) -> Result<SpecDocModel, ErrorModel> {
    match v {
        JsonModel::Object(ms) => {
            let uses = match field(ms, "use"@) {
                None => Some(seq![]),
                Some(u) => texts_of(u),
            };
            let inputs = match field(ms, "input"@) {
                None => Ok(seq![]),
                Some(JsonModel::Array(items)) => inputs_from(items, 0),
                Some(_) => Err(ErrorModel::BadField("input"@)),
            };
            if uses is None {
                Err(ErrorModel::BadField("use"@))
            } else {
                match inputs {
                    Ok(ins) => Ok(
                        SpecDocModel { uses: uses->0, inputs: ins, output: field(ms, "output"@) },
                    ),
                    Err(e) => Err(e),
                }
            }
        },
        _ => Err(ErrorModel::NotAnObject),
    }
}

/// The declarations of the elements of an `input` array, or the first error.
fn inputs_in(items: &Vec<Json>) -> (r: Result<Vec<Input>, Error>)
    ensures
        match inputs_from(Json::Array(*items)@->Array_0, 0) {
            Ok(ms) => r is Ok && r->Ok_0@.map_values(|x: Input| x@) == ms,
            Err(e) => r is Err && r->Err_0@ == e,
        },
{
    let ghost im = Json::Array(*items)@->Array_0;
    let mut out: Vec<Input> = Vec::new();
    let mut i: usize = 0;
    while i < items.len()
        invariant
            im == Json::Array(*items)@->Array_0,
            i <= items@.len(),
            forall|k: int| 0 <= k < items@.len() ==> #[trigger] im[k] == items@[k]@,
            im.len() == items@.len(),
            inputs_from(im, 0) == match inputs_from(im, i as int) {
                Ok(rest) => Ok(out@.map_values(|x: Input| x@) + rest),
                Err(e) => Err::<Seq<InputModel>, ErrorModel>(e),
            },
        decreases items.len() - i,
    {
        let ghost before = out@.map_values(|x: Input| x@);
        match Input::from_json(&items[i]) {
            Ok(inp) => {
                let ghost m = inp@;
                out.push(inp);
                assert(out@.map_values(|x: Input| x@) =~= before.push(m));
                proof {
                    match inputs_from(im, i + 1) {
                        Ok(rest) => {
                            assert(before + (seq![m] + rest) =~= before.push(m) + rest);
                        },
                        Err(_) => {},
                    }
                }
            },
            Err(e) => {
                return Err(e);
            },
        }
        i = i + 1;
    }
    assert(out@.map_values(|x: Input| x@) + seq![] =~= out@.map_values(|x: Input| x@));
    Ok(out)
}

impl SpecDoc {
    /// Read the fields of a spec document.
    pub fn from_json(v: &Json) -> (r: Result<SpecDoc, Error>)
        ensures
            match doc_of(v@) {
                Ok(d) => r is Ok && r->Ok_0@ == d,
                Err(e) => r is Err && r->Err_0@ == e,
            },
    {
        if !matches!(v, Json::Object(_)) {
            return Err(Error::NotAnObject);
        }
        let uses = match v.get("use") {
            None | Some(Json::Null) => Vec::new(),
            Some(u) => match texts_in(u) {
                Some(ts) => ts,
                None => {
                    return Err(Error::BadField(String::from_str("use")));
                },
            },
        };
        let inputs = match v.get("input") {
            None | Some(Json::Null) => Vec::new(),
            Some(Json::Array(items)) => match inputs_in(items) {
                Ok(ins) => ins,
                Err(e) => {
                    return Err(e);
                },
            },
            Some(_) => {
                return Err(Error::BadField(String::from_str("input")));
            },
        };
        let output = match v.get("output") {
            None | Some(Json::Null) => None,
            Some(o) => Some(o.duplicate()),
        };
        let r = SpecDoc { uses, inputs, output };
        proof {
            if r.uses@.len() == 0 {
                assert(r@.uses =~= seq![]);
            }
            if r.inputs@.len() == 0 {
                assert(r@.inputs =~= seq![]);
            }
        }
        Ok(r)
    }
}

impl Transformer {
    /// Merge another spec into this one: take its output, refused if this
    /// spec has one already, then declare each of its inputs as `add_input`
    /// does, stopping at the first refusal.
    pub fn merge(&mut self, other: &Transformer) -> (r: Result<(), Error>)
        requires
            old(self).wf(),
            other.wf(),
        ensures
            final(self).wf(),
            merge_model(old(self)@, other@) == (final(self)@, outcome(r)),
    {
        match &other.output {
            Some(out) => {
                match self.add_output(out.duplicate()) {
                    Ok(()) => {},
                    Err(e) => {
                        return Err(e);
                    },
                }
            },
            None => {},
        }
        self.add_inputs(&other.inputs)
    }

    /// Declare each of `ins` in order, stopping at the first refusal.
    fn add_inputs(&mut self, ins: &Vec<Input>) -> (r: Result<(), Error>)
        requires
            old(self).wf(),
        ensures
            final(self).wf(),
            add_inputs_from(old(self)@, ins@.map_values(|i: Input| i@), 0) == (final(self)@, outcome(r)),
    {
        let ghost im = ins@.map_values(|i: Input| i@);
        let mut i: usize = 0;
        while i < ins.len()
            invariant
                self.wf(),
                im == ins@.map_values(|i: Input| i@),
                i <= ins@.len(),
                add_inputs_from(old(self)@, im, 0) == add_inputs_from(self@, im, i as int),
            decreases ins.len() - i,
        {
            match self.add_input(ins[i].duplicate()) {
                Ok(()) => {},
                Err(e) => {
                    return Err(e);
                },
            }
            i = i + 1;
        }
        Ok(())
    }

    /// The spec that a document describes, given the specs it uses, loaded
    /// in the order of its `use` list.
    pub fn new(doc: &SpecDoc, used: &Vec<Transformer>) -> (r: Result<Transformer, Error>)
        requires
            forall|i: int| 0 <= i < used@.len() ==> (#[trigger] used@[i]).wf(),
        ensures
            match new_model(doc@, used@.map_values(|t: Transformer| t@)) {
                Ok(t) => r is Ok && r->Ok_0@ == t && r->Ok_0.wf(),
                Err(e) => r is Err && r->Err_0@ == e,
            },
    {
        let ghost um = used@.map_values(|t: Transformer| t@);
        let mut t = Transformer::empty();
        t.output = match &doc.output {
            Some(o) => Some(o.duplicate()),
            None => None,
        };
        assert(t@ == TransformerModel { inputs: seq![], output: doc@.output });
        let mut i: usize = 0;
        while i < used.len()
            invariant
                t.wf(),
                um == used@.map_values(|t: Transformer| t@),
                forall|k: int| 0 <= k < used@.len() ==> (#[trigger] used@[k]).wf(),
                i <= used@.len(),
                merge_all_from(TransformerModel { inputs: seq![], output: doc@.output }, um, 0)
                    == merge_all_from(t@, um, i as int),
            decreases used.len() - i,
        {
            match t.merge(&used[i]) {
                Ok(()) => {},
                Err(e) => {
                    return Err(e);
                },
            }
            i = i + 1;
        }
        match t.add_inputs(&doc.inputs) {
            Ok(()) => Ok(t),
            Err(e) => Err(e),
        }
    }

    /// The output template, if one was given.
    pub fn output(&self) -> (r: &Option<Json>)
        ensures
            option_view(*r) == self@.output,
    {
        &self.output
    }
}

proof fn lemma_find_none(inputs: Seq<InputModel>, name: Seq<char>, k: int, i: int)
    requires
        0 <= k <= i < inputs.len(),
        find_from(inputs, name, k) is None,
    ensures
        inputs[i].name != name,
    decreases i - k,
{
    if k < i {
        lemma_find_none(inputs, name, k + 1, i);
    }
}

} // verus!
