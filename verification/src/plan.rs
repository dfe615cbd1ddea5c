//! Plans for building engine values.
//!
//! An engine value is built by a plan: a list of steps for a small stack
//! machine. A step either pushes a value, checks the value on top, or
//! stores the value on top into the container below it. The plan of a value
//! is balanced: it never asks for a value that is not there, and it leaves
//! exactly the built value behind.
use vstd::prelude::*;
use crate::engine::{
    engine_props_view, engine_values_view, lemma_engine_props_view, lemma_engine_values_view,
    BigIntModel, EngineBigInt, EngineModel, EngineValue, Payload, RawValue,
};
use crate::marshal::{find_zero, first_zero};
use crate::tag::{
    TAG_BIG_INT, TAG_BOOL, TAG_FLOAT64, TAG_INT, TAG_NULL, TAG_OBJECT, TAG_STRING, TAG_UNDEFINED,
};
use crate::value::{ValueError, ValueErrorModel};

verus! {

/// Why a step failed.
#[derive(PartialEq, Eq, Clone, Copy, Debug, Structural)]
pub enum Fault {
    CreateString,
    CreateArray,
    CreateObject,
    AppendElement,
    AddProperty,
    ConstructDate,
    BigIntString,
    ConstructBigInt,
    /// The plan asks for a value that is not on the stack, or leaves more
    /// than its result behind, or the engine's answer is of the wrong kind.
    Malformed,
}

impl Fault {
    /// What the fault says.
    pub open spec fn text(self) -> Seq<char> {
        match self {
            Fault::CreateString => "Could not create string in runtime"@,
            Fault::CreateArray => "Could not create array in runtime"@,
            Fault::CreateObject => "Could not create object"@,
            Fault::AppendElement => "Could not append element to array"@,
            Fault::AddProperty => "Could not add add property to object"@,
            Fault::ConstructDate => "Could not construct Date object"@,
            Fault::BigIntString =>
                "Could not construct String object needed to create BigInt object"@,
            Fault::ConstructBigInt => "Could not construct BigInt object"@,
            Fault::Malformed => "Could not follow the plan for the value"@,
        }
    }

    /// The conversion error for the fault.
    pub fn error(self) -> (e: ValueError)
        ensures
            e@ == ValueErrorModel::Internal(self.text()),
    {
        let msg = match self {
            Fault::CreateString => "Could not create string in runtime",
            Fault::CreateArray => "Could not create array in runtime",
            Fault::CreateObject => "Could not create object",
            Fault::AppendElement => "Could not append element to array",
            Fault::AddProperty => "Could not add add property to object",
            Fault::ConstructDate => "Could not construct Date object",
            Fault::BigIntString =>
                "Could not construct String object needed to create BigInt object",
            Fault::ConstructBigInt => "Could not construct BigInt object",
            Fault::Malformed => "Could not follow the plan for the value",
        };
        ValueError::Internal(String::from_str(msg))
    }
}

/// One step of a plan.
#[derive(PartialEq, Eq, Debug)]
pub enum Step {
    /// Push a scalar. The engine is not asked.
    Scalar(RawValue),
    /// Ask for a string of the given bytes and push it.
    NewString(Vec<u8>),
    /// Ask for an empty array and push it.
    NewArray,
    /// Ask for an empty object and push it.
    NewObject,
    /// Ask for a BigInt of 64 bits and push it.
    NewBigInt64(i64),
    /// Ask for a date of the given time in milliseconds and push it.
    NewDate(i64),
    /// Ask for one more unit of a value's reference count and push the
    /// value.
    Retain(RawValue),
    /// Ask for a call of the global function of the given name on the value
    /// on top, and push what it returns. The argument stays.
    CallGlobal(Vec<u8>),
    /// Ask to free the value below the top, and take it off the stack.
    DropSecond,
    /// Fail if the value on top is the marker of an exception.
    RejectException(Fault),
    /// Fail if the value on top does not have the given tag.
    ExpectTag(i64, Fault),
    /// Take the value off the top and ask to store it at the given index of
    /// the array below it. The engine owns the value from then on.
    StoreIndex(u32),
    /// Take the value off the top and ask to store it under the given name
    /// in the object below it. The engine owns the value from then on.
    StoreKey(Vec<u8>),
}

/// The mathematical model of a step.
pub enum StepModel {
    Scalar(RawValue),
    NewString(Seq<u8>),
    NewArray,
    NewObject,
    NewBigInt64(int),
    NewDate(int),
    Retain(RawValue),
    CallGlobal(Seq<u8>),
    DropSecond,
    RejectException(Fault),
    ExpectTag(int, Fault),
    StoreIndex(nat),
    StoreKey(Seq<u8>),
}

impl View for Step {
    type V = StepModel;

    open spec fn view(&self) -> StepModel {
        match self {
            Step::Scalar(raw) => StepModel::Scalar(*raw),
            Step::NewString(bytes) => StepModel::NewString(bytes@),
            Step::NewArray => StepModel::NewArray,
            Step::NewObject => StepModel::NewObject,
            Step::NewBigInt64(n) => StepModel::NewBigInt64(*n as int),
            Step::NewDate(ms) => StepModel::NewDate(*ms as int),
            Step::Retain(raw) => StepModel::Retain(*raw),
            Step::CallGlobal(name) => StepModel::CallGlobal(name@),
            Step::DropSecond => StepModel::DropSecond,
            Step::RejectException(fault) => StepModel::RejectException(*fault),
            Step::ExpectTag(tag, fault) => StepModel::ExpectTag(*tag as int, *fault),
            Step::StoreIndex(index) => StepModel::StoreIndex(*index as nat),
            Step::StoreKey(key) => StepModel::StoreKey(key@),
        }
    }
}

/// The models of a sequence of steps.
pub open spec fn steps_view(steps: Seq<Step>) -> Seq<StepModel> {
    Seq::new(steps.len(), |i: int| steps[i]@)
}

/// A copy of some bytes.
pub fn copy_bytes(bytes: &Vec<u8>) -> (copy: Vec<u8>)
    ensures
        copy@ == bytes@,
{
    let mut copy: Vec<u8> = Vec::new();
    let mut i: usize = 0;
    while i < bytes.len()
        invariant
            i <= bytes@.len(),
            copy@ == bytes@.take(i as int),
        decreases bytes@.len() - i,
    {
        copy.push(bytes[i]);
        assert(bytes@.take(i as int).push(bytes@[i as int]) =~= bytes@.take(i + 1));
        i += 1;
    }
    assert(bytes@.take(bytes@.len() as int) =~= bytes@);
    copy
}

/// The bytes of the name `BigInt`.
pub open spec fn bigint_name() -> Seq<u8> {
    seq![66u8, 105u8, 103u8, 73u8, 110u8, 116u8]
}

/// The steps that store the elements of an array from `start` on, after the
/// steps in `done`.
pub open spec fn planned_items(items: Seq<EngineModel>, start: int, done: Seq<StepModel>) -> Result<
    Seq<StepModel>,
    ValueErrorModel,
>
    decreases items, items.len() - start,
{
    if start < 0 || start >= items.len() {
        Ok(done)
    } else if start > u32::MAX {
        Err(ValueErrorModel::Internal(Fault::AppendElement.text()))
    } else {
        match planned(items[start]) {
            Err(e) => Err(e),
            Ok(steps) => planned_items(
                items,
                start + 1,
                done + steps + seq![StepModel::StoreIndex(start as nat)],
            ),
        }
    }
}

/// The steps that store the properties of an object from `start` on, after
/// the steps in `done`. A name must be a string without a zero byte.
pub open spec fn planned_props(
    props: Seq<(EngineModel, EngineModel)>,
    start: int,
    done: Seq<StepModel>,
) -> Result<Seq<StepModel>, ValueErrorModel>
    decreases props, props.len() - start,
{
    if start < 0 || start >= props.len() {
        Ok(done)
    } else {
        match props[start].0 {
            EngineModel::String(Some(name)) => if first_zero(name) < name.len() {
                Err(ValueErrorModel::StringWithZeroBytes(first_zero(name) as nat))
            } else {
                match planned(props[start].1) {
                    Err(e) => Err(e),
                    Ok(steps) => planned_props(
                        props,
                        start + 1,
                        done + steps + seq![StepModel::StoreKey(name)],
                    ),
                }
            },
            _ => Err(ValueErrorModel::UnexpectedType),
        }
    }
}

/// The plan that builds an engine value. Values that only the engine can
/// report, such as the marker of an exception, have no plan.
pub open spec fn planned(v: EngineModel) -> Result<Seq<StepModel>, ValueErrorModel>
    decreases v, 0int,
{
    match v {
        EngineModel::Undefined => Ok(
            seq![StepModel::Scalar(RawValue { u: Payload::Int32(0), tag: TAG_UNDEFINED })],
        ),
        EngineModel::Null => Ok(
            seq![StepModel::Scalar(RawValue { u: Payload::Int32(0), tag: TAG_NULL })],
        ),
        EngineModel::Bool(raw) => Ok(
            seq![StepModel::Scalar(RawValue { u: Payload::Int32(raw as i32), tag: TAG_BOOL })],
        ),
        EngineModel::Int(n) => Ok(
            seq![StepModel::Scalar(RawValue { u: Payload::Int32(n as i32), tag: TAG_INT })],
        ),
        EngineModel::Float64(bits) => Ok(
            seq![StepModel::Scalar(RawValue { u: Payload::Float64(bits), tag: TAG_FLOAT64 })],
        ),
        EngineModel::String(Some(bytes)) => Ok(
            seq![StepModel::NewString(bytes), StepModel::RejectException(Fault::CreateString)],
        ),
        EngineModel::Array(items) => planned_items(
            items,
            0,
            seq![StepModel::NewArray, StepModel::RejectException(Fault::CreateArray)],
        ),
        EngineModel::Object(Some(props)) => planned_props(
            props,
            0,
            seq![StepModel::NewObject, StepModel::RejectException(Fault::CreateObject)],
        ),
        EngineModel::Function(raw) => Ok(seq![StepModel::Retain(raw)]),
        EngineModel::Date(Some(ms)) => Ok(
            seq![
                StepModel::NewDate(ms),
                StepModel::ExpectTag(TAG_OBJECT as int, Fault::ConstructDate),
            ],
        ),
        EngineModel::BigInt(BigIntModel::Small(n)) => Ok(seq![StepModel::NewBigInt64(n)]),
        EngineModel::BigInt(BigIntModel::Text(Some(bytes))) => Ok(
            seq![
                StepModel::NewString(bytes),
                StepModel::ExpectTag(TAG_STRING as int, Fault::BigIntString),
                StepModel::CallGlobal(bigint_name()),
                StepModel::DropSecond,
                StepModel::ExpectTag(TAG_BIG_INT as int, Fault::ConstructBigInt),
            ],
        ),
        _ => Err(ValueErrorModel::UnexpectedType),
    }
}

/// The model of the outcome of planning.
pub open spec fn plan_outcome(r: Result<Vec<Step>, ValueError>) -> Result<
    Seq<StepModel>,
    ValueErrorModel,
> {
    match r {
        Ok(steps) => Ok(steps_view(steps@)),
        Err(e) => Err(e@),
    }
}

/// Moves the steps of `more` to the end of `done`, and one last step after
/// them.
fn append_steps(done: &mut Vec<Step>, more: Vec<Step>, last: Step)
    ensures
        steps_view(final(done)@) == steps_view(old(done)@) + steps_view(more@) + seq![last@],
{
    let ghost moved = more@;
    let mut more = more;
    done.append(&mut more);
    done.push(last);
    assert(steps_view(done@) =~= steps_view(old(done)@) + steps_view(moved) + seq![last@]);
}

/// Makes the plan that builds an engine value.
pub fn plan_value(value: &EngineValue) -> (r: Result<Vec<Step>, ValueError>)
    ensures
        plan_outcome(r) == planned(value@),
    decreases value,
{
    let mut steps: Vec<Step> = Vec::new();
    match value {
        EngineValue::Undefined => {
            steps.push(Step::Scalar(RawValue::undefined()));
        },
        EngineValue::Null => {
            steps.push(Step::Scalar(crate::engine::js_null_value()));
        },
        EngineValue::Bool(raw) => {
            steps.push(Step::Scalar(RawValue { u: Payload::Int32(*raw), tag: TAG_BOOL }));
        },
        EngineValue::Int(n) => {
            steps.push(Step::Scalar(RawValue::int32(*n)));
        },
        EngineValue::Float64(bits) => {
            steps.push(Step::Scalar(RawValue::float64(*bits)));
        },
        EngineValue::String(Some(bytes)) => {
            steps.push(Step::NewString(copy_bytes(bytes)));
            steps.push(Step::RejectException(Fault::CreateString));
        },
        EngineValue::Array(items) => {
            steps.push(Step::NewArray);
            steps.push(Step::RejectException(Fault::CreateArray));
            assert(steps_view(steps@) =~= seq![
                StepModel::NewArray,
                StepModel::RejectException(Fault::CreateArray),
            ]);
            let mut index: usize = 0;
            while index < items.len()
                invariant
                    index <= items@.len(),
                    decreases_to!(value => items),
                    value@ == EngineModel::Array(engine_values_view(items@)),
                    planned(value@) == planned_items(
                        engine_values_view(items@),
                        index as int,
                        steps_view(steps@),
                    ),
                decreases items@.len() - index,
            {
                proof {
                    vstd::std_specs::vec::axiom_vec_index_decreases(*items, index as int);
                    lemma_engine_values_view(items@);
                }
                if index > u32::MAX as usize {
                    return Err(Fault::AppendElement.error());
                }
                match plan_value(&items[index]) {
                    Ok(more) => {
                        append_steps(&mut steps, more, Step::StoreIndex(index as u32));
                    },
                    Err(e) => {
                        return Err(e);
                    },
                }
                index += 1;
            }
            proof {
                lemma_engine_values_view(items@);
            }
        },
        EngineValue::Object(Some(props)) => {
            steps.push(Step::NewObject);
            steps.push(Step::RejectException(Fault::CreateObject));
            assert(steps_view(steps@) =~= seq![
                StepModel::NewObject,
                StepModel::RejectException(Fault::CreateObject),
            ]);
            let mut index: usize = 0;
            while index < props.len()
                invariant
                    index <= props@.len(),
                    decreases_to!(value => props),
                    value@ == EngineModel::Object(Some(engine_props_view(props@))),
                    planned(value@) == planned_props(
                        engine_props_view(props@),
                        index as int,
                        steps_view(steps@),
                    ),
                decreases props@.len() - index,
            {
                proof {
                    vstd::std_specs::vec::axiom_vec_index_decreases(*props, index as int);
                    lemma_engine_props_view(props@);
                }
                let name = match &props[index].key {
                    EngineValue::String(Some(name)) => name,
                    _ => {
                        return Err(ValueError::UnexpectedType);
                    },
                };
                let at = find_zero(name);
                if at < name.len() {
                    return Err(ValueError::StringWithZeroBytes(at));
                }
                match plan_value(&props[index].value) {
                    Ok(more) => {
                        append_steps(&mut steps, more, Step::StoreKey(copy_bytes(name)));
                    },
                    Err(e) => {
                        return Err(e);
                    },
                }
                index += 1;
            }
            proof {
                lemma_engine_props_view(props@);
            }
        },
        EngineValue::Function(raw) => {
            steps.push(Step::Retain(*raw));
        },
        EngineValue::Date(Some(ms)) => {
            steps.push(Step::NewDate(*ms));
            steps.push(Step::ExpectTag(TAG_OBJECT, Fault::ConstructDate));
        },
        EngineValue::BigInt(EngineBigInt::Small(n)) => {
            steps.push(Step::NewBigInt64(*n));
        },
        EngineValue::BigInt(EngineBigInt::Text(Some(bytes))) => {
            let name: Vec<u8> = vec![66u8, 105u8, 103u8, 73u8, 110u8, 116u8];
            assert(name@ =~= bigint_name());
            steps.push(Step::NewString(copy_bytes(bytes)));
            steps.push(Step::ExpectTag(TAG_STRING, Fault::BigIntString));
            steps.push(Step::CallGlobal(name));
            steps.push(Step::DropSecond);
            steps.push(Step::ExpectTag(TAG_BIG_INT, Fault::ConstructBigInt));
        },
        _ => {
            return Err(ValueError::UnexpectedType);
        },
    }
    proof {
        if planned(value@) is Ok && !(value@ is Array) && !(value@ is Object) {
            assert(steps_view(steps@) =~= planned(value@)->Ok_0);
        }
    }
    Ok(steps)
}

/// How many values a step takes for granted on the stack.
pub open spec fn needs(step: StepModel) -> int {
    match step {
        StepModel::CallGlobal(_) => 1,
        StepModel::RejectException(_) => 1,
        StepModel::ExpectTag(_, _) => 1,
        StepModel::DropSecond => 2,
        StepModel::StoreIndex(_) => 2,
        StepModel::StoreKey(_) => 2,
        _ => 0,
    }
}

/// By how much a step that succeeds changes the depth of the stack.
pub open spec fn change(step: StepModel) -> int {
    match step {
        StepModel::RejectException(_) => 0,
        StepModel::ExpectTag(_, _) => 0,
        StepModel::DropSecond => -1,
        StepModel::StoreIndex(_) => -1,
        StepModel::StoreKey(_) => -1,
        _ => 1,
    }
}

/// The depth of the stack after the steps have run on a stack of the given
/// depth and all have succeeded, or `None` where a step would find fewer
/// values than it takes for granted.
pub open spec fn depth_after(steps: Seq<StepModel>, depth: int) -> Option<int>
    decreases steps.len(),
{
    if steps.len() == 0 {
        Some(depth)
    } else {
        match depth_after(steps.drop_last(), depth) {
            None => None,
            Some(d) => if d >= needs(steps.last()) {
                Some(d + change(steps.last()))
            } else {
                None
            },
        }
    }
}

/// Whether a step is a check that blames the plan itself.
pub open spec fn blames_plan(step: StepModel) -> bool {
    match step {
        StepModel::RejectException(fault) => fault == Fault::Malformed,
        StepModel::ExpectTag(_, fault) => fault == Fault::Malformed,
        _ => false,
    }
}

/// Whether a plan is balanced: run from an empty stack, no step finds fewer
/// values than it takes for granted, one value is left at the end, and no
/// check blames the plan itself.
pub open spec fn balanced(steps: Seq<StepModel>) -> bool {
    &&& depth_after(steps, 0) == Some(1int)
    &&& forall|i: int| 0 <= i < steps.len() ==> !blames_plan(#[trigger] steps[i])
}

/// The depth after two runs of steps, one after the other, is the depth
/// after the second run, begun where the first ended.
pub proof fn lemma_depth_after_concat(a: Seq<StepModel>, b: Seq<StepModel>, depth: int)
    ensures
        depth_after(a + b, depth) == (match depth_after(a, depth) {
            Some(d) => depth_after(b, d),
            None => None,
        }),
    decreases b.len(),
{
    if b.len() == 0 {
        assert(a + b =~= a);
    } else {
        assert((a + b).drop_last() =~= a + b.drop_last());
        assert((a + b).last() == b.last());
        lemma_depth_after_concat(a, b.drop_last(), depth);
    }
}

/// Where all steps can run, every beginning of them can.
pub proof fn lemma_depth_after_prefix(steps: Seq<StepModel>, depth: int, k: int)
    requires
        0 <= k <= steps.len(),
        depth_after(steps, depth).is_some(),
    ensures
        depth_after(steps.take(k), depth).is_some(),
    decreases steps.len(),
{
    if k == steps.len() {
        assert(steps.take(k) =~= steps);
    } else {
        assert(steps.drop_last().take(k) =~= steps.take(k));
        lemma_depth_after_prefix(steps.drop_last(), depth, k);
    }
}

/// The depth before a step is enough for the step, and the depth after it
/// is the depth before it with the step's change.
pub proof fn lemma_depth_after_step(steps: Seq<StepModel>, depth: int, k: int)
    requires
        0 <= k < steps.len(),
        depth_after(steps, depth).is_some(),
    ensures
        depth_after(steps.take(k), depth).is_some(),
        depth_after(steps.take(k), depth).unwrap() >= needs(steps[k]),
        depth_after(steps.take(k + 1), depth) == Some(
            depth_after(steps.take(k), depth).unwrap() + change(steps[k]),
        ),
{
    lemma_depth_after_prefix(steps, depth, k + 1);
    assert(steps.take(k + 1).drop_last() =~= steps.take(k));
    assert(steps.take(k + 1).last() == steps[k]);
}

/// The steps for the elements of an array leave the array on the stack and
/// nothing else, where the steps before them do.
proof fn lemma_planned_items_balanced(
    items: Seq<EngineModel>,
    start: int,
    done: Seq<StepModel>,
    depth: int,
)
    requires
        0 <= start <= items.len(),
        depth >= 0,
        depth_after(done, depth) == Some(depth + 1),
        forall|i: int| 0 <= i < done.len() ==> !blames_plan(#[trigger] done[i]),
    ensures
        planned_items(items, start, done) matches Ok(steps) ==> depth_after(steps, depth) == Some(
            depth + 1,
        ) && forall|i: int| 0 <= i < steps.len() ==> !blames_plan(#[trigger] steps[i]),
    decreases items, items.len() - start,
{
    if start < items.len() && start <= u32::MAX {
        lemma_plan_is_balanced(items[start], depth + 1);
        match planned(items[start]) {
            Ok(more) => {
                let store = seq![StepModel::StoreIndex(start as nat)];
                let next = done + more + store;
                lemma_depth_after_concat(done, more, depth);
                lemma_depth_after_concat(done + more, store, depth);
                assert(store.drop_last() =~= Seq::<StepModel>::empty());
                assert(depth_after(store.drop_last(), depth + 2) == Some(depth + 2));
                assert(depth_after(store, depth + 2) == Some(depth + 1));
                assert forall|i: int| 0 <= i < next.len() implies !blames_plan(
                    #[trigger] next[i],
                ) by {
                    if i < done.len() {
                        assert(next[i] == done[i]);
                    } else if i < done.len() + more.len() {
                        assert(next[i] == more[i - done.len()]);
                    }
                }
                lemma_planned_items_balanced(items, start + 1, next, depth);
            },
            Err(_) => {},
        }
    }
}

/// The steps for the properties of an object leave the object on the stack
/// and nothing else, where the steps before them do.
proof fn lemma_planned_props_balanced(
    props: Seq<(EngineModel, EngineModel)>,
    start: int,
    done: Seq<StepModel>,
    depth: int,
)
    requires
        0 <= start <= props.len(),
        depth >= 0,
        depth_after(done, depth) == Some(depth + 1),
        forall|i: int| 0 <= i < done.len() ==> !blames_plan(#[trigger] done[i]),
    ensures
        planned_props(props, start, done) matches Ok(steps) ==> depth_after(steps, depth) == Some(
            depth + 1,
        ) && forall|i: int| 0 <= i < steps.len() ==> !blames_plan(#[trigger] steps[i]),
    decreases props, props.len() - start,
{
    if start < props.len() {
        match props[start].0 {
            EngineModel::String(Some(name)) => {
                if first_zero(name) >= name.len() {
                    lemma_plan_is_balanced(props[start].1, depth + 1);
                    match planned(props[start].1) {
                        Ok(more) => {
                            let store = seq![StepModel::StoreKey(name)];
                            let next = done + more + store;
                            lemma_depth_after_concat(done, more, depth);
                            lemma_depth_after_concat(done + more, store, depth);
                            assert(store.drop_last() =~= Seq::<StepModel>::empty());
                            assert(depth_after(store.drop_last(), depth + 2) == Some(depth + 2));
                            assert(depth_after(store, depth + 2) == Some(depth + 1));
                            assert forall|i: int| 0 <= i < next.len() implies !blames_plan(
                                #[trigger] next[i],
                            ) by {
                                if i < done.len() {
                                    assert(next[i] == done[i]);
                                } else if i < done.len() + more.len() {
                                    assert(next[i] == more[i - done.len()]);
                                }
                            }
                            lemma_planned_props_balanced(props, start + 1, next, depth);
                        },
                        Err(_) => {},
                    }
                }
            },
            _ => {},
        }
    }
}

/// The depth after one more step is the depth before it with the step's
/// change, where the step finds what it takes for granted.
pub proof fn lemma_depth_after_push(steps: Seq<StepModel>, step: StepModel, depth: int)
    ensures
        depth_after(steps.push(step), depth) == (match depth_after(steps, depth) {
            None => None,
            Some(d) => if d >= needs(step) {
                Some(d + change(step))
            } else {
                None
            },
        }),
{
    assert(steps.push(step).drop_last() =~= steps);
}

/// A plan of one step that pushes a value adds one value to the stack.
proof fn lemma_single_step_is_balanced(step: StepModel, depth: int)
    requires
        needs(step) == 0,
        change(step) == 1,
        depth >= 0,
    ensures
        depth_after(seq![step], depth) == Some(depth + 1),
{
    let none = Seq::<StepModel>::empty();
    assert(depth_after(none, depth) == Some(depth));
    lemma_depth_after_push(none, step, depth);
    assert(none.push(step) =~= seq![step]);
}

/// A plan of a step that pushes a value and a check of that value adds one
/// value to the stack.
proof fn lemma_checked_step_is_balanced(step: StepModel, check: StepModel, depth: int)
    requires
        needs(step) == 0,
        change(step) == 1,
        needs(check) == 1,
        change(check) == 0,
        depth >= 0,
    ensures
        depth_after(seq![step, check], depth) == Some(depth + 1),
{
    lemma_single_step_is_balanced(step, depth);
    lemma_depth_after_push(seq![step], check, depth);
    assert(seq![step].push(check) =~= seq![step, check]);
}

/// The plan of a BigInt that is built from its text adds one value to the
/// stack.
proof fn lemma_big_text_plan_is_balanced(bytes: Seq<u8>, depth: int)
    requires
        depth >= 0,
    ensures
        depth_after(
            seq![
                StepModel::NewString(bytes),
                StepModel::ExpectTag(TAG_STRING as int, Fault::BigIntString),
                StepModel::CallGlobal(bigint_name()),
                StepModel::DropSecond,
                StepModel::ExpectTag(TAG_BIG_INT as int, Fault::ConstructBigInt),
            ],
            depth,
        ) == Some(depth + 1),
{
    let a = StepModel::NewString(bytes);
    let b = StepModel::ExpectTag(TAG_STRING as int, Fault::BigIntString);
    let c = StepModel::CallGlobal(bigint_name());
    let d = StepModel::DropSecond;
    let e = StepModel::ExpectTag(TAG_BIG_INT as int, Fault::ConstructBigInt);
    lemma_checked_step_is_balanced(a, b, depth);
    lemma_depth_after_push(seq![a, b], c, depth);
    assert(seq![a, b].push(c) =~= seq![a, b, c]);
    lemma_depth_after_push(seq![a, b, c], d, depth);
    assert(seq![a, b, c].push(d) =~= seq![a, b, c, d]);
    lemma_depth_after_push(seq![a, b, c, d], e, depth);
    assert(seq![a, b, c, d].push(e) =~= seq![a, b, c, d, e]);
}

/// A plan adds one value to the stack, whatever the stack holds before it,
/// never finds fewer values than a step takes for granted, and holds no
/// check that blames the plan itself.
pub proof fn lemma_plan_is_balanced(v: EngineModel, depth: int)
    requires
        depth >= 0,
    ensures
        planned(v) matches Ok(steps) ==> depth_after(steps, depth) == Some(depth + 1) && forall|
            i: int,
        | 0 <= i < steps.len() ==> !blames_plan(#[trigger] steps[i]),
    decreases v, 0int,
{
    match v {
        EngineModel::Array(items) => {
            let head = seq![StepModel::NewArray, StepModel::RejectException(Fault::CreateArray)];
            lemma_checked_step_is_balanced(head[0], head[1], depth);
            assert(head =~= seq![head[0], head[1]]);
            lemma_planned_items_balanced(items, 0, head, depth);
        },
        EngineModel::Object(Some(props)) => {
            let head = seq![StepModel::NewObject, StepModel::RejectException(Fault::CreateObject)];
            lemma_checked_step_is_balanced(head[0], head[1], depth);
            assert(head =~= seq![head[0], head[1]]);
            lemma_planned_props_balanced(props, 0, head, depth);
        },
        EngineModel::String(Some(bytes)) => {
            lemma_checked_step_is_balanced(
                StepModel::NewString(bytes),
                StepModel::RejectException(Fault::CreateString),
                depth,
            );
        },
        EngineModel::Date(Some(ms)) => {
            lemma_checked_step_is_balanced(
                StepModel::NewDate(ms),
                StepModel::ExpectTag(TAG_OBJECT as int, Fault::ConstructDate),
                depth,
            );
        },
        EngineModel::BigInt(BigIntModel::Text(Some(bytes))) => {
            lemma_big_text_plan_is_balanced(bytes, depth);
        },
        _ => {
            match planned(v) {
                Ok(steps) => {
                    assert(steps.len() == 1);
                    lemma_single_step_is_balanced(steps[0], depth);
                    assert(steps =~= seq![steps[0]]);
                },
                Err(_) => {},
            }
        },
    }
}

/// The plan of a value is balanced.
pub proof fn lemma_planned_value_is_balanced(v: EngineModel)
    ensures
        planned(v) matches Ok(steps) ==> balanced(steps),
{
    lemma_plan_is_balanced(v, 0);
}

} // verus!
