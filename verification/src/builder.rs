//! Building an engine value, with rollback.
//!
//! The machine runs a plan. It asks the engine for one thing at a time and
//! is told the outcome. Every value the engine hands out is kept on the
//! stack until it is stored into its container, freed, or returned as the
//! result. When a step fails, the machine stops and names every value still
//! on its stack for release, the innermost container first: nothing that
//! was built so far stays behind.
use vstd::prelude::*;
use crate::engine::RawValue;
use crate::plan::{
    balanced, blames_plan, copy_bytes, depth_after, lemma_depth_after_step, steps_view, Fault,
    Step, StepModel,
};
use crate::tag::TAG_EXCEPTION;
use crate::value::{ValueError, ValueErrorModel};

verus! {

/// What the machine asks of the engine, or how it ended.
#[derive(PartialEq, Eq, Debug)]
pub enum Request {
    NewString(Vec<u8>),
    NewArray,
    NewObject,
    NewBigInt64(i64),
    NewDate(i64),
    Retain(RawValue),
    CallGlobal { name: Vec<u8>, arg: RawValue },
    Free(RawValue),
    DefineIndex { target: RawValue, index: u32, value: RawValue },
    DefineKey { target: RawValue, key: Vec<u8>, value: RawValue },
    /// The value is built.
    Done(RawValue),
    /// The value could not be built. The values named are to be freed, in
    /// the order given.
    Failed { release: Vec<RawValue>, error: ValueError },
}

/// The mathematical model of a request.
pub enum RequestModel {
    NewString(Seq<u8>),
    NewArray,
    NewObject,
    NewBigInt64(int),
    NewDate(int),
    Retain(RawValue),
    CallGlobal { name: Seq<u8>, arg: RawValue },
    Free(RawValue),
    DefineIndex { target: RawValue, index: nat, value: RawValue },
    DefineKey { target: RawValue, key: Seq<u8>, value: RawValue },
    Done(RawValue),
    Failed { release: Seq<RawValue>, fault: Fault },
}

/// Whether a request is the model's request. A failure carries the error of
/// its fault.
pub open spec fn request_is(request: Request, model: RequestModel) -> bool {
    match (request, model) {
        (Request::NewString(b), RequestModel::NewString(m)) => b@ == m,
        (Request::NewArray, RequestModel::NewArray) => true,
        (Request::NewObject, RequestModel::NewObject) => true,
        (Request::NewBigInt64(n), RequestModel::NewBigInt64(m)) => n == m,
        (Request::NewDate(n), RequestModel::NewDate(m)) => n == m,
        (Request::Retain(r), RequestModel::Retain(m)) => r == m,
        (
            Request::CallGlobal { name, arg },
            RequestModel::CallGlobal { name: m_name, arg: m_arg },
        ) => name@ == m_name && arg == m_arg,
        (Request::Free(r), RequestModel::Free(m)) => r == m,
        (
            Request::DefineIndex { target, index, value },
            RequestModel::DefineIndex { target: m_target, index: m_index, value: m_value },
        ) => target == m_target && index == m_index && value == m_value,
        (
            Request::DefineKey { target, key, value },
            RequestModel::DefineKey { target: m_target, key: m_key, value: m_value },
        ) => target == m_target && key@ == m_key && value == m_value,
        (Request::Done(r), RequestModel::Done(m)) => r == m,
        (Request::Failed { release, error }, RequestModel::Failed { release: m_release, fault }) =>
            release@ == m_release && error@ == ValueErrorModel::Internal(fault.text()),
        _ => false,
    }
}

/// What the engine answers.
#[derive(PartialEq, Eq, Clone, Copy, Debug, Structural)]
pub enum Reply {
    /// Nothing to report: the answer to a request to free, and what the
    /// machine is started with.
    Nothing,
    /// The value that was asked for.
    Value(RawValue),
    /// The status of a store: negative where it failed.
    Status(i32),
}

/// The mathematical model of the machine.
pub struct BuilderModel {
    pub steps: Seq<StepModel>,
    /// The step that comes next, or the step whose answer is awaited.
    pub pc: nat,
    /// The values that the engine handed out and the machine still holds.
    pub stack: Seq<RawValue>,
    /// Whether the answer to the request of step `pc` is awaited.
    pub waiting: bool,
    pub finished: bool,
}

/// The machine gives up: everything on the stack is named for release, the
/// top first.
pub open spec fn give_up(s: BuilderModel, fault: Fault) -> (BuilderModel, RequestModel) {
    (
        BuilderModel { stack: Seq::empty(), waiting: false, finished: true, ..s },
        RequestModel::Failed { release: s.stack.reverse(), fault },
    )
}

/// The machine waits for the answer to the request of step `pc`.
pub open spec fn ask(s: BuilderModel, request: RequestModel) -> (BuilderModel, RequestModel) {
    (BuilderModel { waiting: true, ..s }, request)
}

/// Runs the steps that need no answer, up to the next request or the end.
pub open spec fn settle(s: BuilderModel) -> (BuilderModel, RequestModel)
    decreases s.steps.len() - s.pc,
{
    let depth = s.stack.len() as int;
    if s.pc >= s.steps.len() {
        if depth == 1 {
            (
                BuilderModel { stack: Seq::empty(), waiting: false, finished: true, ..s },
                RequestModel::Done(s.stack[0]),
            )
        } else {
            give_up(s, Fault::Malformed)
        }
    } else {
        match s.steps[s.pc as int] {
            StepModel::Scalar(raw) => settle(
                BuilderModel { stack: s.stack.push(raw), pc: s.pc + 1, ..s },
            ),
            StepModel::RejectException(fault) => if depth == 0 {
                give_up(s, Fault::Malformed)
            } else if s.stack.last().tag == TAG_EXCEPTION {
                give_up(s, fault)
            } else {
                settle(BuilderModel { pc: s.pc + 1, ..s })
            },
            StepModel::ExpectTag(tag, fault) => if depth == 0 {
                give_up(s, Fault::Malformed)
            } else if s.stack.last().tag != tag {
                give_up(s, fault)
            } else {
                settle(BuilderModel { pc: s.pc + 1, ..s })
            },
            StepModel::NewString(bytes) => ask(s, RequestModel::NewString(bytes)),
            StepModel::NewArray => ask(s, RequestModel::NewArray),
            StepModel::NewObject => ask(s, RequestModel::NewObject),
            StepModel::NewBigInt64(n) => ask(s, RequestModel::NewBigInt64(n)),
            StepModel::NewDate(ms) => ask(s, RequestModel::NewDate(ms)),
            StepModel::Retain(raw) => ask(s, RequestModel::Retain(raw)),
            StepModel::CallGlobal(name) => if depth == 0 {
                give_up(s, Fault::Malformed)
            } else {
                ask(s, RequestModel::CallGlobal { name, arg: s.stack.last() })
            },
            StepModel::DropSecond => if depth < 2 {
                give_up(s, Fault::Malformed)
            } else {
                ask(
                    BuilderModel { stack: s.stack.remove(depth - 2), ..s },
                    RequestModel::Free(s.stack[depth - 2]),
                )
            },
            StepModel::StoreIndex(index) => if depth < 2 {
                give_up(s, Fault::Malformed)
            } else {
                ask(
                    BuilderModel { stack: s.stack.drop_last(), ..s },
                    RequestModel::DefineIndex {
                        target: s.stack[depth - 2],
                        index,
                        value: s.stack.last(),
                    },
                )
            },
            StepModel::StoreKey(key) => if depth < 2 {
                give_up(s, Fault::Malformed)
            } else {
                ask(
                    BuilderModel { stack: s.stack.drop_last(), ..s },
                    RequestModel::DefineKey {
                        target: s.stack[depth - 2],
                        key,
                        value: s.stack.last(),
                    },
                )
            },
        }
    }
}

/// Whether a step asks the engine for a value.
pub open spec fn asks_for_value(step: StepModel) -> bool {
    step is NewString || step is NewArray || step is NewObject || step is NewBigInt64
        || step is NewDate || step is Retain || step is CallGlobal
}

/// What the machine does when the engine answers: the next state, and the
/// next request.
pub open spec fn resume(s: BuilderModel, reply: Reply) -> (BuilderModel, RequestModel) {
    if s.finished {
        give_up(s, Fault::Malformed)
    } else if !s.waiting {
        settle(s)
    } else if s.pc >= s.steps.len() {
        give_up(s, Fault::Malformed)
    } else {
        let step = s.steps[s.pc as int];
        let next = BuilderModel { pc: s.pc + 1, waiting: false, ..s };
        match reply {
            Reply::Value(raw) => if asks_for_value(step) {
                settle(BuilderModel { stack: s.stack.push(raw), ..next })
            } else {
                give_up(s, Fault::Malformed)
            },
            Reply::Nothing => if step is DropSecond {
                settle(next)
            } else {
                give_up(s, Fault::Malformed)
            },
            Reply::Status(status) => match step {
                StepModel::StoreIndex(_) => if status < 0 {
                    give_up(s, Fault::AppendElement)
                } else {
                    settle(next)
                },
                StepModel::StoreKey(_) => if status < 0 {
                    give_up(s, Fault::AddProperty)
                } else {
                    settle(next)
                },
                _ => give_up(s, Fault::Malformed),
            },
        }
    }
}

/// The stack machine that builds an engine value.
pub struct Builder {
    steps: Vec<Step>,
    pc: usize,
    stack: Vec<RawValue>,
    waiting: bool,
    finished: bool,
}

impl View for Builder {
    type V = BuilderModel;

    closed spec fn view(&self) -> BuilderModel {
        BuilderModel {
            steps: steps_view(self.steps@),
            pc: self.pc as nat,
            stack: self.stack@,
            waiting: self.waiting,
            finished: self.finished,
        }
    }
}

impl Builder {
    /// A machine that is about to run the given plan.
    pub fn new(steps: Vec<Step>) -> (b: Self)
        ensures
            b@ == (BuilderModel {
                steps: steps_view(steps@),
                pc: 0,
                stack: Seq::empty(),
                waiting: false,
                finished: false,
            }),
    {
        Builder { steps, pc: 0, stack: Vec::new(), waiting: false, finished: false }
    }

    /// Whether the machine has ended.
    pub fn is_finished(&self) -> (done: bool)
        ensures
            done == self@.finished,
    {
        self.finished
    }

    /// The values that the machine holds at the moment.
    pub fn held(&self) -> (values: &Vec<RawValue>)
        ensures
            values@ == self@.stack,
    {
        &self.stack
    }

    /// Ends the machine with a failure: the stack is emptied, and what was
    /// on it is named for release, the top first.
    fn fail(&mut self, fault: Fault) -> (request: Request)
        ensures
            request_is(request, give_up(old(self)@, fault).1),
            final(self)@ == give_up(old(self)@, fault).0,
    {
        let mut release: Vec<RawValue> = Vec::new();
        let ghost held = self.stack@;
        while self.stack.len() > 0
            invariant
                self.steps == old(self).steps,
                self.pc == old(self).pc,
                self.stack@.len() <= held.len(),
                self.stack@ == held.take(self.stack@.len() as int),
                release@ == held.subrange(self.stack@.len() as int, held.len() as int).reverse(),
            decreases self.stack@.len(),
        {
            let ghost before = self.stack@;
            let top = self.stack.pop().unwrap();
            release.push(top);
            proof {
                let n = self.stack@.len() as int;
                assert(self.stack@ =~= held.take(n));
                assert(top == held[n]);
                assert(held.subrange(n, held.len() as int).reverse() =~= held.subrange(
                    n + 1,
                    held.len() as int,
                ).reverse().push(held[n]));
            }
        }
        self.waiting = false;
        self.finished = true;
        proof {
            assert(held.subrange(0, held.len() as int) =~= held);
            assert(self.stack@ =~= Seq::empty());
        }
        Request::Failed { release, error: fault.error() }
    }

    /// Runs the steps that need no answer, up to the next request or the
    /// end.
    fn run(&mut self) -> (request: Request)
        requires
            !old(self)@.finished,
            !old(self)@.waiting,
        ensures
            request_is(request, settle(old(self)@).1),
            final(self)@ == settle(old(self)@).0,
    {
        loop
            invariant
                !self.finished,
                !self.waiting,
                self.steps == old(self).steps,
                settle(self@) == settle(old(self)@),
            decreases self.steps@.len() - self.pc,
        {
            let depth = self.stack.len();
            if self.pc >= self.steps.len() {
                if depth == 1 {
                    let result = self.stack.pop().unwrap();
                    self.finished = true;
                    assert(self.stack@ =~= Seq::empty());
                    return Request::Done(result);
                }
                return self.fail(Fault::Malformed);
            }
            match &self.steps[self.pc] {
                Step::Scalar(raw) => {
                    self.stack.push(*raw);
                    self.pc = self.pc + 1;
                },
                Step::RejectException(fault) => {
                    let fault = *fault;
                    if depth == 0 {
                        return self.fail(Fault::Malformed);
                    }
                    if self.stack[depth - 1].tag == TAG_EXCEPTION {
                        return self.fail(fault);
                    }
                    self.pc = self.pc + 1;
                },
                Step::ExpectTag(tag, fault) => {
                    let fault = *fault;
                    let tag = *tag;
                    if depth == 0 {
                        return self.fail(Fault::Malformed);
                    }
                    if self.stack[depth - 1].tag != tag {
                        return self.fail(fault);
                    }
                    self.pc = self.pc + 1;
                },
                Step::NewString(bytes) => {
                    let request = Request::NewString(copy_bytes(bytes));
                    self.waiting = true;
                    return request;
                },
                Step::NewArray => {
                    self.waiting = true;
                    return Request::NewArray;
                },
                Step::NewObject => {
                    self.waiting = true;
                    return Request::NewObject;
                },
                Step::NewBigInt64(n) => {
                    let request = Request::NewBigInt64(*n);
                    self.waiting = true;
                    return request;
                },
                Step::NewDate(ms) => {
                    let request = Request::NewDate(*ms);
                    self.waiting = true;
                    return request;
                },
                Step::Retain(raw) => {
                    let request = Request::Retain(*raw);
                    self.waiting = true;
                    return request;
                },
                Step::CallGlobal(name) => {
                    if depth == 0 {
                        return self.fail(Fault::Malformed);
                    }
                    let request = Request::CallGlobal {
                        name: copy_bytes(name),
                        arg: self.stack[depth - 1],
                    };
                    self.waiting = true;
                    return request;
                },
                Step::DropSecond => {
                    if depth < 2 {
                        return self.fail(Fault::Malformed);
                    }
                    let second = self.stack.remove(depth - 2);
                    self.waiting = true;
                    return Request::Free(second);
                },
                Step::StoreIndex(index) => {
                    let index = *index;
                    if depth < 2 {
                        return self.fail(Fault::Malformed);
                    }
                    let value = self.stack.pop().unwrap();
                    let target = self.stack[depth - 2];
                    self.waiting = true;
                    return Request::DefineIndex { target, index, value };
                },
                Step::StoreKey(key) => {
                    if depth < 2 {
                        return self.fail(Fault::Malformed);
                    }
                    let key = copy_bytes(key);
                    let value = self.stack.pop().unwrap();
                    let target = self.stack[depth - 2];
                    self.waiting = true;
                    return Request::DefineKey { target, key, value };
                },
            }
        }
    }

    /// Takes the engine's answer to the last request and says what to ask
    /// next. A machine that was just made is started with `Reply::Nothing`.
    pub fn advance(&mut self, reply: Reply) -> (request: Request)
        ensures
            request_is(request, resume(old(self)@, reply).1),
            final(self)@ == resume(old(self)@, reply).0,
    {
        if self.finished {
            return self.fail(Fault::Malformed);
        }
        if !self.waiting {
            return self.run();
        }
        if self.pc >= self.steps.len() {
            return self.fail(Fault::Malformed);
        }
        match reply {
            Reply::Value(raw) => {
                let wanted = match &self.steps[self.pc] {
                    Step::NewString(_) => true,
                    Step::NewArray => true,
                    Step::NewObject => true,
                    Step::NewBigInt64(_) => true,
                    Step::NewDate(_) => true,
                    Step::Retain(_) => true,
                    Step::CallGlobal(_) => true,
                    _ => false,
                };
                if !wanted {
                    return self.fail(Fault::Malformed);
                }
                self.stack.push(raw);
                self.pc = self.pc + 1;
                self.waiting = false;
                self.run()
            },
            Reply::Nothing => {
                let wanted = match &self.steps[self.pc] {
                    Step::DropSecond => true,
                    _ => false,
                };
                if !wanted {
                    return self.fail(Fault::Malformed);
                }
                self.pc = self.pc + 1;
                self.waiting = false;
                self.run()
            },
            Reply::Status(status) => {
                let fault = match &self.steps[self.pc] {
                    Step::StoreIndex(_) => Fault::AppendElement,
                    Step::StoreKey(_) => Fault::AddProperty,
                    _ => {
                        return self.fail(Fault::Malformed);
                    },
                };
                if status < 0 {
                    return self.fail(fault);
                }
                self.pc = self.pc + 1;
                self.waiting = false;
                self.run()
            },
        }
    }
}

/// The values that a request hands over: to the engine as its own, to be
/// freed, or to the caller as the result.
pub open spec fn handed_over(request: RequestModel) -> Seq<RawValue> {
    match request {
        RequestModel::Free(raw) => seq![raw],
        RequestModel::DefineIndex { value, .. } => seq![value],
        RequestModel::DefineKey { value, .. } => seq![value],
        RequestModel::Done(raw) => seq![raw],
        RequestModel::Failed { release, .. } => release,
        _ => Seq::empty(),
    }
}

/// The values that an answer brings in.
pub open spec fn brought_in(s: BuilderModel, reply: Reply) -> Seq<RawValue> {
    match reply {
        Reply::Value(raw) => if !s.finished && s.waiting && s.pc < s.steps.len() && asks_for_value(
            s.steps[s.pc as int],
        ) {
            seq![raw]
        } else {
            Seq::empty()
        },
        _ => Seq::empty(),
    }
}

/// The scalars that the plan itself pushes between `from` and `to`.
pub open spec fn pushed_scalars(steps: Seq<StepModel>, from: int, to: int) -> int
    decreases to - from,
{
    if from >= to || from < 0 || to > steps.len() {
        0
    } else {
        pushed_scalars(steps, from + 1, to) + if steps[from] is Scalar {
            1int
        } else {
            0int
        }
    }
}

/// Running the steps that need no answer keeps every value: what is held
/// afterwards and what the request hands over is what was held before and
/// what the plan pushed itself.
proof fn lemma_settle_keeps_count(s: BuilderModel)
    requires
        s.pc <= s.steps.len(),
    ensures
        settle(s).0.pc <= s.steps.len(),
        s.pc <= settle(s).0.pc,
        settle(s).0.steps == s.steps,
        settle(s).0.stack.len() + handed_over(settle(s).1).len() == s.stack.len() + pushed_scalars(
            s.steps,
            s.pc as int,
            settle(s).0.pc as int,
        ),
    decreases s.steps.len() - s.pc,
{
    if s.pc < s.steps.len() {
        let depth = s.stack.len() as int;
        match s.steps[s.pc as int] {
            StepModel::Scalar(raw) => {
                let next = BuilderModel { stack: s.stack.push(raw), pc: s.pc + 1, ..s };
                lemma_settle_keeps_count(next);
            },
            StepModel::RejectException(fault) => {
                if depth > 0 && s.stack.last().tag != TAG_EXCEPTION {
                    lemma_settle_keeps_count(BuilderModel { pc: s.pc + 1, ..s });
                }
            },
            StepModel::ExpectTag(tag, fault) => {
                if depth > 0 && s.stack.last().tag == tag {
                    lemma_settle_keeps_count(BuilderModel { pc: s.pc + 1, ..s });
                }
            },
            _ => {},
        }
    }
}

/// No value is lost and none is made up. After any answer, the values the
/// machine holds together with those its request hands over are as many as
/// the values it held before, the value the answer brought in, and the
/// scalars the plan pushed itself.
pub proof fn lemma_no_value_is_lost(s: BuilderModel, reply: Reply)
    requires
        s.pc <= s.steps.len(),
    ensures
        resume(s, reply).0.pc <= s.steps.len(),
        resume(s, reply).0.steps == s.steps,
        resume(s, reply).0.stack.len() + handed_over(resume(s, reply).1).len() == s.stack.len()
            + brought_in(s, reply).len() + pushed_scalars(
            s.steps,
            s.pc as int,
            resume(s, reply).0.pc as int,
        ),
{
    if s.finished {
    } else if !s.waiting {
        lemma_settle_keeps_count(s);
    } else if s.pc < s.steps.len() {
        let step = s.steps[s.pc as int];
        let next = BuilderModel { pc: s.pc + 1, waiting: false, ..s };
        match reply {
            Reply::Value(raw) => {
                if asks_for_value(step) {
                    lemma_settle_keeps_count(BuilderModel { stack: s.stack.push(raw), ..next });
                }
            },
            Reply::Nothing => {
                if step is DropSecond {
                    lemma_settle_keeps_count(next);
                }
            },
            Reply::Status(status) => {
                match step {
                    StepModel::StoreIndex(_) => {
                        if status >= 0 {
                            lemma_settle_keeps_count(next);
                        }
                    },
                    StepModel::StoreKey(_) => {
                        if status >= 0 {
                            lemma_settle_keeps_count(next);
                        }
                    },
                    _ => {},
                }
            },
        }
    }
}

/// When the machine gives up, it is finished and holds nothing any more.
pub proof fn lemma_failure_releases_everything(s: BuilderModel, reply: Reply)
    requires
        resume(s, reply).1 is Failed,
        s.pc <= s.steps.len(),
    ensures
        resume(s, reply).0.finished,
        resume(s, reply).0.stack.len() == 0,
{
    if s.finished {
    } else if !s.waiting {
        lemma_settle_ends(s);
    } else if s.pc < s.steps.len() {
        let step = s.steps[s.pc as int];
        let next = BuilderModel { pc: s.pc + 1, waiting: false, ..s };
        match reply {
            Reply::Value(raw) => {
                if asks_for_value(step) {
                    lemma_settle_ends(BuilderModel { stack: s.stack.push(raw), ..next });
                }
            },
            Reply::Nothing => {
                if step is DropSecond {
                    lemma_settle_ends(next);
                }
            },
            Reply::Status(status) => {
                match step {
                    StepModel::StoreIndex(_) => {
                        if status >= 0 {
                            lemma_settle_ends(next);
                        }
                    },
                    StepModel::StoreKey(_) => {
                        if status >= 0 {
                            lemma_settle_ends(next);
                        }
                    },
                    _ => {},
                }
            },
        }
    }
}

/// When storing an element or a property fails, every value the machine
/// holds, and so every array and object it has begun, is named for release,
/// the one begun last first. The value that was to be stored is not among
/// them: the engine took it over with the request.
pub proof fn lemma_failed_store_rolls_back(s: BuilderModel, status: i32)
    requires
        !s.finished,
        s.waiting,
        s.pc < s.steps.len(),
        s.steps[s.pc as int] is StoreIndex || s.steps[s.pc as int] is StoreKey,
        status < 0,
    ensures
        resume(s, Reply::Status(status)).1 is Failed,
        resume(s, Reply::Status(status)).1->release == s.stack.reverse(),
        resume(s, Reply::Status(status)).0.stack.len() == 0,
        resume(s, Reply::Status(status)).0.finished,
{
}

/// When the engine answers a request for a string, an array or an object
/// with the marker of an exception, every value the machine holds is named
/// for release, and the marker with them.
pub proof fn lemma_refused_value_rolls_back(s: BuilderModel, raw: RawValue, fault: Fault)
    requires
        !s.finished,
        s.waiting,
        s.pc + 1 < s.steps.len(),
        asks_for_value(s.steps[s.pc as int]),
        s.steps[s.pc as int + 1] == StepModel::RejectException(fault),
        raw.tag == TAG_EXCEPTION,
    ensures
        resume(s, Reply::Value(raw)).1 == (RequestModel::Failed {
            release: s.stack.push(raw).reverse(),
            fault,
        }),
        resume(s, Reply::Value(raw)).0.stack.len() == 0,
        resume(s, Reply::Value(raw)).0.finished,
{
    let next = BuilderModel { pc: s.pc + 1, waiting: false, stack: s.stack.push(raw), ..s };
    assert(resume(s, Reply::Value(raw)) == settle(next));
}

/// Where running the steps ends in a failure or in the result, the machine
/// is finished and holds nothing.
proof fn lemma_settle_ends(s: BuilderModel)
    requires
        s.pc <= s.steps.len(),
    ensures
        settle(s).1 is Failed || settle(s).1 is Done ==> settle(s).0.finished && settle(
            s,
        ).0.stack.len() == 0,
    decreases s.steps.len() - s.pc,
{
    if s.pc < s.steps.len() {
        let depth = s.stack.len() as int;
        match s.steps[s.pc as int] {
            StepModel::Scalar(raw) => {
                let next = BuilderModel { stack: s.stack.push(raw), pc: s.pc + 1, ..s };
                lemma_settle_ends(next);
            },
            StepModel::RejectException(fault) => {
                if depth > 0 && s.stack.last().tag != TAG_EXCEPTION {
                    lemma_settle_ends(BuilderModel { pc: s.pc + 1, ..s });
                }
            },
            StepModel::ExpectTag(tag, fault) => {
                if depth > 0 && s.stack.last().tag == tag {
                    lemma_settle_ends(BuilderModel { pc: s.pc + 1, ..s });
                }
            },
            _ => {},
        }
    }
}

/// How many values a step has taken off the stack by the time its request
/// is out.
pub open spec fn taken(step: StepModel) -> int {
    match step {
        StepModel::DropSecond => 1,
        StepModel::StoreIndex(_) => 1,
        StepModel::StoreKey(_) => 1,
        _ => 0,
    }
}

/// Whether the machine is on track: its plan is balanced, and it holds as
/// many values as the plan expects at the step where it stands.
pub open spec fn on_track(s: BuilderModel) -> bool {
    &&& !s.finished
    &&& s.pc <= s.steps.len()
    &&& balanced(s.steps)
    &&& match depth_after(s.steps.take(s.pc as int), 0) {
        None => false,
        Some(d) => if s.waiting {
            s.pc < s.steps.len() && s.stack.len() == d - taken(s.steps[s.pc as int])
        } else {
            s.stack.len() == d
        },
    }
}

/// Whether an answer is of the kind that the machine waits for.
pub open spec fn fits(s: BuilderModel, reply: Reply) -> bool {
    if !s.waiting || s.pc >= s.steps.len() {
        true
    } else {
        let step = s.steps[s.pc as int];
        match reply {
            Reply::Value(_) => asks_for_value(step),
            Reply::Nothing => step is DropSecond,
            Reply::Status(_) => step is StoreIndex || step is StoreKey,
        }
    }
}

/// Whether a request is a failure that blames the plan itself.
pub open spec fn blamed_on_plan(request: RequestModel) -> bool {
    request matches RequestModel::Failed { fault, .. } && fault == Fault::Malformed
}

/// A machine that stands between two steps of a balanced plan, with as many
/// values as the plan expects, runs on without ever blaming the plan.
proof fn lemma_settle_on_track(s: BuilderModel)
    requires
        on_track(s),
        !s.waiting,
    ensures
        !blamed_on_plan(settle(s).1),
        settle(s).0.finished || on_track(settle(s).0),
    decreases s.steps.len() - s.pc,
{
    let pc = s.pc as int;
    if s.pc >= s.steps.len() {
        assert(s.steps.take(pc) =~= s.steps);
    } else {
        lemma_depth_after_step(s.steps, 0, pc);
        let step = s.steps[pc];
        assert(!blames_plan(step));
        match step {
            StepModel::Scalar(raw) => {
                lemma_settle_on_track(
                    BuilderModel { stack: s.stack.push(raw), pc: s.pc + 1, ..s },
                );
            },
            StepModel::RejectException(fault) => {
                if s.stack.last().tag != TAG_EXCEPTION {
                    lemma_settle_on_track(BuilderModel { pc: s.pc + 1, ..s });
                }
            },
            StepModel::ExpectTag(tag, fault) => {
                if s.stack.last().tag == tag {
                    lemma_settle_on_track(BuilderModel { pc: s.pc + 1, ..s });
                }
            },
            _ => {},
        }
    }
}

/// A machine that runs the plan of a value and gets answers of the kind it
/// waits for never blames the plan: it fails only where the engine refuses
/// a value or a store, and otherwise stays on track until it is done.
pub proof fn lemma_balanced_plan_is_followed(s: BuilderModel, reply: Reply)
    requires
        on_track(s),
        fits(s, reply),
    ensures
        !blamed_on_plan(resume(s, reply).1),
        resume(s, reply).0.finished || on_track(resume(s, reply).0),
{
    if !s.waiting {
        lemma_settle_on_track(s);
    } else {
        let pc = s.pc as int;
        lemma_depth_after_step(s.steps, 0, pc);
        let step = s.steps[pc];
        let next = BuilderModel { pc: s.pc + 1, waiting: false, ..s };
        match reply {
            Reply::Value(raw) => {
                lemma_settle_on_track(BuilderModel { stack: s.stack.push(raw), ..next });
            },
            Reply::Nothing => {
                lemma_settle_on_track(next);
            },
            Reply::Status(status) => {
                if status >= 0 {
                    lemma_settle_on_track(next);
                }
            },
        }
    }
}

/// A machine that was just made for a balanced plan is on track.
pub proof fn lemma_new_machine_is_on_track(steps: Seq<StepModel>)
    requires
        balanced(steps),
    ensures
        on_track(
            BuilderModel { steps, pc: 0, stack: Seq::empty(), waiting: false, finished: false },
        ),
{
    assert(steps.take(0) =~= Seq::<StepModel>::empty());
}

} // verus!
