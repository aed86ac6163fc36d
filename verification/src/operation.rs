//! Commands that talk to the browser, as machines that say what to send next.

use vstd::prelude::*;

use crate::interop;
use crate::interop::quote;
use crate::json::{Json, JsonView};
use crate::text;
use crate::text::{u64_text, Chars};

verus! {

/// A command for the browser, to be sent to a session.
pub struct Request {
    pub method: String,
    pub params: Option<Json>,
    pub session_id: String,
}

/// Model of a request.
#[verifier::ext_equal]
pub struct RequestView {
    pub method: Chars,
    pub params: Option<JsonView>,
    pub session_id: Chars,
}

impl View for Request {
    type V = RequestView;

    open spec fn view(&self) -> RequestView {
        RequestView {
            method: self.method@,
            params: self.params.deep_view(),
            session_id: self.session_id@,
        }
    }
}

impl RequestView {
    /// A request without parameters.
    pub open spec fn plain(method: Chars, session: Chars) -> RequestView {
        RequestView { method, params: None, session_id: session }
    }

    /// A request with parameters.
    pub open spec fn with_params(method: Chars, params: JsonView, session: Chars) -> RequestView {
        RequestView { method, params: Some(params), session_id: session }
    }
}

impl Request {
    /// A request without parameters.
    pub fn plain(method: &str, session_id: &str) -> (r: Request)
        ensures
            r@ == RequestView::plain(method@, session_id@),
    {
        Request { method: method.to_owned(), params: None, session_id: session_id.to_owned() }
    }

    /// A request with parameters.
    pub fn with_params(method: &str, params: Json, session_id: &str) -> (r: Request)
        ensures
            r@ == RequestView::with_params(method@, params@, session_id@),
    {
        Request {
            method: method.to_owned(),
            params: Some(params),
            session_id: session_id.to_owned(),
        }
    }
}

/// What a machine came to: it waits for a reply, or it is done.
pub enum Step<T> {
    Wait(T),
    Done(Result<Json, String>),
}

/// Model of a step.
pub enum StepView<W> {
    Wait(W),
    Done(Result<JsonView, Chars>),
}

impl<T: DeepView> DeepView for Step<T> {
    type V = StepView<T::V>;

    open spec fn deep_view(&self) -> StepView<T::V> {
        match *self {
            Step::Wait(machine) => StepView::Wait(machine.deep_view()),
            Step::Done(result) => StepView::Done(text::outcome(result)),
        }
    }
}

/// Removal of the binding that logpoints call, from every execution context of
/// a session and from the session itself.
pub struct Unbind {
    pub session_id: String,
    pub binding_name: String,
    pub context: Option<u64>,
    pub rest: Vec<u64>,
    pub errors: Vec<String>,
    pub removing: bool,
}

/// Model of a removal.
#[verifier::ext_equal]
pub struct UnbindView {
    pub session_id: Chars,
    pub binding_name: Chars,
    pub context: Option<u64>,
    pub rest: Seq<u64>,
    pub errors: Seq<Chars>,
    pub removing: bool,
}

impl DeepView for Unbind {
    type V = UnbindView;

    open spec fn deep_view(&self) -> UnbindView {
        UnbindView {
            session_id: self.session_id@,
            binding_name: self.binding_name@,
            context: self.context,
            rest: self.rest.deep_view(),
            errors: self.errors.deep_view(),
            removing: self.removing,
        }
    }
}

/// What a removal came to: it waits for a reply, or it is done with the errors
/// that it met.
pub enum UnbindStep {
    Wait(Unbind),
    Done(Vec<String>),
}

/// Model of what a removal came to.
pub enum UnbindStepView {
    Wait(UnbindView),
    Done(Seq<Chars>),
}

impl DeepView for UnbindStep {
    type V = UnbindStepView;

    open spec fn deep_view(&self) -> UnbindStepView {
        match *self {
            UnbindStep::Wait(machine) => UnbindStepView::Wait(machine.deep_view()),
            UnbindStep::Done(errors) => UnbindStepView::Done(errors.deep_view()),
        }
    }
}

/// The JavaScript that takes the binding from the global object.
pub open spec fn delete_expression(binding: Chars) -> Chars {
    "(()=>{try{return delete globalThis["@ + interop::json_quote(binding)
        + "]}catch(_){return false}})()"@
}

impl UnbindView {
    /// The removal before its first request.
    pub open spec fn start(session: Chars, binding: Chars, contexts: Seq<u64>) -> UnbindView {
        UnbindView {
            session_id: session,
            binding_name: binding,
            context: if contexts.len() > 0 {
                Some(contexts[0])
            } else {
                None
            },
            rest: if contexts.len() > 0 {
                contexts.skip(1)
            } else {
                contexts
            },
            errors: Seq::empty(),
            removing: false,
        }
    }

    /// The request that the removal waits for.
    pub open spec fn request(self) -> RequestView {
        if self.removing {
            RequestView::with_params(
                "Runtime.removeBinding"@,
                JsonView::object().with("name"@, JsonView::Str(self.binding_name)),
                self.session_id,
            )
        } else {
            let script = JsonView::object().with(
                "expression"@,
                JsonView::Str(delete_expression(self.binding_name)),
            );
            let place = match self.context {
                Some(id) => script.with("contextId"@, JsonView::Uint(id)),
                None => script,
            };
            RequestView::with_params(
                "Runtime.evaluate"@,
                place.with("returnByValue"@, JsonView::Bool(true)).with(
                    "silent"@,
                    JsonView::Bool(true),
                ),
                self.session_id,
            )
        }
    }

    /// The errors after a reply.
    pub open spec fn errors_after(self, reply: Result<JsonView, Chars>) -> Seq<Chars> {
        match reply {
            Ok(_) => self.errors,
            Err(e) => if self.removing || self.context is None {
                self.errors.push(e)
            } else {
                self.errors.push(
                    "context "@ + text::decimal(self.context->Some_0 as nat) + ": "@ + e,
                )
            },
        }
    }

    /// What the removal comes to with a reply.
    pub open spec fn advance(self, reply: Result<JsonView, Chars>) -> UnbindStepView {
        let errors = self.errors_after(reply);
        if self.removing {
            UnbindStepView::Done(errors)
        } else if self.rest.len() > 0 {
            UnbindStepView::Wait(
                UnbindView {
                    context: Some(self.rest[0]),
                    rest: self.rest.skip(1),
                    errors,
                    ..self
                },
            )
        } else {
            UnbindStepView::Wait(UnbindView { context: None, errors, removing: true, ..self })
        }
    }
}

impl Unbind {
    /// Starts the removal of a binding from a session with the given contexts.
    pub fn start(session_id: &str, binding_name: &str, contexts: &Vec<u64>) -> (r: Unbind)
        ensures
            r.deep_view() == UnbindView::start(session_id@, binding_name@, contexts.deep_view()),
    {
        let mut rest: Vec<u64> = Vec::new();
        let mut i: usize = 1;
        while i < contexts.len()
            invariant
                1 <= i,
                contexts.len() > 0 ==> rest.len() == i - 1 && i <= contexts.len(),
                contexts.len() == 0 ==> rest.len() == 0,
                forall|j: int| 0 <= j < rest.len() ==> rest@[j] == contexts@[j + 1],
            decreases contexts.len() - i,
        {
            rest.push(contexts[i]);
            i = i + 1;
        }
        let context = if contexts.len() > 0 {
            Some(contexts[0])
        } else {
            None
        };
        let errors: Vec<String> = Vec::new();
        let r = Unbind {
            session_id: session_id.to_owned(),
            binding_name: binding_name.to_owned(),
            context,
            rest,
            errors,
            removing: false,
        };
        assert(r.deep_view() =~= UnbindView::start(
            session_id@,
            binding_name@,
            contexts.deep_view(),
        ));
        r
    }

    /// The request that the removal waits for.
    pub fn request(&self) -> (r: Request)
        ensures
            r@ == self.deep_view().request(),
    {
        if self.removing {
            return Request::with_params(
                "Runtime.removeBinding",
                Json::object().with("name", Json::text(self.binding_name.as_str())),
                self.session_id.as_str(),
            );
        }
        let literal = quote(self.binding_name.as_str());
        let expression = "(()=>{try{return delete globalThis[".to_owned().concat(
            literal.as_str(),
        ).concat("]}catch(_){return false}})()");
        let script = Json::object().with("expression", Json::text(expression.as_str()));
        let place = match self.context {
            Some(id) => script.with("contextId", Json::Uint(id)),
            None => script,
        };
        Request::with_params(
            "Runtime.evaluate",
            place.with("returnByValue", Json::Bool(true)).with("silent", Json::Bool(true)),
            self.session_id.as_str(),
        )
    }

    /// Takes the reply to the request.
    pub fn advance(self, reply: &Result<Json, String>) -> (r: UnbindStep)
        ensures
            r.deep_view() == self.deep_view().advance(text::outcome(*reply)),
    {
        let ghost start = self.deep_view();
        let mut errors = self.errors;
        let ghost before = errors.deep_view();
        if let Err(e) = reply {
            let message = match self.context {
                Some(id) => if self.removing {
                    e.clone()
                } else {
                    "context ".to_owned().concat(u64_text(id).as_str()).concat(": ").concat(
                        e.as_str(),
                    )
                },
                None => e.clone(),
            };
            errors.push(message);
            assert(errors.deep_view() =~= before.push(message@));
        }
        assert(errors.deep_view() == start.errors_after(text::outcome(*reply)));
        if self.removing {
            return UnbindStep::Done(errors);
        }
        let mut rest = self.rest;
        if rest.len() > 0 {
            let first = rest.remove(0);
            let next = Unbind {
                session_id: self.session_id,
                binding_name: self.binding_name,
                context: Some(first),
                rest,
                errors,
                removing: false,
            };
            assert(next.deep_view().rest =~= start.rest.skip(1));
            UnbindStep::Wait(next)
        } else {
            UnbindStep::Wait(
                Unbind {
                    session_id: self.session_id,
                    binding_name: self.binding_name,
                    context: None,
                    rest,
                    errors,
                    removing: true,
                },
            )
        }
    }
}

} // verus!
