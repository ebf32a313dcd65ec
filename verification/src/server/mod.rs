//! What a handler is: anything that answers a request with a response.
//!
//! Three shapes are handlers: a text, which answers every request with itself
//! as the body; a function from a request to a text; and a function from a
//! request to a response. `Either` puts handlers of two types behind one
//! type, so that one table can hold handlers of several shapes.

use crate::request::Request;
use crate::response::{text_page, IntoResponse, Response};
use crate::utils::text::clock_date;
use vstd::prelude::*;

verus! {

/// A handler.
pub trait Service: Sized {
    /// Whether the handler may be called with `request`.
    spec fn accepts(&self, request: Request) -> bool;

    /// Whether `response` is an answer that the handler may give to
    /// `request`. Where the handler reads the clock, more than one is.
    spec fn serves(&self, request: Request, response: Response) -> bool;

    /// Answers `request`. A handler keeps no state: the call leaves it as it
    /// was.
    fn call(&mut self, request: Request) -> (response: Response)
        requires
            old(self).accepts(request),
        ensures
            old(self).serves(request, response),
            *final(self) == *old(self),
    ;
}

impl Service for String {
    open spec fn accepts(&self, request: Request) -> bool {
        true
    }

    open spec fn serves(&self, request: Request, response: Response) -> bool {
        exists|date: Seq<char>| #[trigger] clock_date(date) && response@ == text_page(self@, date)
    }

    fn call(&mut self, request: Request) -> (response: Response) {
        Response::text(self.as_str())
    }
}

impl Service for &str {
    open spec fn accepts(&self, request: Request) -> bool {
        true
    }

    open spec fn serves(&self, request: Request, response: Response) -> bool {
        exists|date: Seq<char>| #[trigger] clock_date(date) && response@ == text_page(self@, date)
    }

    fn call(&mut self, request: Request) -> (response: Response) {
        Response::text(*self)
    }
}

impl<F, R> Service for F where F: FnOnce(Request) -> R, F: Copy, R: IntoResponse {
    open spec fn accepts(&self, request: Request) -> bool {
        call_requires(*self, (request,))
    }

    open spec fn serves(&self, request: Request, response: Response) -> bool {
        exists|answer: R| call_ensures(*self, (request,), answer) && answer.yields(response)
    }

    fn call(&mut self, request: Request) -> (response: Response) {
        let handler = *self;
        let answer = handler(request);
        answer.into_response()
    }
}

/// One of two handlers. Nested, it holds one of any number.
pub enum Either<A, B> {
    Left(A),
    Right(B),
}

impl<A: Service, B: Service> Service for Either<A, B> {
    open spec fn accepts(&self, request: Request) -> bool {
        match self {
            Either::Left(handler) => handler.accepts(request),
            Either::Right(handler) => handler.accepts(request),
        }
    }

    open spec fn serves(&self, request: Request, response: Response) -> bool {
        match self {
            Either::Left(handler) => handler.serves(request, response),
            Either::Right(handler) => handler.serves(request, response),
        }
    }

    fn call(&mut self, request: Request) -> (response: Response) {
        match self {
            Either::Left(handler) => handler.call(request),
            Either::Right(handler) => handler.call(request),
        }
    }
}

} // verus!
