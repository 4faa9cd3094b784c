//! The decisions of one connection's worker.
//!
//! A worker reads bytes into a buffer until they hold a whole request, then
//! acts on it once and closes the connection. `next_step` says, for what has
//! arrived so far, whether to read more, what to do, or to drop the
//! connection without an answer.
use vstd::prelude::*;
use crate::bytes::opt_bytes;
use crate::request::{parse_spec, HttpRequest, ParseError};
use crate::router::{route, route_spec, Action, ActionModel};

verus! {

/// What a worker does next, as mathematical values.
pub enum StepModel {
    ReadMore,
    Perform(ActionModel),
    Abandon,
}

/// What a worker does next.
pub enum Step {
    /// The request is not complete: read more bytes.
    ReadMore,
    /// Carry out this action, write the answer, and close.
    Perform(Action),
    /// Close the connection without an answer.
    Abandon,
}

impl View for Step {
    type V = StepModel;

    open spec fn view(&self) -> StepModel {
        match self {
            Step::ReadMore => StepModel::ReadMore,
            Step::Perform(a) => StepModel::Perform(a@),
            Step::Abandon => StepModel::Abandon,
        }
    }
}

/// The next step for the bytes `buf` received so far; `closed` says that the
/// peer will send nothing more. A malformed request, a missing required
/// header, or a request cut short by the peer gets no answer.
pub open spec fn step_spec(buf: Seq<u8>, closed: bool, dir: Option<Seq<u8>>) -> StepModel {
    match parse_spec(buf) {
        Err(ParseError::Incomplete) => if closed {
            StepModel::Abandon
        } else {
            StepModel::ReadMore
        },
        Err(_) => StepModel::Abandon,
        Ok(req) => match route_spec(req, dir) {
            Ok(a) => StepModel::Perform(a),
            Err(_) => StepModel::Abandon,
        },
    }
}

/// Decides the next step for the bytes `buf` received so far.
pub fn next_step(buf: &[u8], closed: bool, dir: Option<&[u8]>) -> (r: Step)
    ensures
        r@ == step_spec(buf@, closed, opt_bytes(dir)),
{
    match HttpRequest::parse(buf) {
        Err(ParseError::Incomplete) => if closed {
            Step::Abandon
        } else {
            Step::ReadMore
        },
        Err(_) => Step::Abandon,
        Ok(req) => match route(&req, dir) {
            Ok(a) => Step::Perform(a),
            Err(_) => Step::Abandon,
        },
    }
}

} // verus!
