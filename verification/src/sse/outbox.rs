//! What a stream hands to its reader, in the order in which it is handed over.

use vstd::prelude::*;

use crate::protocol::{ApiError, ApiErrorView, ResponseEvent, ResponseEventView};

verus! {

/// An event, or the error that ends the stream.
pub type StreamOutput = Result<ResponseEvent, ApiError>;

/// What a `StreamOutput` holds.
pub type StreamOutputView = Result<ResponseEventView, ApiErrorView>;

/// What a stream output holds.
pub open spec fn output_view(output: StreamOutput) -> StreamOutputView {
    match output {
        Ok(event) => Ok(event.deep_view()),
        Err(error) => Err(error.deep_view()),
    }
}

/// What each of several stream outputs holds.
pub open spec fn outputs_view(outputs: Seq<StreamOutput>) -> Seq<StreamOutputView> {
    outputs.map_values(|output: StreamOutput| output_view(output))
}

/// The outputs that are still to be handed over.
#[derive(Debug)]
pub struct Outbox {
    outputs: Vec<StreamOutput>,
}

impl View for Outbox {
    type V = Seq<StreamOutputView>;

    closed spec fn view(&self) -> Seq<StreamOutputView> {
        outputs_view(self.outputs@)
    }
}

impl Outbox {
    /// Nothing to hand over.
    pub fn new() -> (outbox: Self)
        ensures
            outbox@ == Seq::<StreamOutputView>::empty(),
    {
        let outbox = Outbox { outputs: Vec::new() };
        assert(outbox@ =~= Seq::<StreamOutputView>::empty());
        outbox
    }

    /// Adds an event behind the outputs.
    pub fn event(&mut self, event: ResponseEvent)
        ensures
            final(self)@ == old(self)@.push(Ok(event.deep_view())),
    {
        self.outputs.push(Ok(event));
        assert(self@ =~= old(self)@.push(Ok(event.deep_view())));
    }

    /// Adds an error behind the outputs.
    pub fn error(&mut self, error: ApiError)
        ensures
            final(self)@ == old(self)@.push(Err(error.deep_view())),
    {
        self.outputs.push(Err(error));
        assert(self@ =~= old(self)@.push(Err(error.deep_view())));
    }

    /// Adds the outputs of another outbox behind these.
    pub fn append(&mut self, other: Outbox)
        ensures
            final(self)@ == old(self)@ + other@,
    {
        let mut outputs: Vec<StreamOutput> = other.outputs;
        self.outputs.append(&mut outputs);
        assert(self@ =~= old(self)@ + other@);
    }

    /// The outputs, first one first.
    pub fn into_outputs(self) -> (outputs: Vec<StreamOutput>)
        ensures
            outputs_view(outputs@) == self@,
    {
        self.outputs
    }
}

/// What one step of a stream comes to.
#[derive(Debug)]
pub struct StreamStep {
    /// What is handed to the reader, in this order.
    pub outbox: Outbox,
    /// Nothing more is read from the stream.
    pub finished: bool,
}

} // verus!
