//! The response aggregator: from the frames of an exchange to the answer.

use crate::event::{frames_view, Frame, FrameModel};
use vstd::prelude::*;

verus! {

/// Whether the exchange goes on.
#[derive(Debug, Clone, Copy, PartialEq, Eq, Structural)]
pub enum ControlSignal {
    /// More frames are to be read.
    Continue,
    /// The exchange is complete.
    Stop,
}

/// What an [`Aggregator`] stands for.
pub struct AggregatorModel {
    /// The answer so far.
    pub content: Seq<char>,
    /// Why the answer is over; empty while no reason was given.
    pub finish_reason: Seq<char>,
    /// What was added to the answer and not yet taken for display.
    pub echo: Seq<char>,
}

impl AggregatorModel {
    /// The state before any frame.
    pub open spec fn start() -> AggregatorModel {
        AggregatorModel { content: Seq::empty(), finish_reason: Seq::empty(), echo: Seq::empty() }
    }

    /// The state with `delta` added to the answer.
    pub open spec fn extended(self, delta: Seq<char>) -> AggregatorModel {
        AggregatorModel {
            content: self.content + delta,
            finish_reason: self.finish_reason,
            echo: self.echo + delta,
        }
    }

    /// The state with the reason set.
    pub open spec fn finished(self, reason: Seq<char>) -> AggregatorModel {
        AggregatorModel { content: self.content, finish_reason: reason, echo: self.echo }
    }

    /// The state with nothing left to display.
    pub open spec fn displayed(self) -> AggregatorModel {
        AggregatorModel {
            content: self.content,
            finish_reason: self.finish_reason,
            echo: Seq::empty(),
        }
    }
}

/// What a frame does to the answer, and whether the exchange goes on.
///
/// Of an event only the first choice counts. A reason ends the exchange, and
/// the text beside it is not looked at; otherwise a text is added to the
/// answer. The end marker ends the exchange.
pub open spec fn accept_model(state: AggregatorModel, frame: FrameModel) -> (
    AggregatorModel,
    ControlSignal,
) {
    match frame {
        FrameModel::StreamEnd => (state, ControlSignal::Stop),
        FrameModel::Event(choices) => {
            if choices.len() == 0 {
                (state, ControlSignal::Continue)
            } else {
                match choices[0].finish_reason {
                    Some(reason) => (state.finished(reason), ControlSignal::Stop),
                    None => match choices[0].delta_text {
                        Some(delta) => (state.extended(delta), ControlSignal::Continue),
                        None => (state, ControlSignal::Continue),
                    },
                }
            }
        },
    }
}

/// What frames do to the answer, taken in their order up to the first that
/// ends the exchange.
pub open spec fn accept_all(state: AggregatorModel, frames: Seq<FrameModel>) -> (
    AggregatorModel,
    ControlSignal,
)
    decreases frames.len(),
{
    if frames.len() == 0 {
        (state, ControlSignal::Continue)
    } else {
        let (next, signal) = accept_model(state, frames[0]);
        if signal is Stop {
            (next, signal)
        } else {
            accept_all(next, frames.skip(1))
        }
    }
}

/// The text that a frame adds to the answer where it does not end the
/// exchange: the text of its first choice.
pub open spec fn delta_of(frame: FrameModel) -> Seq<char> {
    match frame {
        FrameModel::Event(choices) => if choices.len() > 0 && choices[0].finish_reason is None
            && choices[0].delta_text is Some {
            choices[0].delta_text->0
        } else {
            Seq::empty()
        },
        FrameModel::StreamEnd => Seq::empty(),
    }
}

/// The texts of the frames before the first that ends the exchange, in their
/// order.
pub open spec fn deltas_until_stop(frames: Seq<FrameModel>) -> Seq<char>
    decreases frames.len(),
{
    if frames.len() == 0 {
        Seq::empty()
    } else if accept_model(AggregatorModel::start(), frames[0]).1 is Stop {
        Seq::empty()
    } else {
        delta_of(frames[0]) + deltas_until_stop(frames.skip(1))
    }
}

/// The answer is what it was, followed by the texts of the frames in the order
/// in which they came: nothing is moved, and nothing is added twice.
pub proof fn lemma_content_in_order(state: AggregatorModel, frames: Seq<FrameModel>)
    ensures
        accept_all(state, frames).0.content == state.content + deltas_until_stop(frames),
        accept_all(state, frames).0.echo == state.echo + deltas_until_stop(frames),
    decreases frames.len(),
{
    if frames.len() == 0 {
        assert(state.content + Seq::<char>::empty() =~= state.content);
        assert(state.echo + Seq::<char>::empty() =~= state.echo);
    } else {
        let (next, signal) = accept_model(state, frames[0]);
        if signal is Stop {
            assert(state.content + Seq::<char>::empty() =~= state.content);
            assert(state.echo + Seq::<char>::empty() =~= state.echo);
        } else {
            lemma_content_in_order(next, frames.skip(1));
            let tail = deltas_until_stop(frames.skip(1));
            assert((state.content + delta_of(frames[0])) + tail =~= state.content + (delta_of(
                frames[0],
            ) + tail));
            assert((state.echo + delta_of(frames[0])) + tail =~= state.echo + (delta_of(frames[0])
                + tail));
            assert(next.content =~= state.content + delta_of(frames[0]));
            assert(next.echo =~= state.echo + delta_of(frames[0]));
        }
    }
}

/// Taking two runs of frames one after the other is taking the first and
/// then, unless it ended the exchange, the second.
pub proof fn lemma_accept_all_concat(
    state: AggregatorModel,
    first: Seq<FrameModel>,
    second: Seq<FrameModel>,
)
    ensures
        accept_all(state, first + second) == if accept_all(state, first).1 is Stop {
            accept_all(state, first)
        } else {
            accept_all(accept_all(state, first).0, second)
        },
    decreases first.len(),
{
    if first.len() == 0 {
        assert(first + second =~= second);
    } else {
        let (next, signal) = accept_model(state, first[0]);
        assert((first + second)[0] == first[0]);
        assert((first + second).skip(1) =~= first.skip(1) + second);
        if !(signal is Stop) {
            lemma_accept_all_concat(next, first.skip(1), second);
        }
    }
}

/// An event that carries a reason ends the exchange. Where the text beside the
/// reason is empty, the answer is as if that text had been added before.
pub proof fn lemma_reason_with_empty_text(
    state: AggregatorModel,
    frame: FrameModel,
    reason: Seq<char>,
    delta: Seq<char>,
)
    requires
        frame matches FrameModel::Event(choices) && choices.len() > 0 && choices[0].finish_reason
            == Some(reason) && choices[0].delta_text == Some(delta),
        delta.len() == 0,
    ensures
        accept_model(state, frame).1 is Stop,
        accept_model(state, frame).0 == state.extended(delta).finished(reason),
{
    assert(state.content + delta =~= state.content);
    assert(state.echo + delta =~= state.echo);
}

/// Gathers the answer of one exchange.
#[derive(Debug)]
pub struct Aggregator {
    content: String,
    finish_reason: String,
    echo: String,
}

impl View for Aggregator {
    type V = AggregatorModel;

    closed spec fn view(&self) -> AggregatorModel {
        AggregatorModel {
            content: self.content@,
            finish_reason: self.finish_reason@,
            echo: self.echo@,
        }
    }
}

impl Aggregator {
    /// An aggregator that has seen no frame.
    pub fn new() -> (aggregator: Aggregator)
        ensures
            aggregator@ == AggregatorModel::start(),
    {
        Aggregator { content: String::new(), finish_reason: String::new(), echo: String::new() }
    }

    /// The answer so far.
    pub fn content(&self) -> (text: &str)
        ensures
            text@ == self@.content,
    {
        self.content.as_str()
    }

    /// Why the answer is over; empty while no reason was given.
    pub fn finish_reason(&self) -> (text: &str)
        ensures
            text@ == self@.finish_reason,
    {
        self.finish_reason.as_str()
    }

    /// Sets the reason why the answer is over.
    pub fn set_finish_reason(&mut self, reason: &str)
        ensures
            final(self)@ == old(self)@.finished(reason@),
    {
        self.finish_reason = reason.to_owned();
    }

    /// Takes what was added to the answer since the last call, for display.
    pub fn take_echo(&mut self) -> (text: String)
        ensures
            text@ == old(self)@.echo,
            final(self)@ == old(self)@.displayed(),
    {
        let mut text = String::new();
        std::mem::swap(&mut text, &mut self.echo);
        text
    }

    /// Takes the next frame and tells whether the exchange goes on.
    pub fn accept(&mut self, frame: &Frame) -> (signal: ControlSignal)
        ensures
            (final(self)@, signal) == accept_model(old(self)@, frame@),
    {
        match frame {
            Frame::StreamEnd => ControlSignal::Stop,
            Frame::Event(choices) => {
                if choices.len() == 0 {
                    return ControlSignal::Continue;
                }
                let choice = &choices[0];
                assert(frame@->Event_0[0] == choice@);
                match &choice.finish_reason {
                    Some(reason) => {
                        self.finish_reason = reason.clone();
                        ControlSignal::Stop
                    },
                    None => match &choice.delta_text {
                        Some(delta) => {
                            self.content.append(delta.as_str());
                            self.echo.append(delta.as_str());
                            ControlSignal::Continue
                        },
                        None => ControlSignal::Continue,
                    },
                }
            },
        }
    }

    /// Takes frames in their order, up to the first that ends the exchange.
    pub fn accept_frames(&mut self, frames: &Vec<Frame>) -> (signal: ControlSignal)
        ensures
            (final(self)@, signal) == accept_all(old(self)@, frames_view(frames@)),
    {
        let ghost all = frames_view(frames@);
        let mut at: usize = 0;
        assert(all.skip(0) =~= all);
        while at < frames.len()
            invariant
                at <= frames.len(),
                all == frames_view(frames@),
                accept_all(old(self)@, all) == accept_all(self@, all.skip(at as int)),
            decreases frames.len() - at,
        {
            let ghost rest = all.skip(at as int);
            assert(rest[0] == frames@[at as int]@);
            assert(rest.skip(1) =~= all.skip(at + 1));
            match self.accept(&frames[at]) {
                ControlSignal::Stop => {
                    return ControlSignal::Stop;
                },
                ControlSignal::Continue => {},
            }
            at = at + 1;
        }
        ControlSignal::Continue
    }
}

} // verus!
