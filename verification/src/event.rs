//! The events of the stream: their shape as JSON, and what the decoder keeps of them.

use crate::json::{
    integer_within, is_integer_within, is_text, items_view, lemma_array_view, lemma_object_view,
    lookup, member, optional_text, optional_text_of, text_view, Json, JsonModel,
};
use vstd::prelude::*;

verus! {

/// One alternative of an event: a piece of the answer, or the reason why the
/// answer is over.
#[derive(Debug)]
pub struct Choice {
    pub delta_text: Option<String>,
    pub finish_reason: Option<String>,
}

/// What a [`Choice`] stands for.
pub struct ChoiceModel {
    pub delta_text: Option<Seq<char>>,
    pub finish_reason: Option<Seq<char>>,
}

impl View for Choice {
    type V = ChoiceModel;

    open spec fn view(&self) -> ChoiceModel {
        ChoiceModel {
            delta_text: text_view(self.delta_text),
            finish_reason: text_view(self.finish_reason),
        }
    }
}

/// The choices of an event, each by its view.
pub open spec fn choices_view(choices: Seq<Choice>) -> Seq<ChoiceModel> {
    Seq::new(choices.len(), |i: int| choices[i]@)
}

/// One unit of the stream.
#[derive(Debug)]
pub enum Frame {
    /// An event, with the choices it carries.
    Event(Vec<Choice>),
    /// The marker that ends the stream.
    StreamEnd,
}

/// What a [`Frame`] stands for.
pub enum FrameModel {
    Event(Seq<ChoiceModel>),
    StreamEnd,
}

impl View for Frame {
    type V = FrameModel;

    open spec fn view(&self) -> FrameModel {
        match self {
            Frame::Event(choices) => FrameModel::Event(choices_view(choices@)),
            Frame::StreamEnd => FrameModel::StreamEnd,
        }
    }
}

/// Frames, each by its view.
pub open spec fn frames_view(frames: Seq<Frame>) -> Seq<FrameModel> {
    Seq::new(frames.len(), |i: int| frames[i]@)
}

/// The choice that a JSON value describes: an object with an integer `index`
/// that fits in 32 bits, an object `delta` whose `content` and `role` are
/// strings where they are there, and a `finish_reason` that is a string where
/// it is there.
pub open spec fn choice_of(json: JsonModel) -> Option<ChoiceModel> {
    match json {
        JsonModel::Object(fields) => match member(fields, "delta"@) {
            Some(JsonModel::Object(delta)) => {
                if is_integer_within(member(fields, "index"@), i32::MIN as int, i32::MAX as int)
                    && optional_text(delta, "content"@) is Some && optional_text(
                    delta,
                    "role"@,
                ) is Some && optional_text(fields, "finish_reason"@) is Some {
                    Some(
                        ChoiceModel {
                            delta_text: optional_text(delta, "content"@)->0,
                            finish_reason: optional_text(fields, "finish_reason"@)->0,
                        },
                    )
                } else {
                    None
                }
            },
            _ => None,
        },
        _ => None,
    }
}

/// The choices that the elements of an array describe, if each describes one.
pub open spec fn choices_of(items: Seq<JsonModel>) -> Option<Seq<ChoiceModel>> {
    if forall|i: int| 0 <= i < items.len() ==> (#[trigger] choice_of(items[i])) is Some {
        Some(Seq::new(items.len(), |i: int| choice_of(items[i])->0))
    } else {
        None
    }
}

/// The choices of the event that a JSON document describes: an object with an
/// array `choices` of choices, an integer `created` that fits in 64 bits and a
/// string `id`. Other members are not looked at.
pub open spec fn event_of(json: JsonModel) -> Option<Seq<ChoiceModel>> {
    match json {
        JsonModel::Object(fields) => match member(fields, "choices"@) {
            Some(JsonModel::Array(items)) => {
                if is_integer_within(member(fields, "created"@), i64::MIN as int, i64::MAX as int)
                    && is_text(member(fields, "id"@)) {
                    choices_of(items)
                } else {
                    None
                }
            },
            _ => None,
        },
        _ => None,
    }
}

/// Reads a choice from a JSON value.
pub fn choice_of_json(json: &Json) -> (res: Option<Choice>)
    ensures
        match res {
            Some(choice) => choice_of(json@) == Some(choice@),
            None => choice_of(json@) is None,
        },
{
    match json {
        Json::Object(fields) => {
            proof {
                lemma_object_view(*fields);
            }
            match lookup(fields, "delta") {
                Some(Json::Object(delta)) => {
                    proof {
                        lemma_object_view(*delta);
                    }
                    if !integer_within(fields, "index", i32::MIN as i64, i32::MAX as i64) {
                        return None;
                    }
                    let content = optional_text_of(delta, "content");
                    let role = optional_text_of(delta, "role");
                    let reason = optional_text_of(fields, "finish_reason");
                    match (content, role, reason) {
                        (Some(delta_text), Some(_), Some(finish_reason)) => Some(
                            Choice { delta_text, finish_reason },
                        ),
                        _ => None,
                    }
                },
                _ => None,
            }
        },
        _ => None,
    }
}

/// Reads the choices of an event from a JSON document.
#[verifier::loop_isolation(false)]
pub fn event_of_json(json: &Json) -> (res: Option<Vec<Choice>>)
    ensures
        match res {
            Some(choices) => event_of(json@) == Some(choices_view(choices@)),
            None => event_of(json@) is None,
        },
{
    match json {
        Json::Object(fields) => {
            proof {
                lemma_object_view(*fields);
            }
            match lookup(fields, "choices") {
                Some(Json::Array(items)) => {
                    proof {
                        lemma_array_view(*items);
                    }
                    if !integer_within(fields, "created", i64::MIN, i64::MAX) {
                        return None;
                    }
                    match lookup(fields, "id") {
                        Some(Json::Text(_)) => {},
                        _ => {
                            return None;
                        },
                    }
                    let ghost models = items_view(items@);
                    let mut choices: Vec<Choice> = Vec::new();
                    let mut at: usize = 0;
                    while at < items.len()
                        invariant
                            at <= items.len(),
                            models == items_view(items@),
                            choices@.len() == at,
                            forall|i: int|
                                0 <= i < at ==> (#[trigger] choice_of(models[i])) == Some(
                                    choices@[i]@,
                                ),
                        decreases items.len() - at,
                    {
                        match choice_of_json(&items[at]) {
                            Some(choice) => {
                                choices.push(choice);
                            },
                            None => {
                                assert(choice_of(models[at as int]) is None);
                                return None;
                            },
                        }
                        at = at + 1;
                    }
                    assert(choices_of(models)->0 =~= choices_view(choices@));
                    Some(choices)
                },
                _ => None,
            }
        },
        _ => None,
    }
}

} // verus!
