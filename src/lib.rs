//! A zero-copy DNS / mDNS message codec over caller-owned byte buffers.
//!
//! Parsing works on a byte slice and hands out views (names, text) into it.
//! Building writes into a fixed-capacity buffer through staged builders, so
//! the buffer only ever holds complete records counted in the header.
use vstd::prelude::*;

pub mod wire;
pub mod buffer;
pub mod header;
pub mod name;
pub mod question;
pub mod answer;
pub mod body;
pub mod message;
pub mod name_builder;
pub mod question_builder;
pub mod answer_builder;
pub mod laws;

pub use buffer::{Buffer, MutBuffer, ExtendableBuffer};
pub use header::{Header, HeaderKind, HeaderOpcode, HeaderResponseCode};
pub use name::{Name, LabelType};
pub use question::{Question, QType, QClass};
pub use answer::{Answer, AType, AClass};
pub use body::{Section, QuestionsSection, AnswersSection, MessageBody, MessageBodyMut, Questions, Answers};
pub use message::Message;
pub use name_builder::{NamePart, NamePtr, NameBuilder};
pub use question_builder::QuestionBuilder;
pub use answer_builder::{
    AnswerBuilder, AnswerTypeBuilder, AnswerTypeABuilder, AnswerTypePtrBuilder, AnswerTypeTxtBuilder,
    AnswerTypeSrvBuilder,
};

verus! {
} // verus!
