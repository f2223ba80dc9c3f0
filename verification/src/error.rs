use vstd::prelude::*;

verus! {

/// The ways in which reading a message can fail.
#[derive(Debug)]
pub enum MsgError {
    /// The root storage has no `__properties_version1.0` stream.
    PropertyStreamMissing,
    /// The property stream's length is not a multiple of 16.
    PropertyStreamNotDivisibleBy16,
    /// No property carries the message delivery time (0x0E06).
    MissingReceivedTime,
    /// The compressed RTF body could not be decompressed; the text is the
    /// decompressor's own description of the failure.
    Rtf(String),
    /// An attachment storage holds neither attached data nor an attached message.
    AttachmentNotFileOrMsg,
    /// An attachment storage holds both attached data and an attached message.
    AttachmentBothFileAndMsg,
}

/// A [`MsgError`] as a value.
pub enum MsgErrorView {
    PropertyStreamMissing,
    PropertyStreamNotDivisibleBy16,
    MissingReceivedTime,
    Rtf(Seq<char>),
    AttachmentNotFileOrMsg,
    AttachmentBothFileAndMsg,
}

impl View for MsgError {
    type V = MsgErrorView;

    open spec fn view(&self) -> MsgErrorView {
        match self {
            MsgError::PropertyStreamMissing => MsgErrorView::PropertyStreamMissing,
            MsgError::PropertyStreamNotDivisibleBy16 => MsgErrorView::PropertyStreamNotDivisibleBy16,
            MsgError::MissingReceivedTime => MsgErrorView::MissingReceivedTime,
            MsgError::Rtf(t) => MsgErrorView::Rtf(t@),
            MsgError::AttachmentNotFileOrMsg => MsgErrorView::AttachmentNotFileOrMsg,
            MsgError::AttachmentBothFileAndMsg => MsgErrorView::AttachmentBothFileAndMsg,
        }
    }
}

/// The kind of a [`MsgError`], without the decompressor's text.
#[derive(PartialEq, Eq, Structural, Clone, Copy, Debug)]
pub enum MsgErrorKind {
    PropertyStreamMissing,
    PropertyStreamNotDivisibleBy16,
    MissingReceivedTime,
    Rtf,
    AttachmentNotFileOrMsg,
    AttachmentBothFileAndMsg,
}

impl MsgError {
    pub open spec fn spec_kind(&self) -> MsgErrorKind {
        match self {
            MsgError::PropertyStreamMissing => MsgErrorKind::PropertyStreamMissing,
            MsgError::PropertyStreamNotDivisibleBy16 => MsgErrorKind::PropertyStreamNotDivisibleBy16,
            MsgError::MissingReceivedTime => MsgErrorKind::MissingReceivedTime,
            MsgError::Rtf(_) => MsgErrorKind::Rtf,
            MsgError::AttachmentNotFileOrMsg => MsgErrorKind::AttachmentNotFileOrMsg,
            MsgError::AttachmentBothFileAndMsg => MsgErrorKind::AttachmentBothFileAndMsg,
        }
    }

/// The description of this error.
    pub fn description(&self) -> (d: String)
        ensures
            self matches MsgError::Rtf(t) ==> d@ == t@,
            self is PropertyStreamMissing ==> d@ == "'/__properties_version1.0' does not exist"@,
            self is PropertyStreamNotDivisibleBy16 ==> d@ == "Property stream not divisible by 16"@,
            self is MissingReceivedTime ==> d@ == "Could not find the message received time (message_delivery_time)"@,
            self is AttachmentNotFileOrMsg ==> d@ == "msg attachment is not a file or a msg"@,
            self is AttachmentBothFileAndMsg ==> d@ == "msg attachment is both a file and a msg"@,
    {
        match self {
            MsgError::PropertyStreamMissing => String::from_str("'/__properties_version1.0' does not exist"),
            MsgError::PropertyStreamNotDivisibleBy16 => String::from_str("Property stream not divisible by 16"),
            MsgError::MissingReceivedTime => String::from_str(
                "Could not find the message received time (message_delivery_time)",
            ),
            MsgError::Rtf(t) => t.clone(),
            MsgError::AttachmentNotFileOrMsg => String::from_str("msg attachment is not a file or a msg"),
            MsgError::AttachmentBothFileAndMsg => String::from_str("msg attachment is both a file and a msg"),
        }
    }

    /// The kind of this error.
    #[verifier::when_used_as_spec(spec_kind)]
    pub fn kind(&self) -> (k: MsgErrorKind)
        ensures
            k == self.spec_kind(),
    {
        match self {
            MsgError::PropertyStreamMissing => MsgErrorKind::PropertyStreamMissing,
            MsgError::PropertyStreamNotDivisibleBy16 => MsgErrorKind::PropertyStreamNotDivisibleBy16,
            MsgError::MissingReceivedTime => MsgErrorKind::MissingReceivedTime,
            MsgError::Rtf(_) => MsgErrorKind::Rtf,
            MsgError::AttachmentNotFileOrMsg => MsgErrorKind::AttachmentNotFileOrMsg,
            MsgError::AttachmentBothFileAndMsg => MsgErrorKind::AttachmentBothFileAndMsg,
        }
    }
}

} // verus!
