use vstd::prelude::*;

verus! {

/// A list field that must hold at least one element.
#[derive(Clone, Copy, Debug, PartialEq, Eq, Structural)]
pub enum Field {
    FileName,
    MsgDownRsp,
    MultiMsgApplyDownRsp,
    MultiMsgApplyUpRsp,
}

/// Why decoding or resolving a multi-message failed.
#[derive(Clone, Debug, PartialEq, Eq)]
pub enum DecodeError {
    /// Bad leading marker byte, or lengths that do not fit the payload.
    MalformedFraming,
    /// The ciphertext could not be decrypted.
    DecryptionFailure,
    /// The structured decoder rejected the bytes.
    SchemaDecodeFailure,
    /// A field required to hold at least one element holds none.
    EmptyField(Field),
    /// An item name that the table does not hold.
    MissingReference(String),
    /// Bytes that had to be UTF-8 text are not.
    InvalidText,
    /// Forwards nested deeper than the resolver follows.
    TooDeep,
    /// The compressed stream is malformed.
    Inflate,
}

/// The mathematical value of a [`DecodeError`].
pub enum DecodeErrorView {
    MalformedFraming,
    DecryptionFailure,
    SchemaDecodeFailure,
    EmptyField(Field),
    MissingReference(Seq<char>),
    InvalidText,
    TooDeep,
    Inflate,
}

impl View for DecodeError {
    type V = DecodeErrorView;

    open spec fn view(&self) -> DecodeErrorView {
        match self {
            DecodeError::MalformedFraming => DecodeErrorView::MalformedFraming,
            DecodeError::DecryptionFailure => DecodeErrorView::DecryptionFailure,
            DecodeError::SchemaDecodeFailure => DecodeErrorView::SchemaDecodeFailure,
            DecodeError::EmptyField(f) => DecodeErrorView::EmptyField(*f),
            DecodeError::MissingReference(k) => DecodeErrorView::MissingReference(k@),
            DecodeError::InvalidText => DecodeErrorView::InvalidText,
            DecodeError::TooDeep => DecodeErrorView::TooDeep,
            DecodeError::Inflate => DecodeErrorView::Inflate,
        }
    }
}

} // verus!
