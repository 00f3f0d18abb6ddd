//! Types shared by every layer.

use vstd::prelude::*;

verus! {

/// Kind of asset that an asset reference points to.
#[derive(Clone, Copy, Debug, PartialEq, Eq, Structural)]
pub enum AssetType {
    /// Advertisement asset.
    Ad,
    /// Image asset.
    Image,
}

/// Whether an [`Error`] may be retried.
#[derive(Clone, Copy, Debug, PartialEq, Eq, Structural)]
pub enum ErrorKind {
    /// A permanent, non-retryable error.
    Permanent,
    /// A transient, retryable error.
    Transient,
}

/// Kind of a video.
#[derive(Clone, Copy, Debug, PartialEq, Eq, Structural)]
pub enum VideoType {
    /// A short clip.
    Clip,
    /// A TV length episode.
    Episode,
    /// A full length movie.
    Movie,
}

impl AssetType {
    /// The name of the asset type on the wire.
    pub open spec fn wire_name(self) -> Seq<char> {
        match self {
            AssetType::Ad => "AD"@,
            AssetType::Image => "IMAGE"@,
        }
    }

    /// Wire name of the asset type, as used in query strings.
    pub fn to_string(&self) -> (text: String)
        ensures
            text@ == self.wire_name(),
    {
        match self {
            AssetType::Ad => String::from_str("AD"),
            AssetType::Image => String::from_str("IMAGE"),
        }
    }
}

impl VideoType {
    /// The name of the video type on the wire.
    pub open spec fn wire_name(self) -> Seq<char> {
        match self {
            VideoType::Clip => "CLIP"@,
            VideoType::Episode => "EPISODE"@,
            VideoType::Movie => "MOVIE"@,
        }
    }

    /// Wire name of the video type, as used in query strings.
    pub fn to_string(&self) -> (text: String)
        ensures
            text@ == self.wire_name(),
    {
        match self {
            VideoType::Clip => String::from_str("CLIP"),
            VideoType::Episode => String::from_str("EPISODE"),
            VideoType::Movie => String::from_str("MOVIE"),
        }
    }
}

impl ErrorKind {
    /// The name under which the kind is printed.
    pub open spec fn name(self) -> Seq<char> {
        match self {
            ErrorKind::Permanent => "Permanent"@,
            ErrorKind::Transient => "Transient"@,
        }
    }

    /// Printable name of the kind.
    pub fn to_string(&self) -> (text: String)
        ensures
            text@ == self.name(),
    {
        match self {
            ErrorKind::Permanent => String::from_str("Permanent"),
            ErrorKind::Transient => String::from_str("Transient"),
        }
    }
}

/// Failure of a request to an upstream service, or of reading its reply.
#[derive(Debug, PartialEq, Eq)]
pub struct Error {
    /// If the error is permanent or transient.
    pub kind: ErrorKind,
    /// Error message.
    pub message: String,
}

/// Mathematical value of an [`Error`].
pub struct ErrorView {
    pub kind: ErrorKind,
    pub message: Seq<char>,
}

impl View for Error {
    type V = ErrorView;

    open spec fn view(&self) -> ErrorView {
        ErrorView { kind: self.kind, message: self.message@ }
    }
}

impl Clone for Error {
    fn clone(&self) -> (copy: Self)
        ensures
            copy@ == self@,
    {
        Error { kind: self.kind, message: self.message.clone() }
    }
}

impl Error {
    /// An error of the given kind with the given message.
    pub fn new(kind: ErrorKind, message: &str) -> (error: Error)
        ensures
            error@ == (ErrorView { kind, message: message@ }),
    {
        Error { kind, message: String::from_str(message) }
    }

    /// A permanent error with the given message.
    pub fn permanent(message: &str) -> (error: Error)
        ensures
            error@ == (ErrorView { kind: ErrorKind::Permanent, message: message@ }),
    {
        Error::new(ErrorKind::Permanent, message)
    }

    /// A transient error with the given message.
    pub fn transient(message: &str) -> (error: Error)
        ensures
            error@ == (ErrorView { kind: ErrorKind::Transient, message: message@ }),
    {
        Error::new(ErrorKind::Transient, message)
    }

    /// The error that stands for an identifier that is no number.
    pub open spec fn malformed_identifier() -> ErrorView {
        ErrorView { kind: ErrorKind::Permanent, message: "Malformed identifier"@ }
    }

    /// The permanent error that reports a malformed identifier.
    pub fn malformed() -> (error: Error)
        ensures
            error@ == Error::malformed_identifier(),
    {
        Error::permanent("Malformed identifier")
    }

    /// The text under which an error is printed.
    pub open spec fn text(error: ErrorView) -> Seq<char> {
        "Error { kind: "@ + error.kind.name() + ", message: "@ + error.message + " }"@
    }

    /// Printable form of the error.
    pub fn to_string(&self) -> (text: String)
        ensures
            text@ == Error::text(self@),
    {
        let mut text = String::from_str("Error { kind: ");
        let kind = self.kind.to_string();
        text.append(kind.as_str());
        text.append(", message: ");
        text.append(self.message.as_str());
        text.append(" }");
        text
    }
}

/// The views of a sequence of values.
pub open spec fn views<T: View>(items: Seq<T>) -> Seq<T::V> {
    items.map_values(|item: T| item@)
}

/// The text of an optional string: `Some(..)` around the value, or `None`.
pub open spec fn option_text(option: Option<Seq<char>>) -> Seq<char> {
    match option {
        Some(value) => "Some("@ + value + ")"@,
        None => "None"@,
    }
}

/// The view of an optional string.
pub open spec fn option_view(option: Option<String>) -> Option<Seq<char>> {
    match option {
        Some(value) => Some(value@),
        None => None,
    }
}

/// Convert an optional string to its printable form.
pub fn option_to_string(option: &Option<String>) -> (text: String)
    ensures
        text@ == option_text(option_view(*option)),
{
    match option {
        Some(value) => {
            let mut text = String::from_str("Some(");
            text.append(value.as_str());
            text.append(")");
            text
        },
        None => String::from_str("None"),
    }
}

/// Every item of `items` in order, each behind a comma and a space.
pub open spec fn comma_led(items: Seq<Seq<char>>) -> Seq<char>
    decreases items.len(),
{
    if items.len() == 0 {
        Seq::empty()
    } else {
        comma_led(items.drop_last()) + ", "@ + items.last()
    }
}

/// The text of a list of strings: `[]` for the empty list, else the items,
/// each behind a comma and a space, between `[ ` and ` ]`.
pub open spec fn array_text(items: Seq<Seq<char>>) -> Seq<char> {
    if items.len() == 0 {
        "[]"@
    } else {
        "[ "@ + comma_led(items) + " ]"@
    }
}

/// Convert a list of strings to its printable form.
pub fn array_to_string(items: &[String]) -> (text: String)
    ensures
        text@ == array_text(views(items@)),
{
    if items.len() == 0 {
        return String::from_str("[]");
    }
    let mut text = String::from_str("[ ");
    let ghost texts = views(items@);
    let mut i: usize = 0;
    while i < items.len()
        invariant
            i <= items.len(),
            texts == views(items@),
            text@ == "[ "@ + comma_led(texts.take(i as int)),
        decreases items.len() - i,
    {
        text.append(", ");
        text.append(items[i].as_str());
        proof {
            let next = texts.take(i + 1);
            assert(next.drop_last() == texts.take(i as int));
            assert(next.last() == items@[i as int]@);
        }
        i += 1;
    }
    proof {
        assert(texts.take(i as int) == texts);
    }
    text.append(" ]");
    text
}

} // verus!
