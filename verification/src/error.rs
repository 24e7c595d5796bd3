//! The error that every fallible operation of the library returns.
use vstd::prelude::*;

verus! {

/// Where an error occurred.
#[derive(Clone, Copy, Debug, PartialEq, Eq, Structural)]
pub enum GenErrorType {
    /// While reading an expression or a template.
    Parser,
    /// While handing a document to an output.
    Sender,
    /// While building or running a generator.
    Generator,
    /// Nowhere in particular.
    Common,
}

/// What went wrong.
#[derive(Clone, Copy, Debug, PartialEq, Eq, Structural)]
pub enum GenErrorKind {
    /// The text is not an expression of the grammar.
    Syntax,
    /// The expression calls a function that the catalogue does not hold.
    UnknownFunction,
    /// The function is known, but cannot be built from these arguments.
    InvalidArguments,
    /// A list of values could not be loaded: the file is not available, or
    /// one of its entries does not read as the element type.
    Construction,
    /// The right-hand side of `->` cannot take a generator in.
    Unsupported,
    /// A marked field of a template holds something other than a string.
    GeneratorMustBeString,
    /// The template is not a JSON document.
    Json,
    /// Anything else.
    Other,
}

/// An error with its cause in words, the place it occurred and its kind.
#[derive(Debug)]
pub struct GenError {
    pub reason: String,
    pub tpe: GenErrorType,
    pub kind: GenErrorKind,
}

/// The name under which a place is printed.
pub open spec fn place_name(tpe: GenErrorType) -> Seq<char> {
    match tpe {
        GenErrorType::Parser => "Parser"@,
        GenErrorType::Sender => "Sender"@,
        GenErrorType::Generator => "Generator"@,
        GenErrorType::Common => "Common"@,
    }
}

/// The one-line description of an error with the given cause and place.
pub open spec fn error_text(reason: Seq<char>, tpe: GenErrorType) -> Seq<char> {
    "error while parsing a generator func, reason: "@ + reason + " and type: "@ + place_name(tpe)
}

impl GenError {
    /// An error of no particular place.
    pub fn new_with(reason: &str) -> (e: Self)
        ensures
            e.reason@ == reason@,
            e.tpe == GenErrorType::Common,
            e.kind == GenErrorKind::Other,
    {
        GenError { reason: String::from_str(reason), tpe: GenErrorType::Common, kind: GenErrorKind::Other }
    }

    /// An error that occurred while parsing.
    pub fn new_with_in_parser(reason: &str) -> (e: Self)
        ensures
            e.reason@ == reason@,
            e.tpe == GenErrorType::Parser,
            e.kind == GenErrorKind::Other,
    {
        GenError { reason: String::from_str(reason), tpe: GenErrorType::Parser, kind: GenErrorKind::Other }
    }

    /// An error that occurred in an output.
    pub fn new_with_in_sender(reason: &str) -> (e: Self)
        ensures
            e.reason@ == reason@,
            e.tpe == GenErrorType::Sender,
            e.kind == GenErrorKind::Other,
    {
        GenError { reason: String::from_str(reason), tpe: GenErrorType::Sender, kind: GenErrorKind::Other }
    }

    /// An error that occurred in a generator.
    pub fn new_with_in_generator(reason: &str) -> (e: Self)
        ensures
            e.reason@ == reason@,
            e.tpe == GenErrorType::Generator,
            e.kind == GenErrorKind::Other,
    {
        GenError { reason: String::from_str(reason), tpe: GenErrorType::Generator, kind: GenErrorKind::Other }
    }

    /// An error of the given kind and place whose cause is `what` followed by
    /// the text it is about.
    pub fn of_kind(kind: GenErrorKind, tpe: GenErrorType, what: &str, about: &str) -> (e: Self)
        ensures
            e.reason@ == what@ + about@,
            e.tpe == tpe,
            e.kind == kind,
    {
        let mut reason = String::from_str(what);
        reason.append(about);
        GenError { reason, tpe, kind }
    }

    /// The same error, seen as one of another kind.
    pub fn with_kind(self, kind: GenErrorKind) -> (e: Self)
        ensures
            e.reason@ == self.reason@,
            e.tpe == self.tpe,
            e.kind == kind,
    {
        GenError { reason: self.reason, tpe: self.tpe, kind }
    }

    /// The cause, in words.
    pub fn reason(&self) -> (r: &str)
        ensures
            r@ == self.reason@,
    {
        self.reason.as_str()
    }

    /// The place.
    pub fn tpe(&self) -> (t: GenErrorType)
        ensures
            t == self.tpe,
    {
        self.tpe
    }

    /// The kind.
    pub fn kind(&self) -> (k: GenErrorKind)
        ensures
            k == self.kind,
    {
        self.kind
    }

    /// The error in one line: its cause and its place.
    pub fn to_string(&self) -> (s: String)
        ensures
            s@ == error_text(self.reason@, self.tpe),
    {
        let mut s = String::from_str("error while parsing a generator func, reason: ");
        s.append(self.reason.as_str());
        s.append(" and type: ");
        match self.tpe {
            GenErrorType::Parser => s.append("Parser"),
            GenErrorType::Sender => s.append("Sender"),
            GenErrorType::Generator => s.append("Generator"),
            GenErrorType::Common => s.append("Common"),
        }
        s
    }
}

} // verus!
