//! The errors found while resolving types, and how each is reported.

use vstd::prelude::*;
use crate::ast::Loc;
use crate::errors::{quotable, Detail, ErrorSink};
use crate::text::push_str;
use vstd::string::StringSliceAdditionalSpecFns;

verus! {

broadcast use vstd::string::group_string_axioms;

/// An error in a type annotation.
pub enum Error {
    Arbitrary { msg: String, loc: Loc },
    NoTypeParameters { loc: Loc },
    TooFewTypeParameters { msg: String, loc: Loc },
    TooManyTypeParameters { loc: Loc },
    TooManyMetaclassParameters { loc: Loc },
    MetaclassParameterMustBeCpath { loc: Loc },
    ConstantNotClassOrModule { loc: Loc },
    TypeParametersInNonGenericType { loc: Loc },
    CannotInstantiateInstanceType { self_: String, loc: Loc },
}

/// Where an error is.
pub open spec fn error_loc(e: Error) -> Loc {
    match e {
        Error::Arbitrary { loc, .. } => loc,
        Error::NoTypeParameters { loc } => loc,
        Error::TooFewTypeParameters { loc, .. } => loc,
        Error::TooManyTypeParameters { loc } => loc,
        Error::TooManyMetaclassParameters { loc } => loc,
        Error::MetaclassParameterMustBeCpath { loc } => loc,
        Error::ConstantNotClassOrModule { loc } => loc,
        Error::TypeParametersInNonGenericType { loc } => loc,
        Error::CannotInstantiateInstanceType { loc, .. } => loc,
    }
}

/// The message an error is reported with.
pub open spec fn error_message(e: Error) -> Seq<char> {
    match e {
        Error::Arbitrary { msg, .. } => msg@,
        Error::NoTypeParameters { .. } => "Type referenced is generic but no type parameters were supplied"@,
        Error::TooFewTypeParameters { .. } => "Too few type parameters supplied in instantiation of generic type"@,
        Error::TooManyTypeParameters { .. } => "Too many type parameters supplied in instantiation of generic type"@,
        Error::TooManyMetaclassParameters { .. } => "Too many type parameters supplied in instantiation of metaclass"@,
        Error::MetaclassParameterMustBeCpath { .. } => "Type parameter in metaclass must be constant path"@,
        Error::ConstantNotClassOrModule { .. } => "Constant does not reference class/module"@,
        Error::TypeParametersInNonGenericType { .. } => "Type parameters were supplied but type mentioned does not take any"@,
        Error::CannotInstantiateInstanceType { .. } => "Cannot instatiate instance type"@,
    }
}

/// What is said at the place of an error.
pub open spec fn error_note(e: Error) -> Seq<char> {
    match e {
        Error::TooFewTypeParameters { msg, .. } => msg@,
        Error::TooManyTypeParameters { .. } => "from here"@,
        Error::TooManyMetaclassParameters { .. } => "from here"@,
        Error::CannotInstantiateInstanceType { self_, .. } =>
            "self here is "@ + self_@ + ", which is not a Class"@,
        _ => "here"@,
    }
}

impl Error {
    /// Reports this error to `sink` as one error, with its message and a
    /// note at its place.
    pub fn emit<S: ErrorSink>(&self, sink: &mut S)
        requires
            old(sink).has_room(),
            quotable(error_loc(*self)),
        ensures
            exists|note: &str| note@ == error_note(*self)
                && #[trigger] old(sink).took_error(&*final(sink), error_message(*self), seq![Detail::Loc(note, &error_loc(*self))]),
    {
        let (message, note): (&str, String) = match self {
            Error::Arbitrary { msg, .. } => (msg.as_str(), "here".to_owned()),
            Error::NoTypeParameters { .. } =>
                ("Type referenced is generic but no type parameters were supplied", "here".to_owned()),
            Error::TooFewTypeParameters { msg, .. } =>
                ("Too few type parameters supplied in instantiation of generic type", msg.clone()),
            Error::TooManyTypeParameters { .. } =>
                ("Too many type parameters supplied in instantiation of generic type", "from here".to_owned()),
            Error::TooManyMetaclassParameters { .. } =>
                ("Too many type parameters supplied in instantiation of metaclass", "from here".to_owned()),
            Error::MetaclassParameterMustBeCpath { .. } =>
                ("Type parameter in metaclass must be constant path", "here".to_owned()),
            Error::ConstantNotClassOrModule { .. } =>
                ("Constant does not reference class/module", "here".to_owned()),
            Error::TypeParametersInNonGenericType { .. } =>
                ("Type parameters were supplied but type mentioned does not take any", "here".to_owned()),
            Error::CannotInstantiateInstanceType { self_, .. } => {
                let mut n = "self here is ".to_owned();
                push_str(&mut n, self_.as_str());
                push_str(&mut n, ", which is not a Class");
                ("Cannot instatiate instance type", n)
            },
        };
        let loc = match self {
            Error::Arbitrary { loc, .. } => loc,
            Error::NoTypeParameters { loc } => loc,
            Error::TooFewTypeParameters { loc, .. } => loc,
            Error::TooManyTypeParameters { loc } => loc,
            Error::TooManyMetaclassParameters { loc } => loc,
            Error::MetaclassParameterMustBeCpath { loc } => loc,
            Error::ConstantNotClassOrModule { loc } => loc,
            Error::TypeParametersInNonGenericType { loc } => loc,
            Error::CannotInstantiateInstanceType { loc, .. } => loc,
        };
        let note_str = note.as_str();
        let details = [Detail::Loc(note_str, loc)];
        assert(details@ == seq![Detail::Loc(note_str, loc)]);
        sink.error(message, &details);
        assert(old(sink).took_error(&*sink, error_message(*self), seq![Detail::Loc(note_str, &error_loc(*self))]));
    }
}

} // verus!
