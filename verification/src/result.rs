//! The error taxonomy shared by every client, and the result type that may
//! carry a rescued value next to errors, never neither.

use std::sync::Arc;
use vstd::prelude::*;

verus! {

/// The standard error kinds a client implementation should facilitate.
#[derive(Debug, Clone, Copy, PartialEq, Eq, Hash, Structural)]
pub enum ClientErrorKind {
    /// The network connection could not be established properly or was lost.
    Network,
    /// The connection could be established, but the remote server/peer gave
    /// us an error.
    Response,
    /// The remote server/peer returned a successful response, but its content
    /// could not be parsed.
    Format,
    /// A kind of error that is not contemplated at the client layer.
    Unknown,
}

impl ClientErrorKind {
    /// A short human readable label for this error kind.
    pub fn to_human_readable(&self) -> (r: &str)
        ensures
            r@ == match *self {
                ClientErrorKind::Network => "Network error"@,
                ClientErrorKind::Response => "Remote error"@,
                ClientErrorKind::Format => "Format error"@,
                ClientErrorKind::Unknown => "Unknown error"@,
            },
    {
        match self {
            ClientErrorKind::Network => "Network error",
            ClientErrorKind::Response => "Remote error",
            ClientErrorKind::Format => "Format error",
            ClientErrorKind::Unknown => "Unknown error",
        }
    }
}

/// The mathematical content of a [`ClientError`]: its kind, its message and
/// the rendered underlying cause, if one was attached.
pub ghost struct ClientErrorView {
    pub kind: ClientErrorKind,
    pub message: Seq<char>,
    pub source: Option<Seq<char>>,
}

/// Standard error returned from client operations.
///
/// The underlying cause, when present, is kept behind a shared handle so that
/// the same cause may be wrapped into several reported errors without copies.
#[derive(Debug)]
pub struct ClientError {
    kind: ClientErrorKind,
    message: String,
    source: Option<Arc<String>>,
}

impl View for ClientError {
    type V = ClientErrorView;

    closed spec fn view(&self) -> ClientErrorView {
        ClientErrorView {
            kind: self.kind,
            message: self.message@,
            source: match self.source {
                Some(s) => Some(s@),
                None => None,
            },
        }
    }
}

/// Relies on `Arc::clone`: the result is a handle to the same value.
#[verifier::external_body]
fn share_source(source: &Arc<String>) -> (r: Arc<String>)
    ensures
        r == *source,
{
    Arc::clone(source)
}

impl Clone for ClientError {
    fn clone(&self) -> (r: Self)
        ensures
            r@ == self@,
    {
        ClientError {
            kind: self.kind,
            message: self.message.clone(),
            source: match &self.source {
                Some(s) => Some(share_source(s)),
                None => None,
            },
        }
    }
}

impl ClientError {
    /// Construct a simple client error without source.
    ///
    /// If there is an underlying cause to record, use
    /// [`ClientError::new_with_source`] instead.
    pub fn new(kind: ClientErrorKind, message: String) -> (r: Self)
        ensures
            r@.kind == kind,
            r@.message == message@,
            r@.source is None,
    {
        ClientError { kind, message, source: None }
    }

    /// Construct a client error recording a rendered underlying cause.
    pub fn new_with_source(kind: ClientErrorKind, message: String, source: Option<Arc<String>>) -> (r: Self)
        ensures
            r@.kind == kind,
            r@.message == message@,
            r@.source == match source {
                Some(s) => Some(s@),
                None => None::<Seq<char>>,
            },
    {
        ClientError { kind, message, source }
    }

    /// Error kind accessor.
    pub fn kind(&self) -> (r: ClientErrorKind)
        ensures
            r == self@.kind,
    {
        self.kind
    }

    /// Error message accessor.
    pub fn message(&self) -> (r: &str)
        ensures
            r@ == self@.message,
    {
        self.message.as_str()
    }
}

/// The mathematical content of a [`ClientResult`]: the rescued value, if any,
/// and the reported errors.
pub ghost struct ClientResultView<T> {
    pub value: Option<T>,
    pub errors: Seq<ClientErrorView>,
}

/// The views of a list of errors.
pub open spec fn errors_view(errors: Seq<ClientError>) -> Seq<ClientErrorView> {
    errors.map_values(|e: ClientError| e@)
}

/// The single substitute error reported when an empty error list is handed to
/// [`ClientResult::new_err`] or [`ClientResult::new_ok_and_err`].
pub open spec fn default_unknown_error() -> ClientErrorView {
    ClientErrorView {
        kind: ClientErrorKind::Unknown,
        message: "An error ocurred, but no details were provided."@,
        source: None,
    }
}

/// The outcome of a client operation.
///
/// Different from the standard `Result`, this one may contain more than one
/// error, and even when an error occurs there may still be a value to rescue.
///
/// It would be a mistake for this to contain no value and no errors at the
/// same time. That is taken care of at creation time by every constructor
/// except [`ClientResult::new_unchecked`].
#[derive(Debug)]
#[must_use]
pub struct ClientResult<T> {
    errors: Vec<ClientError>,
    value: Option<T>,
}

impl<T> View for ClientResult<T> {
    type V = ClientResultView<T>;

    closed spec fn view(&self) -> ClientResultView<T> {
        ClientResultView { value: self.value, errors: errors_view(self.errors@) }
    }
}

impl<T> ClientResult<T> {
    /// Creates a result containing a successful value and no errors.
    pub fn new_ok(value: T) -> (r: Self)
        ensures
            r@.value == Some(value),
            r@.errors.len() == 0,
            r@.value is Some || r@.errors.len() > 0,
    {
        let r = ClientResult { errors: Vec::new(), value: Some(value) };
        proof {
            assert(r@.errors =~= Seq::<ClientErrorView>::empty());
        }
        r
    }

    /// Creates a result containing errors and no value to rescue.
    ///
    /// The errors list should be non-empty. If it is empty, one default
    /// `Unknown` error is substituted, so an instance with neither a value
    /// nor errors can never come out of here.
    pub fn new_err(errors: Vec<ClientError>) -> (r: Self)
        ensures
            r@.value is None,
            errors@.len() > 0 ==> r@.errors == errors_view(errors@),
            errors@.len() == 0 ==> r@.errors == seq![default_unknown_error()],
            r@.errors.len() > 0,
            r@.value is Some || r@.errors.len() > 0,
    {
        let errors = if errors.is_empty() {
            let mut substitute: Vec<ClientError> = Vec::new();
            substitute.push(ClientError::new(
                ClientErrorKind::Unknown,
                String::from_str("An error ocurred, but no details were provided."),
            ));
            substitute
        } else {
            errors
        };
        let r = ClientResult { errors, value: None };
        proof {
            if errors@.len() == 0 {
                assert(r@.errors =~= seq![default_unknown_error()]);
            }
        }
        r
    }

    /// Creates a result containing errors and a value to rescue.
    ///
    /// This is meant for partial successes, where some value was produced
    /// before errors were met. As with [`ClientResult::new_err`], an empty
    /// errors list is replaced by one default `Unknown` error.
    pub fn new_ok_and_err(value: T, errors: Vec<ClientError>) -> (r: Self)
        ensures
            r@.value == Some(value),
            errors@.len() > 0 ==> r@.errors == errors_view(errors@),
            errors@.len() == 0 ==> r@.errors == seq![default_unknown_error()],
            r@.errors.len() > 0,
            r@.value is Some || r@.errors.len() > 0,
    {
        let errors = if errors.is_empty() {
            let mut substitute: Vec<ClientError> = Vec::new();
            substitute.push(ClientError::new(
                ClientErrorKind::Unknown,
                String::from_str("An error ocurred, but no details were provided."),
            ));
            substitute
        } else {
            errors
        };
        let r = ClientResult { errors, value: Some(value) };
        proof {
            if errors@.len() == 0 {
                assert(r@.errors =~= seq![default_unknown_error()]);
            }
        }
        r
    }

    /// Returns the successful value if there is one.
    pub fn value(&self) -> (r: Option<&T>)
        ensures
            match r {
                Some(v) => self@.value == Some(*v),
                None => self@.value is None,
            },
    {
        self.value.as_ref()
    }

    /// Returns the errors list.
    pub fn errors(&self) -> (r: &[ClientError])
        ensures
            errors_view(r@) == self@.errors,
    {
        self.errors.as_slice()
    }

    /// Returns the successful value and the errors list.
    pub fn value_and_errors(&self) -> (r: (Option<&T>, &[ClientError]))
        ensures
            match r.0 {
                Some(v) => self@.value == Some(*v),
                None => self@.value is None,
            },
            errors_view(r.1@) == self@.errors,
    {
        (self.value.as_ref(), self.errors.as_slice())
    }

    /// Creates a result with the given value and errors without checking the
    /// invariant of having at least one of them.
    ///
    /// Warning: the main purpose of this is to reconstruct results from
    /// already existing ones that are known to be valid. Using it without
    /// caution may lead to invalid states.
    pub fn new_unchecked(value: Option<T>, errors: Vec<ClientError>) -> (r: Self)
        ensures
            r@.value == value,
            r@.errors == errors_view(errors@),
    {
        ClientResult { value, errors }
    }

    /// Maps the successful value to another value, cloning the errors list.
    pub fn map_value<U, F: FnOnce(&T) -> U>(&self, f: F) -> (r: ClientResult<U>)
        requires
            forall|v: &T| self@.value == Some(*v) ==> f.requires((v,)),
        ensures
            r@.errors == self@.errors,
            self@.value is None ==> r@.value is None,
            self@.value matches Some(v) ==> (r@.value matches Some(u) && f.ensures((&v,), u)),
    {
        let value = match self.value.as_ref() {
            Some(v) => Some(f(v)),
            None => None,
        };
        let errors = clone_errors(&self.errors);
        ClientResult::new_unchecked(value, errors)
    }

    /// Returns true if there is a successful value.
    pub fn has_value(&self) -> (r: bool)
        ensures
            r == (self@.value is Some),
    {
        self.value.is_some()
    }

    /// Returns true if there are errors.
    pub fn has_errors(&self) -> (r: bool)
        ensures
            r == (self@.errors.len() > 0),
    {
        !self.errors.is_empty()
    }

    /// Consume the result and return the successful value if there is one.
    pub fn into_value(self) -> (r: Option<T>)
        ensures
            r == self@.value,
    {
        self.value
    }

    /// Consume the result and return the errors list.
    pub fn into_errors(self) -> (r: Vec<ClientError>)
        ensures
            errors_view(r@) == self@.errors,
    {
        self.errors
    }

    /// Consume the result and return the successful value and the errors list.
    pub fn into_value_and_errors(self) -> (r: (Option<T>, Vec<ClientError>))
        ensures
            r.0 == self@.value,
            errors_view(r.1@) == self@.errors,
    {
        (self.value, self.errors)
    }

    /// Consume the result to convert it into a standard `Result`.
    ///
    /// An instance built through [`ClientResult::new_unchecked`] with neither
    /// a value nor errors is a programmer error and is ruled out here.
    pub fn into_result(self) -> (r: Result<T, Vec<ClientError>>)
        requires
            self@.value is Some || self@.errors.len() > 0,
        ensures
            match r {
                Ok(v) => self@.errors.len() == 0 && self@.value == Some(v),
                Err(errors) => self@.errors.len() > 0 && errors_view(errors@) == self@.errors,
            },
    {
        if self.errors.is_empty() {
            match self.value {
                Some(v) => Ok(v),
                None => vstd::pervasive::unreached(),
            }
        } else {
            Err(self.errors)
        }
    }
}

/// Clones a list of errors, keeping the content of each.
fn clone_errors(errors: &Vec<ClientError>) -> (r: Vec<ClientError>)
    ensures
        errors_view(r@) == errors_view(errors@),
{
    let r = errors.clone();
    proof {
        assert(errors_view(r@) =~= errors_view(errors@)) by {
            assert(forall|i: int| 0 <= i < r@.len() ==> r@[i]@ == #[trigger] errors@[i]@) by {
                assert(forall|i: int| 0 <= i < r@.len() ==> cloned::<ClientError>(errors@[i], #[trigger] r@[i]));
            }
        }
    }
    r
}

} // verus!
