//! What can go wrong with a watcher.

use vstd::prelude::*;

use crate::path::FsPath;

verus! {

use crate::event::view_paths;

/// `std::io::Error`, carried along as it came. Nothing is claimed of what is inside.
#[verifier::external_type_specification]
#[verifier::external_body]
pub struct ExIoError(std::io::Error);

/// What went wrong.
#[derive(Debug)]
pub enum ErrorKind {
    /// Something that only its description tells.
    Generic(String),
    /// The operating system refused.
    Io(std::io::Error),
    /// The path to be watched does not exist.
    PathNotFound,
    /// The path to be forgotten was not watched.
    WatchNotFound,
}

/// An error of a watcher.
#[derive(Debug)]
pub struct Error {
    pub kind: ErrorKind,
    /// The paths that it is about, as far as they are known.
    pub paths: Vec<FsPath>,
}

/// The contents of an [`ErrorKind`].
pub enum ErrorKindView {
    Generic(Seq<char>),
    Io(std::io::Error),
    PathNotFound,
    WatchNotFound,
}

/// The contents of an [`Error`].
#[verifier::ext_equal]
pub struct ErrorView {
    pub kind: ErrorKindView,
    pub paths: Seq<Seq<u8>>,
}

impl View for ErrorKind {
    type V = ErrorKindView;

    open spec fn view(&self) -> ErrorKindView {
        match self {
            ErrorKind::Generic(text) => ErrorKindView::Generic(text@),
            ErrorKind::Io(error) => ErrorKindView::Io(*error),
            ErrorKind::PathNotFound => ErrorKindView::PathNotFound,
            ErrorKind::WatchNotFound => ErrorKindView::WatchNotFound,
        }
    }
}

impl View for Error {
    type V = ErrorView;

    open spec fn view(&self) -> ErrorView {
        ErrorView { kind: self.kind@, paths: view_paths(self.paths@) }
    }
}

impl ErrorView {
    /// An error about no path in particular.
    pub open spec fn of(kind: ErrorKindView) -> ErrorView {
        ErrorView { kind, paths: Seq::<Seq<u8>>::empty() }
    }

    pub open spec fn with_path(self, path: Seq<u8>) -> ErrorView {
        ErrorView { paths: self.paths.push(path), ..self }
    }
}

/// What an operation on a watcher returns, by its contents.
pub open spec fn view_result(result: Result<(), Error>) -> Result<(), ErrorView> {
    match result {
        Ok(done) => Ok(done),
        Err(error) => Err(error@),
    }
}

impl Error {
    fn new(kind: ErrorKind) -> (error: Error)
        ensures
            error@ == ErrorView::of(kind@),
    {
        let paths: Vec<FsPath> = Vec::new();
        assert(view_paths(paths@) =~= Seq::<Seq<u8>>::empty());
        Error { kind, paths }
    }

    /// An error that only its description tells.
    pub fn generic(text: &str) -> (error: Error)
        ensures
            error@ == ErrorView::of(ErrorKindView::Generic(text@)),
    {
        Error::new(ErrorKind::Generic(text.to_owned()))
    }

    /// A refusal by the operating system.
    pub fn io(error: std::io::Error) -> (wrapped: Error)
        ensures
            wrapped@ == ErrorView::of(ErrorKindView::Io(error)),
    {
        Error::new(ErrorKind::Io(error))
    }

    /// The path to be watched does not exist.
    pub fn path_not_found() -> (error: Error)
        ensures
            error@ == ErrorView::of(ErrorKindView::PathNotFound),
    {
        Error::new(ErrorKind::PathNotFound)
    }

    /// The path to be forgotten was not watched.
    pub fn watch_not_found() -> (error: Error)
        ensures
            error@ == ErrorView::of(ErrorKindView::WatchNotFound),
    {
        Error::new(ErrorKind::WatchNotFound)
    }

    /// The error with `path` behind its paths.
    pub fn add_path(self, path: FsPath) -> (error: Error)
        ensures
            error@ == self@.with_path(path@),
    {
        let mut error = self;
        error.paths.push(path);
        assert(view_paths(error.paths@) =~= self@.paths.push(path@));
        error
    }
}

/// Nothing of an error is left out of its contents, and nothing is added to it.
pub proof fn law_error_contents(error: Error, i: int)
    ensures
        match error.kind {
            ErrorKind::Generic(text) => error@.kind == ErrorKindView::Generic(text@),
            ErrorKind::Io(io) => error@.kind == ErrorKindView::Io(io),
            ErrorKind::PathNotFound => error@.kind == ErrorKindView::PathNotFound,
            ErrorKind::WatchNotFound => error@.kind == ErrorKindView::WatchNotFound,
        },
        error@.paths.len() == error.paths@.len(),
        0 <= i < error.paths@.len() ==> error@.paths[i] == error.paths@[i].bytes@,
        view_result(Err(error)) == Err::<(), ErrorView>(error@),
        view_result(Ok(())) == Ok::<(), ErrorView>(()),
{
}

/// A new error is about no path, and to add one changes nothing else.
pub proof fn law_built_errors(kind: ErrorKindView, error: ErrorView, path: Seq<u8>)
    ensures
        ErrorView::of(kind) == (ErrorView { kind, paths: Seq::<Seq<u8>>::empty() }),
        error.with_path(path) == (ErrorView { kind: error.kind, paths: error.paths + seq![path] }),
{
    assert(error.with_path(path).paths =~= error.paths + seq![path]);
}

} // verus!
