//! Merges the information of the products of a GitHub owner: reads the
//! input list of products and base products, decides which of them must be
//! refreshed, and builds the full product information from what GitHub reports.

pub mod github;
pub mod json;
pub mod laws;
pub mod merger;
pub mod product;
pub mod text;
pub mod time;
pub mod updater;

pub use product::{BaseProduct, InputItem, License, Link, LinkSpec, Product, Release};

use vstd::prelude::*;
use vstd::string::*;

verus! {

broadcast use vstd::std_specs::vec::axiom_vec_index_decreases;

/// The errors of the library. The payloads are the texts of what went wrong:
/// the message of the outside error, or the path in question.
#[derive(Debug)]
pub enum Error {
    Array(Vec<Error>),
    Clap(String),
    Io(String),
    GitHub(String),
    Parse(String),
    Fatal(String),
    FileExists(String),
    FileNotFound(String),
}

/// The value of an [`Error`].
pub enum ErrorV {
    Array(Seq<ErrorV>),
    Clap(Seq<char>),
    Io(Seq<char>),
    GitHub(Seq<char>),
    Parse(Seq<char>),
    Fatal(Seq<char>),
    FileExists(Seq<char>),
    FileNotFound(Seq<char>),
}

impl View for Error {
    type V = ErrorV;

    open spec fn view(&self) -> ErrorV
        decreases self,
    {
        match self {
            Error::Array(v) => ErrorV::Array(
                Seq::new(
                    v.len() as nat,
                    |i: int| if 0 <= i < v.len() { v[i].view() } else { ErrorV::Array(Seq::empty()) },
                ),
            ),
            Error::Clap(s) => ErrorV::Clap(s@),
            Error::Io(s) => ErrorV::Io(s@),
            Error::GitHub(s) => ErrorV::GitHub(s@),
            Error::Parse(s) => ErrorV::Parse(s@),
            Error::Fatal(s) => ErrorV::Fatal(s@),
            Error::FileExists(s) => ErrorV::FileExists(s@),
            Error::FileNotFound(s) => ErrorV::FileNotFound(s@),
        }
    }
}

/// The values of a list of errors.
pub open spec fn errors_view(s: Seq<Error>) -> Seq<ErrorV> {
    Seq::new(s.len(), |i: int| s[i]@)
}

/// What [`Error::from`] makes of a list of errors: nothing when there is
/// none, the error itself when there is one, all of them otherwise.
pub open spec fn combined(errs: Seq<ErrorV>) -> Option<ErrorV> {
    if errs.len() == 0 {
        None
    } else if errs.len() == 1 {
        Some(errs[0])
    } else {
        Some(ErrorV::Array(errs))
    }
}

/// The value of an [`Error::Array`] is the list of the values of its errors.
pub proof fn lemma_array_error_view(v: Vec<Error>)
    ensures
        Error::Array(v)@ == ErrorV::Array(errors_view(v@)),
{
    let e = Error::Array(v);
    assert(e@->Array_0 =~= errors_view(v@));
}

/// The message of an error, as the command prints it.
pub open spec fn message_of(e: ErrorV) -> Seq<char>
    decreases e, 1nat,
{
    match e {
        ErrorV::Array(errs) => "multiple errors: "@ + lines_of(errs),
        ErrorV::Clap(m) => m,
        ErrorV::Io(m) => "io error: "@ + m,
        ErrorV::GitHub(m) => "github error: "@ + m,
        ErrorV::Parse(m) => "parse error: "@ + m,
        ErrorV::Fatal(m) => "fatal error: "@ + m,
        ErrorV::FileExists(p) => p + ": already exists"@,
        ErrorV::FileNotFound(p) => p + ": file not found"@,
    }
}

/// The messages of the errors, one ` - ` line each, joined by new lines.
pub open spec fn lines_of(errs: Seq<ErrorV>) -> Seq<char>
    decreases errs, 0nat,
{
    if errs.len() == 0 {
        Seq::empty()
    } else if errs.len() == 1 {
        " - "@ + message_of(errs[0])
    } else {
        lines_of(errs.subrange(0, errs.len() - 1)) + "\n - "@ + message_of(errs[errs.len() - 1])
    }
}

/// The messages of the errors, one ` - ` line each.
fn lines(errs: &Vec<Error>) -> (r: String)
    ensures
        r@ == lines_of(errors_view(errs@)),
    decreases errs, 0nat,
{
    let mut out = String::new();
    let mut i: usize = 0;
    while i < errs.len()
        invariant
            i <= errs.len(),
            out@ == lines_of(errors_view(errs@).subrange(0, i as int)),
        decreases errs.len() - i,
    {
        proof {
            assert(decreases_to!(*errs => errs[i as int]));
            let sub = errors_view(errs@).subrange(0, i + 1);
            assert(sub.subrange(0, sub.len() - 1) =~= errors_view(errs@).subrange(0, i as int));
            assert(sub[sub.len() - 1] == errs@[i as int]@);
            if i == 0 {
                assert(errors_view(errs@).subrange(0, 0) =~= Seq::<ErrorV>::empty());
            }
        }
        let m = errs[i].message();
        if i == 0 {
            out.append(" - ");
        } else {
            out.append("\n - ");
        }
        out.append(m.as_str());
        i = i + 1;
    }
    proof {
        assert(errors_view(errs@).subrange(0, errs.len() as int) =~= errors_view(errs@));
    }
    out
}

impl Error {
    /// The message of the error, as the command prints it.
    pub fn message(&self) -> (r: String)
        ensures
            r@ == message_of(self@),
        decreases self, 1nat,
    {
        match self {
            Error::Array(errs) => {
                proof {
                    lemma_array_error_view(*errs);
                }
                let mut out = String::from_str("multiple errors: ");
                let lines = lines(errs);
                out.append(lines.as_str());
                out
            },
            Error::Clap(m) => m.clone(),
            Error::Io(m) => {
                let mut out = String::from_str("io error: ");
                out.append(m.as_str());
                out
            },
            Error::GitHub(m) => {
                let mut out = String::from_str("github error: ");
                out.append(m.as_str());
                out
            },
            Error::Parse(m) => {
                let mut out = String::from_str("parse error: ");
                out.append(m.as_str());
                out
            },
            Error::Fatal(m) => {
                let mut out = String::from_str("fatal error: ");
                out.append(m.as_str());
                out
            },
            Error::FileExists(p) => {
                let mut out = p.clone();
                out.append(": already exists");
                out
            },
            Error::FileNotFound(p) => {
                let mut out = p.clone();
                out.append(": file not found");
                out
            },
        }
    }

    /// `ok` when there is no error, the error when there is one, and all of
    /// them as an [`Error::Array`] when there are more.
    pub fn from<T>(ok: T, arr: Vec<Error>) -> (r: Result<T, Error>)
        ensures
            arr.len() == 0 ==> r == Ok::<T, Error>(ok),
            arr.len() == 1 ==> r == Err::<T, Error>(arr[0]),
            arr.len() > 1 ==> r == Err::<T, Error>(Error::Array(arr)),
            match r {
                Ok(_) => combined(errors_view(arr@)) is None,
                Err(e) => combined(errors_view(arr@)) == Some(e@),
            },
    {
        if arr.len() == 0 {
            Ok(ok)
        } else if arr.len() == 1 {
            let mut arr = arr;
            let e = arr.remove(0);
            Err(e)
        } else {
            proof {
                lemma_array_error_view(arr);
                assert(errors_view(arr@).len() == arr.len());
            }
            Err(Error::Array(arr))
        }
    }
}

} // verus!
