use vstd::prelude::*;
use vstd::string::StringExecFns;

verus! {

/// Why a value could not be decoded.
#[derive(Clone, Copy, Debug, PartialEq, Eq, Structural)]
pub enum ErrorKind {
    /// The key of a required field is absent.
    MissingField,
    /// A field is present, but its value has not the shape of the field's type.
    TypeMismatch,
    /// The value of a layout property has none of the three accepted shapes.
    UnrecognizedShape,
    /// The input is not well formed: text that does not parse, or an object
    /// that gives one field twice.
    MalformedInput,
}

/// A failure to decode, with the keys that lead from the decoded value to
/// the offending field, outermost first.
#[derive(Debug, PartialEq, Eq)]
pub struct DecodeError {
    pub kind: ErrorKind,
    pub path: Vec<String>,
}

/// The mathematical reading of a [`DecodeError`].
pub struct ErrorModel {
    pub kind: ErrorKind,
    pub path: Seq<Seq<char>>,
}

/// The texts of a list of strings.
pub open spec fn texts(list: Seq<String>) -> Seq<Seq<char>> {
    Seq::new(list.len(), |i: int| list[i]@)
}

impl ErrorModel {
    /// A failure of the decoded value itself.
    pub open spec fn at_root(kind: ErrorKind) -> ErrorModel {
        ErrorModel { kind, path: Seq::empty() }
    }

    /// A failure of the field `key` of the decoded value.
    pub open spec fn at(kind: ErrorKind, key: Seq<char>) -> ErrorModel {
        ErrorModel { kind, path: seq![key] }
    }

    /// The same failure, seen from the value that holds the failed one
    /// under `key`.
    pub open spec fn under(self, key: Seq<char>) -> ErrorModel {
        ErrorModel { kind: self.kind, path: seq![key] + self.path }
    }
}

impl View for DecodeError {
    type V = ErrorModel;

    open spec fn view(&self) -> ErrorModel {
        ErrorModel { kind: self.kind, path: texts(self.path@) }
    }
}

impl DecodeError {
    /// A failure of the decoded value itself.
    pub fn at_root(kind: ErrorKind) -> (error: DecodeError)
        ensures
            error@ == ErrorModel::at_root(kind),
    {
        let error = DecodeError { kind, path: Vec::new() };
        assert(error@.path =~= Seq::empty());
        error
    }

    /// A failure of the field `key` of the decoded value.
    pub fn at(kind: ErrorKind, key: String) -> (error: DecodeError)
        ensures
            error@ == ErrorModel::at(kind, key@),
    {
        let mut path: Vec<String> = Vec::new();
        path.push(key);
        let error = DecodeError { kind, path };
        assert(error@.path =~= seq![key@]);
        error
    }

    /// The same failure, seen from the value that holds the failed one
    /// under `key`.
    pub fn under(self, key: String) -> (error: DecodeError)
        ensures
            error@ == self@.under(key@),
    {
        let mut path = self.path;
        path.insert(0, key);
        let error = DecodeError { kind: self.kind, path };
        assert(error@.path =~= seq![key@] + self@.path);
        error
    }

    /// The path as one text, its keys joined by dots.
    pub fn path_text(&self) -> (text: String)
        ensures
            text@ == dotted(self@.path),
    {
        let mut text = String::new();
        let mut i: usize = 0;
        while i < self.path.len()
            invariant
                i <= self.path.len(),
                text@ == dotted(self@.path.take(i as int)),
            decreases self.path.len() - i,
        {
            let ghost before = self@.path.take(i as int);
            if i > 0 {
                text.push('.');
            }
            text.append(self.path[i].as_str());
            i = i + 1;
            proof {
                let now = self@.path.take(i as int);
                assert(now.drop_last() =~= before);
                assert(now.last() == self.path[i - 1]@);
            }
        }
        assert(self@.path.take(self.path.len() as int) =~= self@.path);
        text
    }
}

/// The keys of a path joined by dots.
pub open spec fn dotted(path: Seq<Seq<char>>) -> Seq<char>
    decreases path.len(),
{
    if path.len() == 0 {
        Seq::empty()
    } else if path.len() == 1 {
        path[0]
    } else {
        dotted(path.drop_last()) + seq!['.'] + path.last()
    }
}

} // verus!
