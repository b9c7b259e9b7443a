//! Relative paths: the owned `RelPathBuf` and the borrowed `RelPath`.
use crate::utf8::{is_absolute_path, path_eq, utf8_eq, utf8_hash, utf8_is_relative, utf8_to_path_buf};
use vstd::prelude::*;
use vstd::std_specs::cmp::PartialEqSpecImpl;
use vstd::std_specs::convert::TryFromSpecImpl;

verus! {

/// An owned UTF-8 path that is always relative.
#[derive(Debug, Eq)]
pub struct RelPathBuf {
    path: String,
}

impl RelPathBuf {
    #[verifier::type_invariant]
    spec fn is_relative(self) -> bool {
        !is_absolute_path(self.path@)
    }
}

impl View for RelPathBuf {
    type V = Seq<char>;

    /// The text of the path.
    closed spec fn view(&self) -> Seq<char> {
        self.path@
    }
}

impl TryFrom<String> for RelPathBuf {
    type Error = String;

    /// Wraps `path` where it is relative, else hands it back.
    fn try_from(path: String) -> (res: Result<RelPathBuf, String>)
        ensures
            match res {
                Ok(p) => !is_absolute_path(path@) && p@ == path@,
                Err(e) => is_absolute_path(path@) && e == path,
            },
    {
        if utf8_is_relative(path.as_str()) {
            Ok(RelPathBuf { path })
        } else {
            Err(path)
        }
    }
}

impl TryFromSpecImpl<String> for RelPathBuf {
    open spec fn obeys_try_from_spec() -> bool {
        true
    }

    closed spec fn try_from_spec(path: String) -> Result<RelPathBuf, String> {
        if !is_absolute_path(path@) {
            Ok(RelPathBuf { path })
        } else {
            Err(path)
        }
    }
}

impl Clone for RelPathBuf {
    /// A copy of the path.
    fn clone(&self) -> (res: RelPathBuf)
        ensures
            res@ == self@,
    {
        proof {
            use_type_invariant(self);
        }
        RelPathBuf { path: self.path.clone() }
    }
}

impl PartialEq for RelPathBuf {
    /// Whether the two paths are equal as `camino` compares them.
    fn eq(&self, other: &Self) -> (eq: bool)
        ensures
            eq == path_eq(self@, other@),
            self@ == other@ ==> eq,
    {
        utf8_eq(self.path.as_str(), other.path.as_str())
    }
}

impl core::hash::Hash for RelPathBuf {
    /// Hashes the path as `camino` does, consistently with `==`.
    fn hash<H: core::hash::Hasher>(&self, state: &mut H) {
        utf8_hash(self.path.as_str(), state)
    }
}

impl PartialEqSpecImpl for RelPathBuf {
    open spec fn obeys_eq_spec() -> bool {
        true
    }

    open spec fn eq_spec(&self, other: &Self) -> bool {
        path_eq(self@, other@)
    }
}

impl RelPathBuf {
    /// The path as a borrowed `RelPath`.
    pub fn as_path(&self) -> (res: RelPath<'_>)
        ensures
            res@ == self@,
            !is_absolute_path(self@),
    {
        proof {
            use_type_invariant(self);
        }
        RelPath { path: self.path.as_str() }
    }

    /// Wraps the relative path `path`.
    pub fn assert_relative(path: String) -> (res: RelPathBuf)
        requires
            !is_absolute_path(path@),
        ensures
            res@ == path@,
    {
        RelPathBuf { path }
    }

    /// Wraps a copy of the relative path `path`.
    pub fn assert_str(path: &str) -> (res: RelPathBuf)
        requires
            !is_absolute_path(path@),
        ensures
            res@ == path@,
    {
        RelPathBuf { path: path.to_owned() }
    }

    /// The text of the path.
    pub fn as_str(&self) -> (s: &str)
        ensures
            s@ == self@,
            !is_absolute_path(s@),
    {
        proof {
            use_type_invariant(self);
        }
        self.path.as_str()
    }
}

/// A borrowed UTF-8 path, meant to be relative; the constructors leave that
/// to the caller.
#[derive(Debug, Clone, Copy, Eq)]
pub struct RelPath<'a> {
    path: &'a str,
}

impl<'a> View for RelPath<'a> {
    type V = Seq<char>;

    /// The text of the path.
    closed spec fn view(&self) -> Seq<char> {
        self.path@
    }
}

impl<'a> PartialEq for RelPath<'a> {
    /// Whether the two paths are equal as `camino` compares them.
    fn eq(&self, other: &Self) -> (eq: bool)
        ensures
            eq == path_eq(self@, other@),
            self@ == other@ ==> eq,
    {
        utf8_eq(self.path, other.path)
    }
}

impl<'a> core::hash::Hash for RelPath<'a> {
    /// Hashes the path as `camino` does, consistently with `==`.
    fn hash<H: core::hash::Hasher>(&self, state: &mut H) {
        utf8_hash(self.path, state)
    }
}

impl<'a> PartialEqSpecImpl for RelPath<'a> {
    open spec fn obeys_eq_spec() -> bool {
        true
    }

    open spec fn eq_spec(&self, other: &Self) -> bool {
        path_eq(self@, other@)
    }
}

impl<'a> RelPath<'a> {
    /// Views `path` as a `RelPath` without checking that it is relative.
    pub fn new_unchecked(path: &'a str) -> (res: RelPath<'a>)
        ensures
            res@ == path@,
    {
        RelPath { path }
    }

    /// Views `path` as a `RelPath` without checking that it is relative.
    pub fn new_unchecked_from_str(path: &'a str) -> (res: RelPath<'a>)
        ensures
            res@ == path@,
    {
        RelPath { path }
    }

    /// An owned copy of the path, which must be relative.
    pub fn to_path_buf(&self) -> (res: RelPathBuf)
        requires
            !is_absolute_path(self@),
        ensures
            res@ == self@,
    {
        RelPathBuf { path: utf8_to_path_buf(self.path) }
    }

    /// The text of the path.
    pub fn as_str(&self) -> (s: &'a str)
        ensures
            s@ == self@,
    {
        self.path
    }
}

} // verus!
