//! Absolute paths: the owned `AbsPathBuf` and the borrowed `AbsPath`.
use crate::normalize::{normal_components, normalize_path, normalized};
use crate::rel_path::RelPath;
use crate::utf8::{
    component_views, is_absolute_path, last_dot, lemma_last_dot, opt_str_view, path_components,
    path_ends_with, path_eq, path_extension, path_file_name, path_file_stem, path_parent,
    path_push, path_strip_prefix, path_with_extension, utf8_components, utf8_ends_with, utf8_eq,
    utf8_hash,
    utf8_extension, utf8_file_name, utf8_file_stem, utf8_is_absolute, utf8_join, utf8_parent,
    utf8_pop, utf8_push, utf8_set_extension, utf8_starts_with, utf8_strip_prefix,
    utf8_to_path_buf, utf8_with_extension, starts_with_cur_dir, ComponentKind, PathComponent,
    is_segment, segment_view, lemma_push, path_starts_with,
};
use vstd::prelude::*;
use vstd::std_specs::cmp::PartialEqSpecImpl;
use vstd::std_specs::convert::TryFromSpecImpl;

verus! {

/// An owned UTF-8 path that is always absolute.
#[derive(Debug, Eq)]
pub struct AbsPathBuf {
    path: String,
}

impl AbsPathBuf {
    #[verifier::type_invariant]
    spec fn is_absolute(self) -> bool {
        is_absolute_path(self.path@)
    }
}

impl View for AbsPathBuf {
    type V = Seq<char>;

    /// The text of the path.
    closed spec fn view(&self) -> Seq<char> {
        self.path@
    }
}

impl TryFrom<String> for AbsPathBuf {
    type Error = String;

    /// Wraps `path` where it is absolute, else hands it back.
    fn try_from(path: String) -> (res: Result<AbsPathBuf, String>)
        ensures
            match res {
                Ok(p) => is_absolute_path(path@) && p@ == path@,
                Err(e) => !is_absolute_path(path@) && e == path,
            },
    {
        if utf8_is_absolute(path.as_str()) {
            Ok(AbsPathBuf { path })
        } else {
            Err(path)
        }
    }
}

impl TryFromSpecImpl<String> for AbsPathBuf {
    open spec fn obeys_try_from_spec() -> bool {
        true
    }

    closed spec fn try_from_spec(path: String) -> Result<AbsPathBuf, String> {
        if is_absolute_path(path@) {
            Ok(AbsPathBuf { path })
        } else {
            Err(path)
        }
    }
}

impl Clone for AbsPathBuf {
    /// A copy of the path.
    fn clone(&self) -> (res: AbsPathBuf)
        ensures
            res@ == self@,
    {
        proof {
            use_type_invariant(self);
        }
        AbsPathBuf { path: self.path.clone() }
    }
}

impl PartialEq for AbsPathBuf {
    /// Whether the two paths are equal as `camino` compares them.
    fn eq(&self, other: &Self) -> (eq: bool)
        ensures
            eq == path_eq(self@, other@),
            self@ == other@ ==> eq,
    {
        utf8_eq(self.path.as_str(), other.path.as_str())
    }
}

impl core::hash::Hash for AbsPathBuf {
    /// Hashes the path as `camino` does, consistently with `==`.
    fn hash<H: core::hash::Hasher>(&self, state: &mut H) {
        utf8_hash(self.path.as_str(), state)
    }
}

impl PartialEqSpecImpl for AbsPathBuf {
    open spec fn obeys_eq_spec() -> bool {
        true
    }

    open spec fn eq_spec(&self, other: &Self) -> bool {
        path_eq(self@, other@)
    }
}

impl AbsPathBuf {
    /// Wraps the absolute path `path`.
    pub fn assert2(path: String) -> (res: AbsPathBuf)
        requires
            is_absolute_path(path@),
        ensures
            res@ == path@,
    {
        AbsPathBuf { path }
    }

    /// Wraps a copy of the absolute path `path`.
    pub fn assert_absolute(path: &str) -> (res: AbsPathBuf)
        requires
            is_absolute_path(path@),
        ensures
            res@ == path@,
    {
        Self::assert2(path.to_owned())
    }

    /// Wraps `path`, which the caller knows to be absolute.
    pub fn new_unchecked(path: String) -> (res: AbsPathBuf)
        requires
            is_absolute_path(path@),
        ensures
            res@ == path@,
    {
        AbsPathBuf { path }
    }

    /// The path as a borrowed `AbsPath`.
    pub fn as_path(&self) -> (res: AbsPath<'_>)
        ensures
            res@ == self@,
            is_absolute_path(self@),
    {
        proof {
            use_type_invariant(self);
        }
        AbsPath { path: self.path.as_str() }
    }

    /// Truncates the path to its parent, as `Utf8PathBuf::pop` does, and
    /// tells whether there was one. The root is never removed, so the path
    /// stays absolute.
    pub fn pop(&mut self) -> (popped: bool)
        ensures
            popped == path_parent(old(self)@) is Some,
            match path_parent(old(self)@) {
                Some(p) => final(self)@ == p,
                None => final(self)@ == old(self)@,
            },
            !popped <==> (path_components(old(self)@).len() == 0 || path_components(
                old(self)@,
            ).last().kind == ComponentKind::RootDir),
            popped ==> path_components(final(self)@) == path_components(old(self)@).drop_last(),
            is_absolute_path(final(self)@),
    {
        proof {
            use_type_invariant(&*self);
        }
        let mut path = self.path.clone();
        let popped = utf8_pop(&mut path);
        *self = AbsPathBuf { path };
        popped
    }

    /// Extends the path with `suffix`, as `Utf8PathBuf::push` does; an
    /// absolute `suffix` replaces it.
    pub fn push(&mut self, suffix: &str)
        ensures
            final(self)@ == path_push(old(self)@, suffix@),
            is_absolute_path(suffix@) ==> final(self)@ == suffix@,
            !is_absolute_path(suffix@) ==> old(self)@.is_prefix_of(final(self)@),
            !is_absolute_path(suffix@) && !starts_with_cur_dir(suffix@) ==> path_components(
                final(self)@,
            ) == path_components(old(self)@) + path_components(suffix@),
            is_segment(suffix@) ==> path_components(final(self)@) == path_components(old(self)@).push(
                segment_view(suffix@),
            ),
            is_absolute_path(final(self)@),
    {
        proof {
            use_type_invariant(&*self);
        }
        let mut path = self.path.clone();
        utf8_push(&mut path, suffix);
        *self = AbsPathBuf { path };
    }

    /// The normal form of this path with `path` adjoined; an absolute `path`
    /// replaces this one.
    pub fn join(&self, path: &str) -> (res: AbsPathBuf)
        ensures
            res@ == normalized(path_push(self@, path@)),
            path_components(res@) == normal_components(path_components(path_push(self@, path@))),
            is_absolute_path(path@) ==> res@ == normalized(path@),
            !is_absolute_path(path@) && !starts_with_cur_dir(path@) ==> path_components(res@)
                == normal_components(path_components(self@) + path_components(path@)),
    {
        proof {
            use_type_invariant(self);
        }
        proof {
            lemma_push(self@, path@);
        }
        let joined = AbsPathBuf::assert2(utf8_join(self.path.as_str(), path));
        joined.as_path().normalize()
    }

    /// This path with its extension set to `extension`, which holds no `/`.
    pub fn with_extension(&self, extension: &str) -> (res: AbsPathBuf)
        requires
            !extension@.contains('/'),
        ensures
            res@ == path_with_extension(self@, extension@),
            path_file_name(self@) is None ==> res@ == self@,
            is_absolute_path(res@),
    {
        proof {
            use_type_invariant(self);
        }
        AbsPathBuf::assert2(utf8_with_extension(self.path.as_str(), extension))
    }

    /// Sets the extension of the file name to `extension`, which holds no
    /// `/`; returns `false` and leaves the path as it is where there is no
    /// file name.
    pub fn set_extension(&mut self, extension: &str) -> (changed: bool)
        requires
            !extension@.contains('/'),
        ensures
            changed == path_file_name(old(self)@) is Some,
            final(self)@ == path_with_extension(old(self)@, extension@),
            !changed ==> final(self)@ == old(self)@,
            is_absolute_path(final(self)@),
    {
        proof {
            use_type_invariant(&*self);
        }
        let mut path = self.path.clone();
        let changed = utf8_set_extension(&mut path, extension);
        *self = AbsPathBuf { path };
        changed
    }

    /// The text of the path.
    pub fn as_str(&self) -> (s: &str)
        ensures
            s@ == self@,
            is_absolute_path(s@),
    {
        proof {
            use_type_invariant(self);
        }
        self.path.as_str()
    }

    /// Unwraps the text of the path.
    pub fn into_string(self) -> (s: String)
        ensures
            s@ == self@,
            is_absolute_path(s@),
    {
        proof {
            use_type_invariant(&self);
        }
        self.path
    }
}

/// A borrowed UTF-8 path that is always absolute.
#[derive(Debug, Clone, Copy, Eq)]
pub struct AbsPath<'a> {
    path: &'a str,
}

impl<'a> AbsPath<'a> {
    #[verifier::type_invariant]
    spec fn is_absolute(self) -> bool {
        is_absolute_path(self.path@)
    }
}

impl<'a> View for AbsPath<'a> {
    type V = Seq<char>;

    /// The text of the path.
    closed spec fn view(&self) -> Seq<char> {
        self.path@
    }
}

impl<'a> TryFrom<&'a str> for AbsPath<'a> {
    type Error = &'a str;

    /// Views `path` as an `AbsPath` where it is absolute, else hands it back.
    fn try_from(path: &'a str) -> (res: Result<AbsPath<'a>, &'a str>)
        ensures
            match res {
                Ok(p) => is_absolute_path(path@) && p@ == path@,
                Err(e) => !is_absolute_path(path@) && e == path,
            },
    {
        if utf8_is_absolute(path) {
            Ok(AbsPath { path })
        } else {
            Err(path)
        }
    }
}

impl<'a> TryFromSpecImpl<&'a str> for AbsPath<'a> {
    open spec fn obeys_try_from_spec() -> bool {
        true
    }

    closed spec fn try_from_spec(path: &'a str) -> Result<AbsPath<'a>, &'a str> {
        if is_absolute_path(path@) {
            Ok(AbsPath { path })
        } else {
            Err(path)
        }
    }
}

impl<'a> PartialEq for AbsPath<'a> {
    /// Whether the two paths are equal as `camino` compares them.
    fn eq(&self, other: &Self) -> (eq: bool)
        ensures
            eq == path_eq(self@, other@),
            self@ == other@ ==> eq,
    {
        utf8_eq(self.path, other.path)
    }
}

impl<'a> core::hash::Hash for AbsPath<'a> {
    /// Hashes the path as `camino` does, consistently with `==`.
    fn hash<H: core::hash::Hasher>(&self, state: &mut H) {
        utf8_hash(self.path, state)
    }
}

impl<'a> PartialEqSpecImpl for AbsPath<'a> {
    open spec fn obeys_eq_spec() -> bool {
        true
    }

    open spec fn eq_spec(&self, other: &Self) -> bool {
        path_eq(self@, other@)
    }
}

/// The views of an optional borrowed absolute path.
pub open spec fn opt_abs_view(o: Option<AbsPath>) -> Option<Seq<char>> {
    match o {
        Some(p) => Some(p@),
        None => None,
    }
}

impl<'a> AbsPath<'a> {
    /// Views `path`, which the caller knows to be absolute, as an `AbsPath`.
    pub fn new_unchecked(path: &'a str) -> (res: AbsPath<'a>)
        requires
            is_absolute_path(path@),
        ensures
            res@ == path@,
    {
        AbsPath { path }
    }

    /// Views the absolute path `path` as an `AbsPath`.
    pub fn assert_absolute(path: &'a str) -> (res: AbsPath<'a>)
        requires
            is_absolute_path(path@),
        ensures
            res@ == path@,
    {
        AbsPath { path }
    }

    /// The text of the path.
    pub fn as_str(&self) -> (s: &'a str)
        ensures
            s@ == self@,
            is_absolute_path(s@),
    {
        proof {
            use_type_invariant(self);
        }
        self.path
    }

    /// The path without its final component; none where it ends in the root.
    /// The parent keeps every other component, so it is absolute too.
    pub fn parent(&self) -> (parent: Option<AbsPath<'a>>)
        ensures
            opt_abs_view(parent) == path_parent(self@),
            parent is None <==> (path_components(self@).len() == 0 || path_components(
                self@,
            ).last().kind == ComponentKind::RootDir),
            parent matches Some(p) ==> path_components(p@) == path_components(self@).drop_last(),
    {
        proof {
            use_type_invariant(self);
        }
        match utf8_parent(self.path) {
            Some(p) => Some(AbsPath::assert_absolute(p)),
            None => None,
        }
    }

    /// This path with `path` adjoined, as `Utf8Path::join` does: an absolute
    /// `path` replaces it; a relative one follows it after a `/` where this
    /// path does not end in one, and its components (unless it starts with
    /// `.`) follow this path's; a single segment such as `..` adds that one
    /// component.
    pub fn join(&self, path: &str) -> (res: AbsPathBuf)
        ensures
            res@ == path_push(self@, path@),
            is_absolute_path(path@) ==> res@ == path@,
            !is_absolute_path(path@) && !starts_with_cur_dir(path@) ==> path_components(res@)
                == path_components(self@) + path_components(path@),
            is_segment(path@) ==> path_components(res@) == path_components(self@).push(
                segment_view(path@),
            ),
    {
        proof {
            use_type_invariant(self);
            lemma_push(self@, path@);
        }
        AbsPathBuf::assert2(utf8_join(self.path, path))
    }

    /// The normal form of the path: repeated and trailing separators and `.`
    /// components are removed, and `..` goes to the parent.
    pub fn normalize(&self) -> (res: AbsPathBuf)
        ensures
            res@ == normalized(self@),
            path_components(res@) == normal_components(path_components(self@)),
    {
        proof {
            use_type_invariant(self);
        }
        AbsPathBuf { path: normalize_path(self.path) }
    }

    /// An owned copy of the path.
    pub fn to_path_buf(&self) -> (res: AbsPathBuf)
        ensures
            res@ == self@,
    {
        proof {
            use_type_invariant(self);
        }
        AbsPathBuf { path: utf8_to_path_buf(self.path) }
    }

    /// The relative rest of the path after the leading components `base`,
    /// where `base` is a prefix of it.
    pub fn strip_prefix(&self, base: &AbsPath) -> (rest: Option<RelPath<'a>>)
        ensures
            match rest {
                Some(r) => path_strip_prefix(self@, base@) == Some(r@) && !is_absolute_path(r@)
                    && path_eq(path_push(base@, r@), self@) && path_components(r@)
                    == path_components(self@).skip(path_components(base@).len() as int),
                None => path_strip_prefix(self@, base@) is None,
            },
            rest is Some <==> path_starts_with(self@, base@),
    {
        proof {
            use_type_invariant(base);
        }
        match utf8_strip_prefix(self.path, base.path) {
            Some(rest) => Some(RelPath::new_unchecked(rest)),
            None => None,
        }
    }

    /// Whether the components of `base` lead this path, which is where
    /// `strip_prefix` succeeds.
    pub fn starts_with(&self, base: &AbsPath) -> (starts: bool)
        ensures
            starts == path_strip_prefix(self@, base@) is Some,
            starts == path_starts_with(self@, base@),
    {
        utf8_starts_with(self.path, base.path)
    }

    /// Whether the components of `suffix` end this path.
    pub fn ends_with(&self, suffix: &RelPath) -> (ends: bool)
        ensures
            ends == path_ends_with(self@, suffix@),
    {
        utf8_ends_with(self.path, suffix.as_str())
    }

    /// The stem and the extension of the file name; none without a file name.
    pub fn name_and_extension(&self) -> (res: Option<(&'a str, Option<&'a str>)>)
        ensures
            match res {
                Some((stem, extension)) => path_file_stem(self@) == Some(stem@)
                    && opt_str_view(extension) == path_extension(self@),
                None => path_file_stem(self@) is None,
            },
    {
        match self.file_stem() {
            Some(stem) => Some((stem, self.extension())),
            None => None,
        }
    }

    /// The final component where it is a normal one: the file or directory
    /// name.
    pub fn file_name(&self) -> (name: Option<&'a str>)
        ensures
            opt_str_view(name) == path_file_name(self@),
    {
        utf8_file_name(self.path)
    }

    /// The part of the file name after its final `.`, unless the name has no
    /// `.` or only a leading one.
    pub fn extension(&self) -> (extension: Option<&'a str>)
        ensures
            opt_str_view(extension) == path_extension(self@),
    {
        utf8_extension(self.path)
    }

    /// This path with its extension set to `extension`, which holds no `/`.
    pub fn with_extension(&self, extension: &str) -> (res: AbsPathBuf)
        requires
            !extension@.contains('/'),
        ensures
            res@ == path_with_extension(self@, extension@),
            path_file_name(self@) is None ==> res@ == self@,
            is_absolute_path(res@),
    {
        proof {
            use_type_invariant(self);
        }
        AbsPathBuf::new_unchecked(utf8_with_extension(self.path, extension))
    }

    /// The part of the file name before its final `.`, or the whole name
    /// where it has no `.` or only a leading one.
    pub fn file_stem(&self) -> (stem: Option<&'a str>)
        ensures
            opt_str_view(stem) == path_file_stem(self@),
    {
        utf8_file_stem(self.path)
    }

    /// The components of the path.
    pub fn components(&self) -> (comps: Vec<PathComponent>)
        ensures
            component_views(comps@) == path_components(self@),
    {
        utf8_components(self.path)
    }
}

/// The stem, a `.` and the extension make up the file name; without an
/// extension, the stem is the whole file name.
pub proof fn law_stem_and_extension_make_file_name(path: Seq<char>)
    ensures
        match path_extension(path) {
            Some(extension) => path_file_stem(path) matches Some(stem) && path_file_name(path)
                == Some(stem + seq!['.'] + extension),
            None => path_file_stem(path) == path_file_name(path),
        },
{
    if let Some(name) = path_file_name(path) {
        lemma_last_dot(name);
        let i = last_dot(name);
        if i > 0 {
            assert(name.subrange(0, i) + seq!['.'] + name.subrange(i + 1, name.len() as int)
                =~= name);
        }
    }
}

/// An extension holds no `.`: it is what follows the final one.
pub proof fn law_extension_has_no_dot(path: Seq<char>)
    ensures
        path_extension(path) matches Some(extension) ==> !extension.contains('.'),
{
    if let Some(name) = path_file_name(path) {
        lemma_last_dot(name);
        let i = last_dot(name);
        if i > 0 {
            let extension = name.subrange(i + 1, name.len() as int);
            assert forall|j: int| 0 <= j < extension.len() implies extension[j] != '.' by {
                assert(extension[j] == name[i + 1 + j]);
            }
        }
    }
}

} // verus!
