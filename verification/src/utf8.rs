//! The calls into `camino` that the path types make, each behind a trusted
//! item, with the names that the contracts use for what `camino` computes.
//!
//! The contracts state the Unix behaviour that `camino` documents: a path is
//! absolute when it starts with `/`, and no component is a Windows prefix.
use camino::{Utf8Component, Utf8Path, Utf8PathBuf};
use vstd::prelude::*;

verus! {

/// A path is absolute when it starts with the root `/` (the Unix rule).
pub open spec fn is_absolute_path(path: Seq<char>) -> bool {
    path.len() > 0 && path[0] == '/'
}

/// The view of an optional string slice.
pub open spec fn opt_str_view(o: Option<&str>) -> Option<Seq<char>> {
    match o {
        Some(s) => Some(s@),
        None => None,
    }
}

/// The kind of a path component.
#[derive(Copy, Clone, Debug, PartialEq, Eq, Structural)]
pub enum ComponentKind {
    /// A Windows path prefix such as `C:`.
    Prefix,
    /// The root directory `/`.
    RootDir,
    /// The current directory `.`.
    CurDir,
    /// The parent directory `..`.
    ParentDir,
    /// A normal component, such as `a` in `a/b`.
    Normal,
}

/// A component of a path: its kind and its text.
#[derive(Debug)]
pub struct PathComponent {
    pub kind: ComponentKind,
    pub text: String,
}

/// What a `PathComponent` holds, as mathematical values.
pub struct ComponentView {
    pub kind: ComponentKind,
    pub text: Seq<char>,
}

impl View for PathComponent {
    type V = ComponentView;

    open spec fn view(&self) -> ComponentView {
        ComponentView { kind: self.kind, text: self.text@ }
    }
}

/// The views of a sequence of components.
pub open spec fn component_views(comps: Seq<PathComponent>) -> Seq<ComponentView> {
    comps.map_values(|c: PathComponent| c@)
}

/// The components into which `camino` splits `path`.
pub uninterp spec fn path_components(path: Seq<char>) -> Seq<ComponentView>;

/// The text of `base` after `camino` pushes `suffix` onto it, on Unix: an
/// absolute `suffix` replaces `base`; otherwise `suffix` follows `base`,
/// after a `/` where `base` is non-empty and does not already end in one.
pub open spec fn path_push(base: Seq<char>, suffix: Seq<char>) -> Seq<char> {
    if is_absolute_path(suffix) {
        suffix
    } else if base.len() > 0 && base.last() != '/' {
        base + seq!['/'] + suffix
    } else {
        base + suffix
    }
}

/// A relative push keeps the text of `base` in front and keeps a relative
/// path relative; an absolute one replaces it.
pub proof fn lemma_push(base: Seq<char>, suffix: Seq<char>)
    ensures
        is_absolute_path(suffix) ==> path_push(base, suffix) == suffix,
        !is_absolute_path(suffix) ==> base.is_prefix_of(path_push(base, suffix)),
        !is_absolute_path(suffix) && !is_absolute_path(base) ==> !is_absolute_path(
            path_push(base, suffix),
        ),
        is_absolute_path(base) ==> is_absolute_path(path_push(base, suffix)),
{
    let r = path_push(base, suffix);
    if !is_absolute_path(suffix) {
        if base.len() > 0 {
            assert(r[0] == base[0]);
        } else {
            assert(r =~= suffix);
        }
        assert forall|i: int| 0 <= i < base.len() implies base[i] == r[i] by {}
    }
}

/// One segment of a path: non-empty, without `/`, and not `.`.
pub open spec fn is_segment(s: Seq<char>) -> bool {
    s.len() > 0 && !s.contains('/') && s != seq!['.']
}

/// A normal name: a segment other than `..`.
pub open spec fn is_normal_name(s: Seq<char>) -> bool {
    is_segment(s) && s != seq!['.', '.']
}

/// The component that a segment is on its own: `..` is the parent directory,
/// any other segment a normal component.
pub open spec fn segment_view(s: Seq<char>) -> ComponentView {
    if s == seq!['.', '.'] {
        ComponentView { kind: ComponentKind::ParentDir, text: s }
    } else {
        ComponentView { kind: ComponentKind::Normal, text: s }
    }
}

/// A text onto which a pushed name is the final component with nothing
/// between: the empty path, the root, or a text that ends neither in `/` nor
/// in a `.` segment.
pub open spec fn ends_in_whole_name(b: Seq<char>) -> bool {
    ||| b.len() == 0
    ||| b == seq!['/']
    ||| (b.last() != '/' && b != seq!['.'] && !(b.len() >= 2 && b[b.len() - 2] == '/'
        && b.last() == '.'))
}

/// The parent that `camino` gives of `path`, if it has one.
pub uninterp spec fn path_parent(path: Seq<char>) -> Option<Seq<char>>;

/// The file name of `path`: its final component where that is a normal
/// one, as `camino` documents it.
pub open spec fn path_file_name(path: Seq<char>) -> Option<Seq<char>> {
    let comps = path_components(path);
    if comps.len() > 0 && comps.last().kind == ComponentKind::Normal {
        Some(comps.last().text)
    } else {
        None
    }
}

/// `path` with its extension set to `extension`, as `camino` computes it.
pub uninterp spec fn path_with_extension(path: Seq<char>, extension: Seq<char>) -> Seq<char>;

/// What `camino` leaves of `path` once the leading components `base` are
/// stripped, if `base` is a prefix of `path`.
pub uninterp spec fn path_strip_prefix(path: Seq<char>, base: Seq<char>) -> Option<Seq<char>>;

/// Whether the components of `child` end those of `path`: `camino` only
/// considers whole components.
pub open spec fn path_ends_with(path: Seq<char>, child: Seq<char>) -> bool {
    path_components(child).is_suffix_of(path_components(path))
}

/// Whether the components of `base` lead those of `path`.
pub open spec fn path_starts_with(path: Seq<char>, base: Seq<char>) -> bool {
    path_components(base).is_prefix_of(path_components(path))
}

/// Whether `camino` compares the paths `a` and `b` as equal: they have the
/// same components.
pub open spec fn path_eq(a: Seq<char>, b: Seq<char>) -> bool {
    path_components(a) == path_components(b)
}

/// Whether `path` starts with a `.` component.
pub open spec fn starts_with_cur_dir(path: Seq<char>) -> bool {
    path_components(path).len() > 0 && path_components(path)[0].kind == ComponentKind::CurDir
}

/// The index of the last `.` in `name`, or -1 where it holds none.
pub open spec fn last_dot(name: Seq<char>) -> int
    decreases name.len(),
{
    if name.len() == 0 {
        -1
    } else if name.last() == '.' {
        name.len() - 1
    } else {
        last_dot(name.drop_last())
    }
}

/// `last_dot` is an index of `name` holding `.` with no `.` after it, or
/// -1 where `name` holds no `.`.
pub proof fn lemma_last_dot(name: Seq<char>)
    ensures
        -1 <= last_dot(name) < name.len(),
        last_dot(name) >= 0 ==> name[last_dot(name)] == '.',
        forall|j: int| last_dot(name) < j < name.len() ==> name[j] != '.',
    decreases name.len(),
{
    if name.len() > 0 && name.last() != '.' {
        lemma_last_dot(name.drop_last());
        assert forall|j: int| last_dot(name) < j < name.len() implies name[j] != '.' by {
            if j < name.len() - 1 {
                assert(name[j] == name.drop_last()[j]);
            }
        }
    }
}

/// The extension of a file name: the part after the final `.`, unless the
/// name has no `.` or its only `.` is the first character.
pub open spec fn name_extension(name: Seq<char>) -> Option<Seq<char>> {
    let i = last_dot(name);
    if i <= 0 {
        None
    } else {
        Some(name.subrange(i + 1, name.len() as int))
    }
}

/// The stem of a file name: the part before the final `.`, or the whole
/// name where it has no `.` or its only `.` is the first character.
pub open spec fn name_stem(name: Seq<char>) -> Seq<char> {
    let i = last_dot(name);
    if i <= 0 {
        name
    } else {
        name.subrange(0, i)
    }
}

/// The extension of the file name of `path`, as `camino` documents it.
pub open spec fn path_extension(path: Seq<char>) -> Option<Seq<char>> {
    match path_file_name(path) {
        Some(name) => name_extension(name),
        None => None,
    }
}

/// The stem of the file name of `path`, as `camino` documents it.
pub open spec fn path_file_stem(path: Seq<char>) -> Option<Seq<char>> {
    match path_file_name(path) {
        Some(name) => Some(name_stem(name)),
        None => None,
    }
}

/// `Utf8Path::is_absolute`. On Unix `camino` documents a path as absolute
/// exactly when it starts with the root `/`.
#[verifier::external_body]
pub(crate) fn utf8_is_absolute(path: &str) -> (absolute: bool)
    ensures
        absolute == is_absolute_path(path@),
{
    Utf8Path::new(path).is_absolute()
}

/// `Utf8Path::is_relative`, which `camino` documents as "not absolute".
#[verifier::external_body]
pub(crate) fn utf8_is_relative(path: &str) -> (relative: bool)
    ensures
        relative == !is_absolute_path(path@),
{
    Utf8Path::new(path).is_relative()
}

/// `Utf8Path::components`, each component with its `as_str` text. The
/// contract names the result and states what `camino` documents of it on
/// Unix: no prefix occurs; the root comes before anything else and only in
/// an absolute path, where it is first; `.` is kept only at the beginning;
/// a normal component is a non-empty name without separators, other than
/// `.` and `..`, which are the texts of the current and parent directory
/// components; and the text of each component is a path made of that
/// component alone.
#[verifier::external_body]
pub(crate) fn utf8_components(path: &str) -> (comps: Vec<PathComponent>)
    ensures
        component_views(comps@) == path_components(path@),
        is_absolute_path(path@) <==> (comps.len() > 0 && comps@[0].kind == ComponentKind::RootDir),
        forall|i: int|
            0 <= i < comps.len() ==> {
                let c = #[trigger] comps@[i];
                &&& c.kind != ComponentKind::Prefix
                &&& c.kind == ComponentKind::RootDir ==> i == 0 && c.text@ == seq!['/']
                &&& c.kind == ComponentKind::CurDir ==> c.text@ == seq!['.']
                &&& c.kind == ComponentKind::ParentDir ==> c.text@ == seq!['.', '.']
                &&& c.kind == ComponentKind::CurDir ==> i == 0
                &&& c.kind == ComponentKind::Normal ==> is_normal_name(c.text@)
                &&& path_components(c.text@) == seq![c@]
            },
{
    let mut comps = Vec::new();
    for c in Utf8Path::new(path).components() {
        let kind = match c {
            Utf8Component::Prefix(_) => ComponentKind::Prefix,
            Utf8Component::RootDir => ComponentKind::RootDir,
            Utf8Component::CurDir => ComponentKind::CurDir,
            Utf8Component::ParentDir => ComponentKind::ParentDir,
            Utf8Component::Normal(_) => ComponentKind::Normal,
        };
        comps.push(PathComponent { kind, text: c.as_str().to_string() });
    }
    comps
}

/// `Utf8PathBuf::new`, taken as its text: the empty path, which has no
/// components.
#[verifier::external_body]
pub(crate) fn utf8_new() -> (empty: String)
    ensures
        empty@ == Seq::<char>::empty(),
        path_components(empty@) == Seq::<ComponentView>::empty(),
{
    Utf8PathBuf::new().into_string()
}

/// `Utf8PathBuf::push`. On Unix an absolute `suffix` replaces the path;
/// a relative one extends it, with a `/` between where the path is
/// non-empty and does not end in one. The components of a relative `suffix`
/// follow those of the path (unless it starts with `.`, which is then no
/// longer at the beginning); a single segment adds that one component.
#[verifier::external_body]
pub(crate) fn utf8_push(buf: &mut String, suffix: &str)
    ensures
        final(buf)@ == path_push(old(buf)@, suffix@),
        !is_absolute_path(suffix@) && !starts_with_cur_dir(suffix@) ==> path_components(
            final(buf)@,
        ) == path_components(old(buf)@) + path_components(suffix@),
        is_segment(suffix@) ==> path_components(final(buf)@) == path_components(old(buf)@).push(
            segment_view(suffix@),
        ),
{
    let mut path = Utf8PathBuf::from(std::mem::take(buf));
    path.push(suffix);
    *buf = path.into_string();
}

/// `Utf8Path::join`, which `camino` documents as pushing `suffix` onto a
/// copy of `base`; the contract is that of `utf8_push`.
#[verifier::external_body]
pub(crate) fn utf8_join(base: &str, suffix: &str) -> (joined: String)
    ensures
        joined@ == path_push(base@, suffix@),
        !is_absolute_path(suffix@) && !starts_with_cur_dir(suffix@) ==> path_components(joined@)
            == path_components(base@) + path_components(suffix@),
        is_segment(suffix@) ==> path_components(joined@) == path_components(base@).push(
            segment_view(suffix@),
        ),
{
    Utf8Path::new(base).join(suffix).into_string()
}

/// `Utf8Path::parent`: the path without its final component, a leading
/// part of `path`. `camino` gives none where there is no component or the
/// path ends in the root, so the parent of an absolute path is absolute.
/// Where a normal name was pushed onto a text that ends in a whole name (or
/// is empty or the root), the parent is that text.
#[verifier::external_body]
pub(crate) fn utf8_parent<'a>(path: &'a str) -> (parent: Option<&'a str>)
    ensures
        opt_str_view(parent) == path_parent(path@),
        parent is None <==> (path_components(path@).len() == 0 || path_components(path@).last().kind
            == ComponentKind::RootDir),
        parent matches Some(p) ==> path_components(p@) == path_components(path@).drop_last(),
        forall|b: Seq<char>, t: Seq<char>|
            is_normal_name(t) && ends_in_whole_name(b) && path@ == #[trigger] path_push(b, t)
                ==> opt_str_view(parent) == Some(b),
        parent matches Some(p) ==> p@.is_prefix_of(path@),
        parent matches Some(p) ==> (is_absolute_path(path@) ==> is_absolute_path(p@)),
{
    match Utf8Path::new(path).parent() {
        Some(p) => Some(p.as_str()),
        None => None,
    }
}

/// `Utf8PathBuf::pop`: truncates the path to its parent and returns `true`,
/// or does nothing and returns `false` where there is no parent.
#[verifier::external_body]
pub(crate) fn utf8_pop(buf: &mut String) -> (popped: bool)
    ensures
        popped == path_parent(old(buf)@) is Some,
        match path_parent(old(buf)@) {
            Some(p) => final(buf)@ == p,
            None => final(buf)@ == old(buf)@,
        },
        !popped <==> (path_components(old(buf)@).len() == 0 || path_components(old(buf)@).last().kind
            == ComponentKind::RootDir),
        popped ==> path_components(final(buf)@) == path_components(old(buf)@).drop_last(),
        forall|b: Seq<char>, t: Seq<char>|
            is_normal_name(t) && ends_in_whole_name(b) && old(buf)@ == #[trigger] path_push(b, t)
                ==> popped && final(buf)@ == b,
        final(buf)@.is_prefix_of(old(buf)@),
        is_absolute_path(old(buf)@) ==> is_absolute_path(final(buf)@),
{
    let mut path = Utf8PathBuf::from(std::mem::take(buf));
    let popped = path.pop();
    *buf = path.into_string();
    popped
}

/// `Utf8Path::file_name`: the final component where it is a normal one.
#[verifier::external_body]
pub(crate) fn utf8_file_name<'a>(path: &'a str) -> (name: Option<&'a str>)
    ensures
        opt_str_view(name) == path_file_name(path@),
{
    Utf8Path::new(path).file_name()
}

/// `Utf8Path::extension`, which `camino` documents in terms of the file
/// name: none without a file name, none where the name holds no `.` or only
/// a leading one, else the part after the final `.`.
#[verifier::external_body]
pub(crate) fn utf8_extension<'a>(path: &'a str) -> (extension: Option<&'a str>)
    ensures
        opt_str_view(extension) == path_extension(path@),
{
    Utf8Path::new(path).extension()
}

/// `Utf8Path::file_stem`, which `camino` documents in terms of the file
/// name: none without a file name, the whole name where it holds no `.` or
/// only a leading one, else the part before the final `.`.
#[verifier::external_body]
pub(crate) fn utf8_file_stem<'a>(path: &'a str) -> (stem: Option<&'a str>)
    ensures
        opt_str_view(stem) == path_file_stem(path@),
{
    Utf8Path::new(path).file_stem()
}

/// `Utf8Path::with_extension`. Only the file name changes: a path without a
/// file name is returned as it is, and an absolute path stays absolute. std
/// panics on an extension that holds a separator, which `requires` leaves out.
#[verifier::external_body]
pub(crate) fn utf8_with_extension(path: &str, extension: &str) -> (res: String)
    requires
        !extension@.contains('/'),
    ensures
        res@ == path_with_extension(path@, extension@),
        path_file_name(path@) is None ==> res@ == path@,
        is_absolute_path(path@) ==> is_absolute_path(res@),
{
    Utf8Path::new(path).with_extension(extension).into_string()
}

/// `Utf8PathBuf::set_extension`: the path becomes what `with_extension`
/// gives, and the result tells whether there was a file name. std panics on
/// an extension that holds a separator, which `requires` leaves out.
#[verifier::external_body]
pub(crate) fn utf8_set_extension(buf: &mut String, extension: &str) -> (changed: bool)
    requires
        !extension@.contains('/'),
    ensures
        changed == path_file_name(old(buf)@) is Some,
        final(buf)@ == path_with_extension(old(buf)@, extension@),
        path_file_name(old(buf)@) is None ==> final(buf)@ == old(buf)@,
        is_absolute_path(old(buf)@) ==> is_absolute_path(final(buf)@),
{
    let mut path = Utf8PathBuf::from(std::mem::take(buf));
    let changed = path.set_extension(extension);
    *buf = path.into_string();
    changed
}

/// `Utf8Path::strip_prefix`, with its error turned into `None`. It succeeds
/// where the components of `base` lead those of `path` (only whole
/// components count), and the rest holds the remaining components. `camino`
/// documents the rest as the path that, joined onto `base`, gives `path`
/// (equal as paths compare). Once the root of an absolute `base` is taken,
/// no root is left, so the rest is relative.
#[verifier::external_body]
pub(crate) fn utf8_strip_prefix<'a>(path: &'a str, base: &str) -> (rest: Option<&'a str>)
    ensures
        opt_str_view(rest) == path_strip_prefix(path@, base@),
        rest matches Some(r) ==> (is_absolute_path(base@) ==> !is_absolute_path(r@)),
        rest matches Some(r) ==> path_eq(path_push(base@, r@), path@),
        rest is Some <==> path_starts_with(path@, base@),
        rest matches Some(r) ==> path_components(r@) == path_components(path@).skip(
            path_components(base@).len() as int,
        ),
{
    match Utf8Path::new(path).strip_prefix(base) {
        Ok(rest) => Some(rest.as_str()),
        Err(_) => None,
    }
}

/// `Utf8Path::starts_with`, which `camino` documents as succeeding exactly
/// where `strip_prefix` does: where the components of `base` lead.
#[verifier::external_body]
pub(crate) fn utf8_starts_with(path: &str, base: &str) -> (starts: bool)
    ensures
        starts == path_strip_prefix(path@, base@) is Some,
        starts == path_starts_with(path@, base@),
{
    Utf8Path::new(path).starts_with(base)
}

/// `Utf8Path::ends_with`: whether the components of `child` end those of
/// `path`.
#[verifier::external_body]
pub(crate) fn utf8_ends_with(path: &str, child: &str) -> (ends: bool)
    ensures
        ends == path_ends_with(path@, child@),
{
    Utf8Path::new(path).ends_with(child)
}

/// `==` on `Utf8Path`, which `camino` defines as equality of the components.
#[verifier::external_body]
pub(crate) fn utf8_eq(a: &str, b: &str) -> (eq: bool)
    ensures
        eq == path_eq(a@, b@),
{
    Utf8Path::new(a) == Utf8Path::new(b)
}

/// `Hash` on `Utf8Path`, which hashes the components as std's `Path` does,
/// so that paths that compare equal hash alike. Nothing is stated of the
/// hasher's state.
#[verifier::external_body]
pub(crate) fn utf8_hash<H: core::hash::Hasher>(path: &str, state: &mut H) {
    core::hash::Hash::hash(Utf8Path::new(path), state)
}

/// `Utf8Path::to_path_buf`, taken as its text: an owned copy of the path.
#[verifier::external_body]
pub(crate) fn utf8_to_path_buf(path: &str) -> (owned: String)
    ensures
        owned@ == path@,
{
    Utf8Path::new(path).to_path_buf().into_string()
}

} // verus!
