//! Lexical normalization of a path: `.` components are dropped, `..` pops
//! the component before it, and the rest is pushed again one by one, which
//! removes repeated and trailing separators.
use crate::utf8::{
    ends_in_whole_name, is_absolute_path, is_normal_name, lemma_push, path_components, path_push,
    utf8_components, utf8_new, utf8_pop, utf8_push, ComponentKind, ComponentView,
};
use vstd::prelude::*;

verus! {

/// One step of normalization on components: the root starts over from the
/// root, a normal component is appended, `..` drops the last component
/// unless there is none or it is the root, and `.` is skipped.
pub open spec fn normal_step(acc: Seq<ComponentView>, c: ComponentView) -> Seq<ComponentView> {
    match c.kind {
        ComponentKind::RootDir => seq![c],
        ComponentKind::Normal => acc.push(c),
        ComponentKind::ParentDir => if acc.len() > 0 && acc.last().kind != ComponentKind::RootDir {
            acc.drop_last()
        } else {
            acc
        },
        ComponentKind::CurDir => acc,
        ComponentKind::Prefix => acc,
    }
}

/// The components of the normal form of a path with components `comps`.
pub open spec fn normal_components(comps: Seq<ComponentView>) -> Seq<ComponentView>
    decreases comps.len(),
{
    if comps.len() == 0 {
        Seq::empty()
    } else {
        normal_step(normal_components(comps.drop_last()), comps.last())
    }
}

/// The text that pushing the texts of `comps` one by one onto the empty path
/// gives.
pub open spec fn render(comps: Seq<ComponentView>) -> Seq<char>
    decreases comps.len(),
{
    if comps.len() == 0 {
        Seq::empty()
    } else {
        path_push(render(comps.drop_last()), comps.last().text)
    }
}

/// The normal form of `path`: the text of the normal form of its components.
pub open spec fn normalized(path: Seq<char>) -> Seq<char> {
    render(normal_components(path_components(path)))
}

/// Components in normal form: normal components only, after at most a
/// leading root; no `.` and no `..`.
pub open spec fn is_normal_form(comps: Seq<ComponentView>) -> bool {
    forall|i: int|
        0 <= i < comps.len() ==> (#[trigger] comps[i]).kind == ComponentKind::Normal || (
        comps[i].kind == ComponentKind::RootDir && i == 0)
}

/// Components whose texts are those that parsing gives: a root is `/`, and a
/// normal component is a normal name.
pub open spec fn has_parsed_texts(comps: Seq<ComponentView>) -> bool {
    forall|i: int|
        0 <= i < comps.len() ==> {
            let c = #[trigger] comps[i];
            &&& c.kind == ComponentKind::RootDir ==> c.text == seq!['/']
            &&& c.kind == ComponentKind::Normal ==> is_normal_name(c.text)
        }
}

/// A text without two separators in a row.
pub open spec fn no_repeated_separator(s: Seq<char>) -> bool {
    forall|i: int| 0 <= i < s.len() - 1 ==> !(s[i] == '/' && #[trigger] s[i + 1] == '/')
}

/// Paths that are split into the same components have the same normal form:
/// `/a//b`, `/a/./b` and `/a/b/` all normalize as `/a/b` does.
pub proof fn law_normal_form_depends_only_on_components(p: Seq<char>, q: Seq<char>)
    requires
        path_components(p) == path_components(q),
    ensures
        normalized(p) == normalized(q),
{
}

/// `comps` without its `.` components.
pub open spec fn without_cur_dir(comps: Seq<ComponentView>) -> Seq<ComponentView>
    decreases comps.len(),
{
    if comps.len() == 0 {
        comps
    } else if comps.last().kind == ComponentKind::CurDir {
        without_cur_dir(comps.drop_last())
    } else {
        without_cur_dir(comps.drop_last()).push(comps.last())
    }
}

/// Normalization removes the `.` components: the normal form is the same
/// with them left out.
pub proof fn law_normalize_skips_cur_dir(comps: Seq<ComponentView>)
    ensures
        normal_components(comps) == normal_components(without_cur_dir(comps)),
    decreases comps.len(),
{
    if comps.len() > 0 {
        law_normalize_skips_cur_dir(comps.drop_last());
        if comps.last().kind != ComponentKind::CurDir {
            let rest = without_cur_dir(comps.drop_last());
            assert(rest.push(comps.last()).drop_last() =~= rest);
        }
    }
}

/// The normal form holds no `.` and no `..`, and a root only at the front;
/// its texts are still those that parsing gives.
pub proof fn law_normal_form_has_no_dots(comps: Seq<ComponentView>)
    ensures
        is_normal_form(normal_components(comps)),
        has_parsed_texts(comps) ==> has_parsed_texts(normal_components(comps)),
    decreases comps.len(),
{
    if comps.len() > 0 {
        law_normal_form_has_no_dots(comps.drop_last());
        let acc = normal_components(comps.drop_last());
        let c = comps.last();
        let res = normal_components(comps);
        assert(res == normal_step(acc, c));
        if has_parsed_texts(comps) {
            assert forall|i: int| 0 <= i < comps.len() - 1 implies {
                let d = #[trigger] comps.drop_last()[i];
                &&& d.kind == ComponentKind::RootDir ==> d.text == seq!['/']
                &&& d.kind == ComponentKind::Normal ==> is_normal_name(d.text)
            } by {
                assert(comps.drop_last()[i] == comps[i]);
            }
            assert(comps[comps.len() - 1] == c);
        }
        if c.kind == ComponentKind::Normal {
            assert forall|i: int| 0 <= i < res.len() implies (#[trigger] res[i]).kind
                == ComponentKind::Normal || (res[i].kind == ComponentKind::RootDir && i == 0) by {
                if i < acc.len() {
                    assert(res[i] == acc[i]);
                }
            }
            if has_parsed_texts(comps) {
                assert forall|i: int| 0 <= i < res.len() implies {
                    let d = #[trigger] res[i];
                    &&& d.kind == ComponentKind::RootDir ==> d.text == seq!['/']
                    &&& d.kind == ComponentKind::Normal ==> is_normal_name(d.text)
                } by {
                    if i < acc.len() {
                        assert(res[i] == acc[i]);
                    }
                }
            }
        } else if c.kind == ComponentKind::ParentDir && acc.len() > 0 && acc.last().kind
            != ComponentKind::RootDir {
            assert forall|i: int| 0 <= i < res.len() implies (#[trigger] res[i]).kind
                == ComponentKind::Normal || (res[i].kind == ComponentKind::RootDir && i == 0) by {
                assert(res[i] == acc[i]);
            }
            if has_parsed_texts(comps) {
                assert forall|i: int| 0 <= i < res.len() implies {
                    let d = #[trigger] res[i];
                    &&& d.kind == ComponentKind::RootDir ==> d.text == seq!['/']
                    &&& d.kind == ComponentKind::Normal ==> is_normal_name(d.text)
                } by {
                    assert(res[i] == acc[i]);
                }
            }
        }
    }
}

/// Components already in normal form are their own normal form.
pub proof fn law_normal_form_is_fixed(comps: Seq<ComponentView>)
    requires
        is_normal_form(comps),
    ensures
        normal_components(comps) == comps,
    decreases comps.len(),
{
    if comps.len() > 0 {
        let rest = comps.drop_last();
        assert forall|i: int| 0 <= i < rest.len() implies (#[trigger] rest[i]).kind
            == ComponentKind::Normal || (rest[i].kind == ComponentKind::RootDir && i == 0) by {
            assert(rest[i] == comps[i]);
        }
        law_normal_form_is_fixed(rest);
        let c = comps.last();
        assert(comps[comps.len() - 1] == c);
        if c.kind == ComponentKind::Normal {
            assert(rest.push(c) =~= comps);
        } else {
            assert(comps.len() == 1);
            assert(seq![c] =~= comps);
        }
    }
}

/// Normalizing twice gives the components of normalizing once.
pub proof fn law_normalize_idempotent(comps: Seq<ComponentView>)
    ensures
        normal_components(normal_components(comps)) == normal_components(comps),
{
    law_normal_form_has_no_dots(comps);
    law_normal_form_is_fixed(normal_components(comps));
}

/// Normalizing twice gives the text of normalizing once: the normal form
/// of a path whose components are `normal_components(comps)` is its text.
pub proof fn law_normalize_text_idempotent(comps: Seq<ComponentView>)
    ensures
        render(normal_components(normal_components(comps))) == render(normal_components(comps)),
{
    law_normalize_idempotent(comps);
}

/// A trailing `..` goes up one level from the normal form, and stays at the
/// root (or at nothing) where there is no level left.
pub proof fn law_normalize_parent_dir(comps: Seq<ComponentView>, up: ComponentView)
    requires
        up.kind == ComponentKind::ParentDir,
    ensures
        normal_components(comps.push(up)) == {
            let n = normal_components(comps);
            if n.len() > 0 && n.last().kind != ComponentKind::RootDir {
                n.drop_last()
            } else {
                n
            }
        },
{
    assert(comps.push(up).drop_last() =~= comps);
}

/// A normal component followed by `..` leaves the normal form as it was.
pub proof fn law_normalize_down_and_up(
    comps: Seq<ComponentView>,
    down: ComponentView,
    up: ComponentView,
)
    requires
        down.kind == ComponentKind::Normal,
        up.kind == ComponentKind::ParentDir,
    ensures
        normal_components(comps.push(down).push(up)) == normal_components(comps),
{
    assert(comps.push(down).push(up).drop_last() =~= comps.push(down));
    assert(comps.push(down).drop_last() =~= comps);
    let n = normal_components(comps);
    assert(normal_components(comps.push(down)) == n.push(down));
    assert(n.push(down).last() == down);
    assert(n.push(down).drop_last() =~= n);
}

/// The text of components in normal form with parsed texts is the empty
/// path, the root, or ends in a whole name; it never has two separators in
/// a row.
pub proof fn lemma_render_tidy(comps: Seq<ComponentView>)
    requires
        is_normal_form(comps),
        has_parsed_texts(comps),
    ensures
        ends_in_whole_name(render(comps)),
        no_repeated_separator(render(comps)),
    decreases comps.len(),
{
    if comps.len() > 0 {
        let rest = comps.drop_last();
        let c = comps.last();
        assert(comps[comps.len() - 1] == c);
        assert forall|i: int| 0 <= i < rest.len() implies (#[trigger] rest[i]).kind
            == ComponentKind::Normal || (rest[i].kind == ComponentKind::RootDir && i == 0) by {
            assert(rest[i] == comps[i]);
        }
        assert forall|i: int| 0 <= i < rest.len() implies {
            let d = #[trigger] rest[i];
            &&& d.kind == ComponentKind::RootDir ==> d.text == seq!['/']
            &&& d.kind == ComponentKind::Normal ==> is_normal_name(d.text)
        } by {
            assert(rest[i] == comps[i]);
        }
        lemma_render_tidy(rest);
        let x = render(rest);
        let t = c.text;
        let r = render(comps);
        if c.kind == ComponentKind::RootDir {
            assert(r == t);
            assert(t == seq!['/']);
        } else {
            assert(c.kind == ComponentKind::Normal);
            assert(t.len() > 0);
            assert(!t.contains('/'));
            assert(t[0] != '/');
            assert(!is_absolute_path(t));
            assert(r.last() == t.last());
            assert(t.last() != '/');
            if t.len() >= 2 {
                assert(r[r.len() - 2] == t[t.len() - 2]);
                assert(t[t.len() - 2] != '/');
            } else {
                assert(t =~= seq![t[0]]);
            }
            assert forall|i: int| 0 <= i < r.len() - 1 implies !(r[i] == '/' && #[trigger] r[i
                + 1] == '/') by {
                if x.len() > 0 && x.last() != '/' {
                    assert(r =~= x + seq!['/'] + t);
                    if i + 1 < x.len() {
                        assert(r[i] == x[i] && r[i + 1] == x[i + 1]);
                    } else if i + 1 == x.len() {
                        assert(r[i] == x.last());
                    } else if i == x.len() {
                        assert(r[i + 1] == t[0]);
                    } else {
                        assert(r[i] == t[i - x.len() - 1]);
                        assert(t.contains(r[i]) ==> r[i] != '/');
                    }
                } else {
                    assert(r =~= x + t);
                    if i + 1 < x.len() {
                        assert(r[i] == x[i] && r[i + 1] == x[i + 1]);
                    } else if i < x.len() {
                        assert(r[i + 1] == t[0]);
                    } else {
                        assert(r[i] == t[i - x.len()]);
                    }
                }
            }
        }
    }
}

/// The text of a normal form ends in neither a `/` (unless it is the root)
/// nor a `.` segment, and never has two separators in a row.
pub proof fn law_normal_text_is_clean(comps: Seq<ComponentView>)
    requires
        has_parsed_texts(comps),
    ensures
        ends_in_whole_name(render(normal_components(comps))),
        no_repeated_separator(render(normal_components(comps))),
{
    law_normal_form_has_no_dots(comps);
    lemma_render_tidy(normal_components(comps));
}

/// Normalizes `path`: the result is the text of the normal form of the
/// components of `path`, and has those components; an absolute path stays
/// absolute and a relative one relative.
pub fn normalize_path(path: &str) -> (res: String)
    ensures
        res@ == normalized(path@),
        path_components(res@) == normal_components(path_components(path@)),
        is_absolute_path(path@) ==> is_absolute_path(res@),
        !is_absolute_path(path@) ==> !is_absolute_path(res@),
{
    let comps = utf8_components(path);
    let ghost views = path_components(path@);
    assert(views.len() == comps@.len());
    assert(forall|k: int| 0 <= k < comps@.len() ==> views[k] == #[trigger] comps@[k]@);
    let mut i: usize = 0;
    let mut ret: String;
    if comps.len() > 0 && comps[0].kind == ComponentKind::Prefix {
        ret = comps[0].text.clone();
        i = 1;
    } else {
        ret = utf8_new();
    }
    assert(views.take(0) =~= Seq::<ComponentView>::empty());
    while i < comps.len()
        invariant
            i <= comps@.len(),
            views.len() == comps@.len(),
            forall|k: int| 0 <= k < comps@.len() ==> views[k] == #[trigger] comps@[k]@,
            ret@ == render(normal_components(views.take(i as int))),
            path_components(ret@) == normal_components(views.take(i as int)),
            is_normal_form(normal_components(views.take(i as int))),
            has_parsed_texts(normal_components(views.take(i as int))),
            is_absolute_path(path@) <==> comps.len() > 0 && comps@[0].kind
                == ComponentKind::RootDir,
            is_absolute_path(path@) && i >= 1 ==> is_absolute_path(ret@),
            !is_absolute_path(path@) ==> !is_absolute_path(ret@),
            forall|k: int|
                0 <= k < comps.len() ==> {
                    let c = #[trigger] comps@[k];
                    &&& c.kind != ComponentKind::Prefix
                    &&& c.kind == ComponentKind::RootDir ==> k == 0 && c.text@ == seq!['/']
                    &&& c.kind == ComponentKind::Normal ==> is_normal_name(c.text@)
                    &&& path_components(c.text@) == seq![c@]
                },
        decreases comps.len() - i,
    {
        let ghost before = ret@;
        let ghost acc = normal_components(views.take(i as int));
        let comp = &comps[i];
        let ghost c = comp@;
        assert(views.take(i + 1).drop_last() =~= views.take(i as int));
        assert(views.take(i + 1).last() == c);
        assert(normal_components(views.take(i + 1)) == normal_step(acc, c));
        proof {
            lemma_push(before, c.text);
            if c.kind == ComponentKind::Normal {
                assert(c.text[0] != '/') by {
                    if c.text[0] == '/' {
                        assert(c.text.contains('/'));
                    }
                }
                assert(acc.push(c).drop_last() =~= acc);
            }
            if c.kind == ComponentKind::ParentDir && acc.len() > 0 && acc.last().kind
                != ComponentKind::RootDir {
                let d = acc.drop_last();
                assert(acc[acc.len() - 1] == acc.last());
                assert(d.push(acc.last()) =~= acc);
                assert forall|j: int| 0 <= j < d.len() implies (#[trigger] d[j]).kind
                    == ComponentKind::Normal || (d[j].kind == ComponentKind::RootDir && j == 0) by {
                    assert(d[j] == acc[j]);
                }
                assert forall|j: int| 0 <= j < d.len() implies {
                    let e = #[trigger] d[j];
                    &&& e.kind == ComponentKind::RootDir ==> e.text == seq!['/']
                    &&& e.kind == ComponentKind::Normal ==> is_normal_name(e.text)
                } by {
                    assert(d[j] == acc[j]);
                }
                lemma_render_tidy(d);
                assert(render(acc) == path_push(render(d), acc.last().text));
            }
        }
        match comp.kind {
            ComponentKind::Prefix => {},
            ComponentKind::RootDir => {
                utf8_push(&mut ret, comp.text.as_str());
            },
            ComponentKind::CurDir => {},
            ComponentKind::ParentDir => {
                utf8_pop(&mut ret);
            },
            ComponentKind::Normal => {
                utf8_push(&mut ret, comp.text.as_str());
            },
        }
        proof {
            let next = normal_components(views.take(i + 1));
            if c.kind == ComponentKind::RootDir {
                assert(render(seq![c]) == path_push(render(seq![c].drop_last()), c.text));
                assert(seq![c].drop_last() =~= Seq::<ComponentView>::empty());
            }
            if c.kind == ComponentKind::Normal {
                assert(next.drop_last() =~= acc);
                assert(next.last() == c);
            }
            law_normal_form_has_no_dots(views.take(i + 1));
            assert forall|j: int| 0 <= j < views.take(i + 1).len() implies {
                let e = #[trigger] views.take(i + 1)[j];
                &&& e.kind == ComponentKind::RootDir ==> e.text == seq!['/']
                &&& e.kind == ComponentKind::Normal ==> is_normal_name(e.text)
            } by {
                assert(views.take(i + 1)[j] == comps@[j]@);
            }
        }
        i = i + 1;
    }
    assert(views.take(views.len() as int) =~= views);
    ret
}

} // verus!
