//! Path sandbox: lexical resolution of caller-supplied paths under a
//! configured root directory.
//!
//! A path is read as a sequence of components separated by `/` or `\`.
//! Resolution never touches the file system: `.` is dropped, `..` removes the
//! component before it, and a `..` with nothing to remove is kept as a climb
//! marker. A resolved path is accepted only when it carries no climb marker
//! and lies at or below the root.

use crate::lists::{chars_of, same_chars, views};
use crate::sandbox_laws::{
    lemma_clean_net_is_plain, lemma_components_are_names, lemma_walk_keeps_names,
};
use vstd::prelude::*;

verus! {

/// Both the POSIX and the Windows separator end a component.
pub open spec fn is_separator(c: char) -> bool {
    c == '/' || c == '\\'
}

/// The component `.`, which names the directory it stands in.
pub open spec fn dot() -> Seq<char> {
    seq!['.']
}

/// The component `..`, which names the parent directory.
pub open spec fn dot_dot() -> Seq<char> {
    seq!['.', '.']
}

/// A path is rooted when it begins with a separator.
pub open spec fn is_rooted(text: Seq<char>) -> bool {
    text.len() > 0 && is_separator(text[0])
}

/// The components of a path: its maximal runs of non-separator characters,
/// in order.
pub open spec fn components(text: Seq<char>) -> Seq<Seq<char>>
    decreases text.len(),
{
    if text.len() == 0 {
        Seq::empty()
    } else {
        let front = text.drop_last();
        let c = text.last();
        let before = components(front);
        if is_separator(c) {
            before
        } else if front.len() == 0 || is_separator(front.last()) {
            before.push(seq![c])
        } else {
            before.drop_last().push(before.last().push(c))
        }
    }
}

/// One step of resolution: what a directory stack becomes after a component.
pub open spec fn enter(stack: Seq<Seq<char>>, component: Seq<char>) -> Seq<Seq<char>> {
    if component == dot() {
        stack
    } else if component == dot_dot() && stack.len() > 0 && stack.last() != dot_dot() {
        stack.drop_last()
    } else {
        stack.push(component)
    }
}

/// Resolution of a run of components, left to right, from a given stack.
pub open spec fn walk(stack: Seq<Seq<char>>, path: Seq<Seq<char>>) -> Seq<Seq<char>>
    decreases path.len(),
{
    if path.len() == 0 {
        stack
    } else {
        enter(walk(stack, path.drop_last()), path.last())
    }
}

/// A name is a component as a path can hold it: not empty and free of
/// separators.
pub open spec fn is_name(part: Seq<char>) -> bool {
    &&& part.len() > 0
    &&& forall|j: int| 0 <= j < part.len() ==> !is_separator(#[trigger] part[j])
}

/// A stack of names.
pub open spec fn all_names(parts: Seq<Seq<char>>) -> bool {
    forall|i: int| 0 <= i < parts.len() ==> is_name(#[trigger] parts[i])
}

/// A stack is plain when it holds neither `.` nor `..`.
pub open spec fn is_plain(stack: Seq<Seq<char>>) -> bool {
    forall|i: int|
        0 <= i < stack.len() ==> (#[trigger] stack[i]) != dot() && stack[i] != dot_dot()
}

/// A stack is clean when no climb marker is left in it.
pub open spec fn is_clean(stack: Seq<Seq<char>>) -> bool {
    forall|i: int| 0 <= i < stack.len() ==> stack[i] != dot_dot()
}

fn separator(c: char) -> (r: bool)
    ensures
        r == is_separator(c),
{
    c == '/' || c == '\\'
}

/// Splits a path into its components.
pub fn split(text: &Vec<char>) -> (parts: Vec<Vec<char>>)
    ensures
        views(parts@) == components(text@),
{
    let mut parts: Vec<Vec<char>> = Vec::new();
    let mut i: usize = 0;
    let mut open: bool = false;
    while i < text.len()
        invariant
            i <= text.len(),
            views(parts@) == components(text@.take(i as int)),
            open == (i > 0 && !is_separator(text@[i - 1])),
            open ==> parts.len() > 0,
        decreases text.len() - i,
    {
        let c = text[i];
        proof {
            let now = text@.take(i + 1);
            assert(now.drop_last() == text@.take(i as int));
        }
        if separator(c) {
            open = false;
        } else if !open {
            let mut run: Vec<char> = Vec::new();
            run.push(c);
            parts.push(run);
            open = true;
        } else {
            let mut run = parts.pop().unwrap();
            run.push(c);
            parts.push(run);
        }
        i += 1;
    }
    assert(text@.take(text.len() as int) == text@);
    parts
}

/// Whether a stored component is `.`.
fn is_dot(part: &Vec<char>) -> (r: bool)
    ensures
        r == (part@ == dot()),
{
    let r = part.len() == 1 && part[0] == '.';
    assert(r ==> part@ =~= dot());
    r
}

/// Whether a stored component is `..`.
fn is_dot_dot(part: &Vec<char>) -> (r: bool)
    ensures
        r == (part@ == dot_dot()),
{
    let r = part.len() == 2 && part[0] == '.' && part[1] == '.';
    assert(r ==> part@ =~= dot_dot());
    r
}

/// Resolves `path` on top of `stack`.
pub fn walk_onto(stack: &mut Vec<Vec<char>>, path: &Vec<Vec<char>>)
    ensures
        views(final(stack)@) == walk(views(old(stack)@), views(path@)),
{
    let mut i: usize = 0;
    while i < path.len()
        invariant
            i <= path.len(),
            views(stack@) == walk(views(old(stack)@), views(path@).take(i as int)),
        decreases path.len() - i,
    {
        let part = &path[i];
        proof {
            let now = views(path@).take(i + 1);
            assert(now.drop_last() == views(path@).take(i as int));
            assert(now.last() == part@);
        }
        if is_dot_dot(part) && stack.len() > 0 && !is_dot_dot(&stack[stack.len() - 1]) {
            stack.pop();
        } else if !is_dot(part) {
            stack.push(part.clone());
        }
        i += 1;
    }
    assert(views(path@).take(path.len() as int) == views(path@));
}

/// Whether no climb marker is left in a stack.
pub fn clean(stack: &Vec<Vec<char>>) -> (r: bool)
    ensures
        r == is_clean(views(stack@)),
{
    let mut i: usize = 0;
    while i < stack.len()
        invariant
            i <= stack.len(),
            forall|j: int| 0 <= j < i ==> views(stack@)[j] != dot_dot(),
        decreases stack.len() - i,
    {
        if is_dot_dot(&stack[i]) {
            assert(views(stack@)[i as int] == dot_dot());
            return false;
        }
        i += 1;
    }
    true
}

/// Where a path ends up: whether it is rooted, and its resolved components.
/// A rooted path stands for itself; any other path is read from the base.
pub open spec fn resolve(rooted: bool, base: Seq<Seq<char>>, path: Seq<char>) -> (
    bool,
    Seq<Seq<char>>,
) {
    if is_rooted(path) {
        (true, walk(Seq::empty(), components(path)))
    } else {
        (rooted, walk(base, components(path)))
    }
}

/// A resolved path lies at or below the base when it is anchored like the
/// base, holds no climb marker, and begins with the components of the base.
pub open spec fn is_within(rooted: bool, base: Seq<Seq<char>>, target: (bool, Seq<Seq<char>>)) -> bool {
    &&& target.0 == rooted
    &&& is_clean(target.1)
    &&& base.is_prefix_of(target.1)
}

/// The paths that the sandbox lets through.
pub open spec fn permits(rooted: bool, base: Seq<Seq<char>>, path: Seq<char>) -> bool {
    is_within(rooted, base, resolve(rooted, base, path))
}

/// Components joined by `/`.
pub open spec fn joined(parts: Seq<Seq<char>>) -> Seq<char>
    decreases parts.len(),
{
    if parts.len() == 0 {
        Seq::empty()
    } else if parts.len() == 1 {
        parts[0]
    } else {
        joined(parts.drop_last()).push('/') + parts.last()
    }
}

/// The text of a resolved path: `/` and the joined components when rooted,
/// the joined components otherwise, and `.` for the empty relative path.
pub open spec fn render(target: (bool, Seq<Seq<char>>)) -> Seq<char> {
    if target.0 {
        seq!['/'] + joined(target.1)
    } else if target.1.len() == 0 {
        dot()
    } else {
        joined(target.1)
    }
}

/// Appends the characters of `part` to `out`.
fn push_all(out: &mut String, part: &Vec<char>)
    ensures
        final(out)@ == old(out)@ + part@,
{
    let mut i: usize = 0;
    while i < part.len()
        invariant
            i <= part.len(),
            out@ == old(out)@ + part@.take(i as int),
        decreases part.len() - i,
    {
        out.push(part[i]);
        i += 1;
    }
}

/// Writes a resolved path out as text.
pub fn to_text(rooted: bool, parts: &Vec<Vec<char>>) -> (out: String)
    ensures
        out@ == render((rooted, views(parts@))),
{
    let mut out = String::new();
    if rooted {
        out.push('/');
    } else if parts.len() == 0 {
        out.push('.');
        return out;
    }
    let ghost lead = out@;
    let mut i: usize = 0;
    while i < parts.len()
        invariant
            i <= parts.len(),
            out@ == lead + joined(views(parts@).take(i as int)),
        decreases parts.len() - i,
    {
        proof {
            let now = views(parts@).take(i + 1);
            assert(now.drop_last() == views(parts@).take(i as int));
        }
        if i > 0 {
            out.push('/');
        }
        push_all(&mut out, &parts[i]);
        i += 1;
    }
    assert(views(parts@).take(parts.len() as int) == views(parts@));
    out
}

/// The refusal that the sandbox gives for a path outside the root. It
/// carries nothing, so that no part of the real directory layout leaks.
#[derive(Debug, Clone, Copy, PartialEq, Eq, Structural)]
pub struct PathRejected;

/// A configured root directory, resolved once and free of climb markers.
pub struct Root {
    rooted: bool,
    parts: Vec<Vec<char>>,
}

impl Root {
    /// Whether the root is a rooted path.
    pub closed spec fn rooted(&self) -> bool {
        self.rooted
    }

    /// The resolved components of the root.
    pub closed spec fn parts(&self) -> Seq<Seq<char>> {
        views(self.parts@)
    }

    #[verifier::type_invariant]
    closed spec fn inv(&self) -> bool {
        is_plain(views(self.parts@)) && all_names(views(self.parts@))
    }

    /// Resolves a root directory. A root that climbs above its own start
    /// cannot anchor a sandbox and is refused.
    pub fn new(text: &str) -> (root: Option<Root>)
        ensures
            root is Some <==> is_clean(walk(Seq::empty(), components(text@))),
            root matches Some(r) ==> {
                &&& r.rooted() == is_rooted(text@)
                &&& r.parts() == walk(Seq::empty(), components(text@))
                &&& is_plain(r.parts())
                &&& all_names(r.parts())
            },
    {
        let chars = chars_of(text);
        let path = split(&chars);
        let mut parts: Vec<Vec<char>> = Vec::new();
        assert(views(parts@) == Seq::<Seq<char>>::empty());
        walk_onto(&mut parts, &path);
        if clean(&parts) {
            proof {
                lemma_clean_net_is_plain(components(text@));
                lemma_components_are_names(text@);
                lemma_walk_keeps_names(Seq::empty(), components(text@));
            }
            let rooted = chars.len() > 0 && separator(chars[0]);
            Some(Root { rooted, parts })
        } else {
            None
        }
    }

    /// Resolves `path` under this root and hands back its text, or refuses
    /// it when it would leave the root.
    pub fn sandbox(&self, path: &str) -> (out: Result<String, PathRejected>)
        ensures
            out is Ok <==> permits(self.rooted(), self.parts(), path@),
            out matches Ok(text) ==> text@ == render(resolve(self.rooted(), self.parts(), path@)),
    {
        let chars = chars_of(path);
        let steps = split(&chars);
        let rooted = chars.len() > 0 && separator(chars[0]);
        let mut stack: Vec<Vec<char>> = Vec::new();
        if !rooted {
            stack = copy_parts(&self.parts);
        }
        assert(rooted ==> views(stack@) == Seq::<Seq<char>>::empty());
        walk_onto(&mut stack, &steps);
        let anchored = rooted || self.rooted;
        if anchored == self.rooted && clean(&stack) && begins_with(&stack, &self.parts) {
            Ok(to_text(anchored, &stack))
        } else {
            Err(PathRejected)
        }
    }
}

/// A copy of a vector of components.
fn copy_parts(parts: &Vec<Vec<char>>) -> (out: Vec<Vec<char>>)
    ensures
        views(out@) == views(parts@),
{
    let mut out: Vec<Vec<char>> = Vec::new();
    let mut i: usize = 0;
    while i < parts.len()
        invariant
            i <= parts.len(),
            views(out@) == views(parts@).take(i as int),
        decreases parts.len() - i,
    {
        let ghost before = views(out@);
        out.push(parts[i].clone());
        assert(views(out@) == before.push(parts@[i as int]@));
        i += 1;
    }
    out
}

/// Whether `stack` begins with the components of `base`.
fn begins_with(stack: &Vec<Vec<char>>, base: &Vec<Vec<char>>) -> (r: bool)
    ensures
        r == views(base@).is_prefix_of(views(stack@)),
{
    if base.len() > stack.len() {
        return false;
    }
    let mut i: usize = 0;
    while i < base.len()
        invariant
            i <= base.len(),
            base.len() <= stack.len(),
            forall|j: int| 0 <= j < i ==> views(base@)[j] == views(stack@)[j],
        decreases base.len() - i,
    {
        if !same_chars(&stack[i], &base[i]) {
            assert(views(base@)[i as int] != views(stack@).subrange(0, base.len() as int)[i as int]);
            return false;
        }
        i += 1;
    }
    true
}

} // verus!
