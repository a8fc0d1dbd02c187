//! What holds of the path sandbox for every root and every path.

use crate::sandbox::{
    all_names, components, dot, dot_dot, enter, is_clean, is_name, is_plain, is_rooted,
    is_separator, joined, permits, render, resolve, walk,
};
use vstd::prelude::*;

verus! {

/// Two texts spell the same path when they differ only in which separator
/// stands at each separator position.
pub open spec fn same_spelling(p: Seq<char>, q: Seq<char>) -> bool {
    &&& p.len() == q.len()
    &&& forall|i: int|
        0 <= i < p.len() ==> if is_separator(p[i]) {
            is_separator(#[trigger] q[i])
        } else {
            q[i] == p[i]
        }
}

/// The choice of separator does not change the components of a path.
pub proof fn lemma_components_ignore_spelling(p: Seq<char>, q: Seq<char>)
    requires
        same_spelling(p, q),
    ensures
        components(p) == components(q),
    decreases p.len(),
{
    if p.len() > 0 {
        lemma_components_ignore_spelling(p.drop_last(), q.drop_last());
    }
}

/// The sandbox gives the same verdict and the same resolved path whichever
/// separator the caller writes: `..\x` fares as `../x` does.
pub proof fn lemma_verdict_ignores_spelling(
    rooted: bool,
    base: Seq<Seq<char>>,
    p: Seq<char>,
    q: Seq<char>,
)
    requires
        same_spelling(p, q),
    ensures
        resolve(rooted, base, p) == resolve(rooted, base, q),
        permits(rooted, base, p) == permits(rooted, base, q),
{
    lemma_components_ignore_spelling(p, q);
}

/// A path is a pure climb when it has at least one `..` and nothing but `.`
/// and `..`.
pub open spec fn is_climb(path: Seq<Seq<char>>) -> bool {
    &&& exists|i: int| 0 <= i < path.len() && #[trigger] path[i] == dot_dot()
    &&& forall|i: int| 0 <= i < path.len() ==> #[trigger] path[i] == dot() || path[i] == dot_dot()
}

/// A stack made of climb markers only.
pub open spec fn all_markers(stack: Seq<Seq<char>>) -> bool {
    forall|i: int| 0 <= i < stack.len() ==> #[trigger] stack[i] == dot_dot()
}

/// Walking nothing but `.` and `..` from a clean base either leaves a proper
/// or improper front part of the base, or, once the base is used up, a stack
/// of climb markers.
proof fn lemma_walk_dots(base: Seq<Seq<char>>, path: Seq<Seq<char>>)
    requires
        is_clean(base),
        forall|i: int| 0 <= i < path.len() ==> #[trigger] path[i] == dot() || path[i] == dot_dot(),
    ensures
        ({
            let end = walk(base, path);
            ||| (end.len() <= base.len() && end == base.take(end.len() as int))
            ||| (end.len() > 0 && all_markers(end))
        }),
        (exists|i: int| 0 <= i < path.len() && #[trigger] path[i] == dot_dot()) ==> {
            let end = walk(base, path);
            end.len() < base.len() || (end.len() > 0 && all_markers(end))
        },
    decreases path.len(),
{
    if path.len() > 0 {
        let front = path.drop_last();
        lemma_walk_dots(base, front);
        if path.last() == dot() {
            let i = choose|i: int| 0 <= i < path.len() && #[trigger] path[i] == dot_dot();
            if 0 <= i < path.len() && path[i] == dot_dot() {
                assert(front[i] == dot_dot());
            }
        }
    }
}

/// A relative path that only climbs is refused under every root: what it
/// resolves to is either a proper ancestor of the root or above the start of
/// the root itself.
pub proof fn lemma_climb_is_refused(rooted: bool, base: Seq<Seq<char>>, path: Seq<char>)
    requires
        is_clean(base),
        !is_rooted(path),
        is_climb(components(path)),
    ensures
        !permits(rooted, base, path),
{
    lemma_walk_dots(base, components(path));
    let end = walk(base, components(path));
    if end.len() > 0 && all_markers(end) {
        assert(end[0] == dot_dot());
    }
}

/// A relative path without `..` is let through under every root, and
/// resolves below the root.
pub proof fn lemma_plain_is_permitted(rooted: bool, base: Seq<Seq<char>>, path: Seq<char>)
    requires
        is_clean(base),
        !is_rooted(path),
        is_clean(components(path)),
    ensures
        permits(rooted, base, path),
{
    lemma_walk_plain(base, components(path));
}

proof fn lemma_walk_plain(base: Seq<Seq<char>>, path: Seq<Seq<char>>)
    requires
        is_clean(base),
        is_clean(path),
    ensures
        is_clean(walk(base, path)),
        base.is_prefix_of(walk(base, path)),
    decreases path.len(),
{
    if path.len() > 0 {
        lemma_walk_plain(base, path.drop_last());
        let mid = walk(base, path.drop_last());
        assert(mid.push(path.last()).subrange(0, base.len() as int) == mid.subrange(
            0,
            base.len() as int,
        ));
    }
}

/// What a path comes to when it is resolved by itself.
pub open spec fn net(path: Seq<char>) -> Seq<Seq<char>> {
    walk(Seq::empty(), components(path))
}

/// How many `..` a stack holds.
pub open spec fn climbs(stack: Seq<Seq<char>>) -> nat
    decreases stack.len(),
{
    if stack.len() == 0 {
        0
    } else if stack.last() == dot_dot() {
        climbs(stack.drop_last()) + 1
    } else {
        climbs(stack.drop_last())
    }
}

/// A stack is in normal form when all its `..` stand in front and names
/// follow.
pub open spec fn is_normal(stack: Seq<Seq<char>>) -> bool {
    let k = climbs(stack);
    &&& k <= stack.len()
    &&& all_markers(stack.take(k as int))
    &&& is_plain(stack.skip(k as int))
}

proof fn lemma_dots_differ()
    ensures
        dot() != dot_dot(),
{
    assert(dot().len() != dot_dot().len());
}

/// One step of resolution keeps a stack in normal form.
proof fn lemma_enter_normal(stack: Seq<Seq<char>>, component: Seq<char>)
    requires
        is_normal(stack),
    ensures
        is_normal(enter(stack, component)),
{
    let k = climbs(stack) as int;
    let next = enter(stack, component);
    if component == dot() {
        // `.` leaves the stack as it is.
    } else if component == dot_dot() && stack.len() > 0 && stack.last() != dot_dot() {
        // The last name is taken away.
        assert(k < stack.len()) by {
            if k == stack.len() {
                assert(stack.take(k)[k - 1] == dot_dot());
            }
        }
        assert forall|i: int| 0 <= i < next.skip(k).len() implies (#[trigger] next.skip(k)[i])
            != dot() && next.skip(k)[i] != dot_dot() by {
            assert(next.skip(k)[i] == stack.skip(k)[i]);
        }
    } else if component == dot_dot() {
        // The stack is empty or ends in a marker: it is all markers.
        assert(k == stack.len()) by {
            if k < stack.len() {
                assert(stack.skip(k)[stack.len() - 1 - k] == stack.last());
            }
        }
        assert(next.drop_last() == stack);
        assert forall|i: int| 0 <= i < k + 1 implies #[trigger] next.take(k + 1)[i]
            == dot_dot() by {
            if i < k {
                assert(stack.take(k)[i] == dot_dot());
            }
        }
    } else {
        assert(next.drop_last() == stack);
        assert(next.take(k) =~= stack.take(k));
        assert forall|i: int| 0 <= i < next.skip(k).len() implies (#[trigger] next.skip(k)[i])
            != dot() && next.skip(k)[i] != dot_dot() by {
            if i < stack.len() - k {
                assert(next.skip(k)[i] == stack.skip(k)[i]);
            }
        }
    }
}

/// What a run of components comes to by itself is in normal form.
pub proof fn lemma_walk_normal(path: Seq<Seq<char>>)
    ensures
        is_normal(walk(Seq::empty(), path)),
    decreases path.len(),
{
    if path.len() > 0 {
        lemma_walk_normal(path.drop_last());
        lemma_enter_normal(walk(Seq::empty(), path.drop_last()), path.last());
    }
}

/// A normal form without `..` is plain: a root that was accepted holds
/// names only.
pub proof fn lemma_clean_net_is_plain(path: Seq<Seq<char>>)
    requires
        is_clean(walk(Seq::empty(), path)),
    ensures
        is_plain(walk(Seq::empty(), path)),
{
    lemma_walk_normal(path);
    let n = walk(Seq::empty(), path);
    let k = climbs(n) as int;
    if k > 0 {
        assert(n.take(k)[0] == dot_dot());
    }
    assert(n.skip(0) =~= n);
}

/// Resolving two runs of components one after the other is resolving them
/// joined.
pub proof fn lemma_walk_append(stack: Seq<Seq<char>>, a: Seq<Seq<char>>, b: Seq<Seq<char>>)
    ensures
        walk(stack, a + b) == walk(walk(stack, a), b),
    decreases b.len(),
{
    if b.len() > 0 {
        assert((a + b).drop_last() =~= a + b.drop_last());
        lemma_walk_append(stack, a, b.drop_last());
    }
}

/// Resolving a path from a base is resolving, from that base, what the path
/// comes to by itself.
pub proof fn lemma_walk_through_net(base: Seq<Seq<char>>, path: Seq<Seq<char>>)
    ensures
        walk(base, path) == walk(base, walk(Seq::empty(), path)),
    decreases path.len(),
{
    if path.len() > 0 {
        lemma_dots_differ();
        let front = path.drop_last();
        let x = path.last();
        lemma_walk_through_net(base, front);
        lemma_walk_normal(front);
        let n = walk(Seq::empty(), front);
        let k = climbs(n) as int;
        if x == dot() {
            // `.` changes nothing on either side.
        } else if x == dot_dot() && n.len() > 0 && n.last() != dot_dot() {
            // `n` ends in a name, which `..` takes away on either side.
            assert(k < n.len()) by {
                if k == n.len() {
                    assert(n.take(k)[k - 1] == dot_dot());
                }
            }
            assert(n.skip(k)[n.len() - 1 - k] == n.last());
        } else {
            assert(n.push(x).drop_last() =~= n);
        }
    }
}

/// Names resolved from a stack are put on top of it.
proof fn lemma_walk_names(stack: Seq<Seq<char>>, names: Seq<Seq<char>>)
    requires
        is_plain(names),
    ensures
        walk(stack, names) == stack + names,
    decreases names.len(),
{
    if names.len() > 0 {
        lemma_walk_names(stack, names.drop_last());
    }
}

/// Climb markers resolved from a plain base take away one name each, from
/// the end; once the base is used up they pile up.
proof fn lemma_walk_markers(base: Seq<Seq<char>>, markers: Seq<Seq<char>>)
    requires
        is_plain(base),
        all_markers(markers),
    ensures
        markers.len() <= base.len() ==> walk(base, markers) == base.take(
            base.len() - markers.len(),
        ),
        markers.len() > base.len() ==> walk(base, markers).len() == markers.len() - base.len()
            && all_markers(walk(base, markers)),
    decreases markers.len(),
{
    if markers.len() > 0 {
        let front = markers.drop_last();
        lemma_dots_differ();
        lemma_walk_markers(base, front);
    }
}

/// Where a relative path ends up under a plain base, told from what the
/// path comes to by itself: `k` climbs followed by names. The climbs take
/// away the last `k` names of the base and the names are put on top; where
/// the base has fewer than `k` names, a climb marker is left.
pub proof fn lemma_resolve_relative(base: Seq<Seq<char>>, path: Seq<char>)
    requires
        is_plain(base),
    ensures
        ({
            let n = net(path);
            let k = climbs(n) as int;
            let end = walk(base, components(path));
            &&& is_normal(n)
            &&& k <= base.len() ==> end == base.take(base.len() - k) + n.skip(k)
            &&& k > base.len() ==> end.len() > 0 && end[0] == dot_dot()
        }),
{
    let n = net(path);
    let k = climbs(n) as int;
    lemma_walk_normal(components(path));
    lemma_walk_through_net(base, components(path));
    assert(n =~= n.take(k) + n.skip(k));
    lemma_walk_append(base, n.take(k), n.skip(k));
    lemma_walk_markers(base, n.take(k));
    lemma_walk_names(walk(base, n.take(k)), n.skip(k));
}

/// The verdict on a relative path, told from what the path comes to by
/// itself. With `k` climbs in it, the path is let through if and only if the
/// base has at least `k` names and the path, after its climbs, goes down
/// again through the very `k` directories that it left. In particular a path
/// that never climbs above its start is always let through, and a path that
/// climbs above the base and does not come back into it is always refused.
pub proof fn lemma_relative_verdict(rooted: bool, base: Seq<Seq<char>>, path: Seq<char>)
    requires
        is_plain(base),
        !is_rooted(path),
    ensures
        ({
            let n = net(path);
            let k = climbs(n) as int;
            permits(rooted, base, path) <==> k <= base.len() && base.skip(
                base.len() - k,
            ).is_prefix_of(n.skip(k))
        }),
{
    let n = net(path);
    let k = climbs(n) as int;
    let end = walk(base, components(path));
    lemma_resolve_relative(base, path);
    if k <= base.len() {
        let kept = base.take(base.len() - k);
        let left = base.skip(base.len() - k);
        let names = n.skip(k);
        if left.is_prefix_of(names) {
            assert(base =~= end.subrange(0, base.len() as int)) by {
                assert forall|i: int| 0 <= i < base.len() implies base[i] == end.subrange(
                    0,
                    base.len() as int,
                )[i] by {
                    if i >= kept.len() {
                        assert(left[i - kept.len()] == names.subrange(0, left.len() as int)[i
                            - kept.len()]);
                    }
                }
            }
        }
    }
}

/// A relative path that never climbs above its own start is let through
/// under every root, whatever `.` and `..` it holds on the way.
pub proof fn lemma_inner_path_is_permitted(rooted: bool, base: Seq<Seq<char>>, path: Seq<char>)
    requires
        is_plain(base),
        !is_rooted(path),
        is_clean(net(path)),
    ensures
        permits(rooted, base, path),
        resolve(rooted, base, path).1 == base + net(path),
{
    lemma_relative_verdict(rooted, base, path);
    lemma_resolve_relative(base, path);
    let n = net(path);
    let k = climbs(n) as int;
    if k > 0 {
        assert(n.take(k)[0] == dot_dot());
    }
}

/// A relative path that climbs above the root and does not go down again
/// through the directories it left is refused, whatever follows its climbs.
pub proof fn lemma_escape_is_refused(rooted: bool, base: Seq<Seq<char>>, path: Seq<char>)
    requires
        is_plain(base),
        !is_rooted(path),
        ({
            let n = net(path);
            let k = climbs(n) as int;
            k > base.len() || !base.skip(base.len() - k).is_prefix_of(n.skip(k))
        }),
    ensures
        !permits(rooted, base, path),
{
    lemma_relative_verdict(rooted, base, path);
}

/// The components of a path are names.
pub proof fn lemma_components_are_names(text: Seq<char>)
    ensures
        all_names(components(text)),
        text.len() > 0 && !is_separator(text.last()) ==> components(text).len() > 0,
    decreases text.len(),
{
    if text.len() > 0 {
        let front = text.drop_last();
        lemma_components_are_names(front);
    }
}

/// Resolution makes no component of its own: what it leaves comes from the
/// stack or from the path.
pub proof fn lemma_walk_keeps_names(stack: Seq<Seq<char>>, path: Seq<Seq<char>>)
    requires
        all_names(stack),
        all_names(path),
    ensures
        all_names(walk(stack, path)),
    decreases path.len(),
{
    if path.len() > 0 {
        lemma_walk_keeps_names(stack, path.drop_last());
    }
}

/// A name written after a text that is empty or ends in a separator is one
/// more component.
proof fn lemma_components_push_name(text: Seq<char>, name: Seq<char>)
    requires
        text.len() == 0 || is_separator(text.last()),
        is_name(name),
    ensures
        components(text + name) == components(text).push(name),
    decreases name.len(),
{
    let c = name.last();
    let front = name.drop_last();
    assert((text + name).drop_last() =~= text + front);
    if front.len() == 0 {
        assert(name =~= seq![c]);
    } else {
        lemma_components_push_name(text, front);
        assert(front.push(c) =~= name);
    }
}

/// Names joined by `/` and written after a text that is empty or ends in a
/// separator are read back as they were joined.
proof fn lemma_components_of_joined(text: Seq<char>, parts: Seq<Seq<char>>)
    requires
        text.len() == 0 || is_separator(text.last()),
        all_names(parts),
    ensures
        components(text + joined(parts)) == components(text) + parts,
    decreases parts.len(),
{
    if parts.len() == 0 {
        // Nothing is written after the text.
    } else if parts.len() == 1 {
        lemma_components_push_name(text, parts[0]);
    } else {
        let front = parts.drop_last();
        lemma_components_of_joined(text, front);
        let upto = text + joined(front);
        let sep = upto.push('/');
        assert(sep.drop_last() =~= upto);
        lemma_components_push_name(sep, parts.last());
        assert(text + joined(parts) =~= sep + parts.last());
    }
}

/// The text of a resolved path means that path: it is rooted if and only if
/// the path is, and resolved by itself it comes to the same components.
pub proof fn lemma_render_reads_back(target: (bool, Seq<Seq<char>>))
    requires
        all_names(target.1),
        is_plain(target.1),
    ensures
        is_rooted(render(target)) == target.0,
        net(render(target)) == target.1,
{
    let parts = target.1;
    if target.0 {
        let lead = seq!['/'];
        assert(lead.drop_last() =~= Seq::<char>::empty());
        assert(components(Seq::<char>::empty()) =~= Seq::<Seq<char>>::empty());
        lemma_components_of_joined(lead, parts);
        lemma_walk_names_from_nothing(parts);
    } else if parts.len() == 0 {
        let one = dot();
        let none = Seq::<Seq<char>>::empty();
        assert(one.drop_last() =~= Seq::<char>::empty());
        assert(components(Seq::<char>::empty()) =~= none);
        assert(seq![one].drop_last() =~= none);
        assert(walk(none, none) =~= none);
    } else {
        let none = Seq::<char>::empty();
        lemma_components_of_joined(none, parts);
        lemma_walk_names_from_nothing(parts);
        lemma_joined_starts_with_name(parts);
    }
}

/// Names resolve to themselves.
proof fn lemma_walk_names_from_nothing(names: Seq<Seq<char>>)
    requires
        is_plain(names),
    ensures
        walk(Seq::empty(), names) == names,
{
    lemma_walk_names(Seq::empty(), names);
}

/// Names joined by `/` begin with a character of the first name.
proof fn lemma_joined_starts_with_name(parts: Seq<Seq<char>>)
    requires
        all_names(parts),
        parts.len() > 0,
    ensures
        joined(parts).len() > 0,
        !is_separator(joined(parts)[0]),
    decreases parts.len(),
{
    if parts.len() > 1 {
        let front = parts.drop_last();
        lemma_joined_starts_with_name(front);
    }
}

/// What the sandbox hands back for a path that it lets through is a text
/// that means the resolved path and nothing else: read again, it is rooted
/// as the resolved path is, and comes to the same names, with no `.` and no
/// `..` among them, at or below the base.
pub proof fn lemma_verdict_reads_back(rooted: bool, base: Seq<Seq<char>>, path: Seq<char>)
    requires
        is_plain(base),
        all_names(base),
        permits(rooted, base, path),
    ensures
        ({
            let target = resolve(rooted, base, path);
            let text = render(target);
            &&& is_rooted(text) == rooted
            &&& net(text) == target.1
            &&& is_plain(target.1)
            &&& base.is_prefix_of(net(text))
        }),
{
    let target = resolve(rooted, base, path);
    lemma_components_are_names(path);
    if is_rooted(path) {
        lemma_walk_keeps_names(Seq::empty(), components(path));
        lemma_clean_net_is_plain(components(path));
    } else {
        lemma_walk_keeps_names(base, components(path));
        lemma_resolve_relative(base, path);
    }
    lemma_render_reads_back(target);
}

} // verus!
