//! Paths as text: components separated by `/`, which platforms with a separator
//! of their own accept too.

use vstd::prelude::*;
use crate::text;

verus! {

/// The path of `part` under `base`: an absolute `part` stands for itself,
/// otherwise it is appended with exactly one separator between the two.
pub open spec fn under(base: Seq<char>, part: Seq<char>) -> Seq<char> {
    if part.len() > 0 && part[0] == '/' {
        part
    } else if base.len() == 0 || base.last() == '/' {
        base + part
    } else {
        base + "/"@ + part
    }
}

/// Whether `name` is a single ordinary path component.
pub open spec fn is_component(name: Seq<char>) -> bool {
    &&& name.len() > 0
    &&& name != "."@
    &&& name != ".."@
    &&& forall|i: int| 0 <= i < name.len() ==> #[trigger] name[i] != '/'
}

/// The path of `part` under `base`.
pub fn join(base: &str, part: &str) -> (path: String)
    ensures
        path@ == under(base@, part@),
{
    let base_length = base.unicode_len();
    if part.unicode_len() > 0 && part.get_char(0) == '/' {
        return part.to_owned();
    }
    let mut path = base.to_owned();
    if base_length > 0 && base.get_char(base_length - 1) != '/' {
        path.append("/");
    }
    path.append(part);
    path
}

/// The path reached from `base` through each of `parts` in turn.
pub open spec fn through(base: Seq<char>, parts: Seq<Seq<char>>) -> Seq<char>
    decreases parts.len(),
{
    if parts.len() == 0 {
        base
    } else {
        under(through(base, parts.drop_last()), parts.last())
    }
}

/// Follows `parts` in turn from `base`.
pub fn join_all(base: &str, parts: &Vec<String>) -> (path: String)
    ensures
        path@ == through(base@, text::views(parts@)),
{
    let mut path = base.to_owned();
    let mut i: usize = 0;
    assert(text::views(parts@).take(0) =~= Seq::empty());
    while i < parts.len()
        invariant
            0 <= i <= parts@.len(),
            path@ == through(base@, text::views(parts@).take(i as int)),
        decreases parts@.len() - i,
    {
        assert(text::views(parts@).take(i + 1).drop_last() =~= text::views(parts@).take(i as int));
        assert(text::views(parts@).take(i + 1).last() == parts@[i as int]@);
        path = join(path.as_str(), parts[i].as_str());
        i = i + 1;
    }
    assert(text::views(parts@).take(i as int) =~= text::views(parts@));
    path
}

/// A path that goes down from `base` through ordinary components starts with
/// `base` and never steps out of it.
pub proof fn through_stays_inside(base: Seq<char>, parts: Seq<Seq<char>>)
    requires
        forall|i: int| 0 <= i < parts.len() ==> is_component(#[trigger] parts[i]),
    ensures
        through(base, parts).len() >= base.len(),
        through(base, parts).take(base.len() as int) == base,
    decreases parts.len(),
{
    if parts.len() == 0 {
        assert(base.take(base.len() as int) =~= base);
    } else {
        let init = parts.drop_last();
        assert forall|i: int| 0 <= i < init.len() implies is_component(#[trigger] init[i]) by {
            assert(init[i] == parts[i]);
        }
        through_stays_inside(base, init);
        assert(is_component(parts[parts.len() - 1]));
        assert(parts.last()[0] != '/');
        assert(through(base, parts).take(base.len() as int) =~= base);
    }
}

/// A path without the separators and the `.` components at its end. A path that
/// is nothing but one of them stays.
pub open spec fn trimmed(path: Seq<char>) -> Seq<char>
    decreases path.len(),
{
    if path.len() > 1 && (path.last() == '/' || (path.last() == '.' && path[path.len() - 2] == '/')) {
        trimmed(path.drop_last())
    } else {
        path
    }
}

/// Everything up to the last separator of a path, with it.
pub open spec fn front_part(path: Seq<char>) -> Seq<char>
    decreases path.len(),
{
    if path.len() == 0 || path.last() == '/' {
        path
    } else {
        front_part(path.drop_last())
    }
}

/// The directory that `path` is in: what is in front of its last component,
/// without the separators and the `.` components between the two. The root is
/// in itself.
pub open spec fn directory_part(path: Seq<char>) -> Seq<char> {
    trimmed(front_part(trimmed(path)))
}

/// Where a path ends without the separators and the `.` components at its end.
fn trimmed_length(chars: &Vec<char>, length: usize) -> (end: usize)
    requires
        length <= chars@.len(),
    ensures
        end <= length,
        chars@.take(end as int) == trimmed(chars@.take(length as int)),
{
    let mut end: usize = length;
    while end > 1 && (chars[end - 1] == '/' || (chars[end - 1] == '.' && chars[end - 2] == '/'))
        invariant
            end <= length <= chars@.len(),
            trimmed(chars@.take(end as int)) == trimmed(chars@.take(length as int)),
        decreases end,
    {
        assert(chars@.take(end as int).drop_last() =~= chars@.take(end - 1));
        end = end - 1;
    }
    end
}

/// The directory that `path` is in.
pub fn directory(path: &str) -> (dir: String)
    ensures
        dir@ == directory_part(path@),
{
    let chars = text::chars_of(path);
    assert(chars@.take(chars@.len() as int) =~= path@);
    let mut end: usize = trimmed_length(&chars, chars.len());
    while end > 0 && chars[end - 1] != '/'
        invariant
            0 <= end <= chars@.len(),
            front_part(chars@.take(end as int)) == front_part(trimmed(path@)),
        decreases end,
    {
        assert(chars@.take(end as int).drop_last() =~= chars@.take(end - 1));
        end = end - 1;
    }
    let end = trimmed_length(&chars, end);
    let slice = vstd::slice::slice_subrange(chars.as_slice(), 0, end);
    assert(slice@ =~= chars@.take(end as int));
    text::string_of(slice)
}

/// A trimmed path is the beginning of the path, and stays as it is when it is
/// trimmed again.
pub proof fn trimming_shortens(path: Seq<char>)
    ensures
        trimmed(path).len() <= path.len(),
        path.take(trimmed(path).len() as int) == trimmed(path),
        trimmed(trimmed(path)) == trimmed(path),
    decreases path.len(),
{
    if path.len() > 1 && (path.last() == '/' || (path.last() == '.' && path[path.len() - 2] == '/')) {
        trimming_shortens(path.drop_last());
        let short = trimmed(path);
        assert(path.drop_last().take(short.len() as int) =~= path.take(short.len() as int));
    } else {
        assert(path.take(path.len() as int) =~= path);
    }
}

/// What stands directly under a directory is in that directory, under its own
/// name.
pub proof fn components_are_in_their_directory(base: Seq<char>, component: Seq<char>)
    requires
        is_component(component),
    ensures
        trimmed(under(base, component)) == under(base, component),
        directory_part(under(base, component)) == trimmed(base),
        name_part(under(base, component)) == component,
{
    let path = under(base, component);
    reveal_strlit("/");
    reveal_strlit(".");
    assert(component[0] != '/');
    let front = if base.len() == 0 || base.last() == '/' {
        base
    } else {
        base + "/"@
    };
    assert(path =~= front + component);
    assert(path.last() == component[component.len() - 1]);
    assert(component[component.len() - 1] != '/');
    if path.len() > 1 && path.last() == '.' && path[path.len() - 2] == '/' {
        if component.len() > 1 {
            assert(component[component.len() - 2] == path[path.len() - 2]);
        } else {
            assert(component =~= "."@);
        }
    }
    fronts_end_at_the_component(front, component);
    names_behind_a_separator(front, component);
    if base.len() > 0 && base.last() != '/' {
        assert(front.drop_last() =~= base);
    }
}

/// What stands behind a separator, and holds none, is not part of the front.
proof fn fronts_end_at_the_component(front: Seq<char>, component: Seq<char>)
    requires
        front.len() == 0 || front.last() == '/',
        forall|i: int| 0 <= i < component.len() ==> #[trigger] component[i] != '/',
    ensures
        front_part(front + component) == front,
    decreases component.len(),
{
    let path = front + component;
    if component.len() == 0 {
        assert(path =~= front);
    } else {
        let init = component.drop_last();
        assert forall|i: int| 0 <= i < init.len() implies #[trigger] init[i] != '/' by {
            assert(init[i] == component[i]);
        }
        fronts_end_at_the_component(front, init);
        assert(path.drop_last() =~= front + init);
        assert(component[component.len() - 1] != '/');
    }
}

/// The last component of a path: everything behind its last separator.
pub open spec fn name_part(path: Seq<char>) -> Seq<char>
    decreases path.len(),
{
    if path.len() == 0 || path.last() == '/' {
        Seq::empty()
    } else {
        name_part(path.drop_last()).push(path.last())
    }
}

/// The last component of `path`.
pub fn name(path: &str) -> (name: String)
    ensures
        name@ == name_part(path@),
{
    let chars = text::chars_of(path);
    let mut start: usize = chars.len();
    assert(path@.take(start as int) =~= path@);
    assert(name_part(path@) =~= name_part(path@) + path@.skip(start as int));
    while start > 0 && chars[start - 1] != '/'
        invariant
            chars@ == path@,
            0 <= start <= chars@.len(),
            name_part(path@) == name_part(path@.take(start as int)) + path@.skip(start as int),
        decreases start,
    {
        let ghost front = name_part(path@.take(start - 1));
        assert(path@.take(start as int).drop_last() =~= path@.take(start - 1));
        assert(front.push(path@[start - 1]) + path@.skip(start as int) =~= front + path@.skip(
            start - 1,
        ));
        start = start - 1;
    }
    assert(name_part(path@) =~= path@.skip(start as int));
    let slice = vstd::slice::slice_subrange(chars.as_slice(), start, chars.len());
    assert(slice@ =~= path@.skip(start as int));
    text::string_of(slice)
}

/// The last component of a path holds no separator.
pub proof fn names_hold_no_separator(path: Seq<char>)
    ensures
        forall|i: int| 0 <= i < name_part(path).len() ==> #[trigger] name_part(path)[i] != '/',
    decreases path.len(),
{
    if path.len() > 0 && path.last() != '/' {
        let init = name_part(path.drop_last());
        names_hold_no_separator(path.drop_last());
        assert forall|i: int| 0 <= i < name_part(path).len() implies #[trigger] name_part(path)[i]
            != '/' by {
            if i < init.len() {
                assert(name_part(path)[i] == init[i]);
            }
        }
    }
}

/// What stands behind a separator, and holds none, is the last component.
proof fn names_behind_a_separator(front: Seq<char>, component: Seq<char>)
    requires
        front.len() == 0 || front.last() == '/',
        forall|i: int| 0 <= i < component.len() ==> #[trigger] component[i] != '/',
    ensures
        name_part(front + component) == component,
    decreases component.len(),
{
    let path = front + component;
    if component.len() == 0 {
        assert(path =~= front);
        assert(name_part(path) =~= component);
    } else {
        let init = component.drop_last();
        assert forall|i: int| 0 <= i < init.len() implies #[trigger] init[i] != '/' by {
            assert(init[i] == component[i]);
        }
        names_behind_a_separator(front, init);
        assert(path.drop_last() =~= front + init);
        assert(component[component.len() - 1] != '/');
        assert(name_part(path) =~= component);
    }
}

/// A relative part is appended to its base with exactly one separator between
/// the two; an absolute one stands for itself.
pub proof fn parts_follow_one_separator(base: Seq<char>, part: Seq<char>)
    ensures
        part.len() > 0 && part[0] == '/' ==> under(base, part) == part,
        !(part.len() > 0 && part[0] == '/') ==> {
            let path = under(base, part);
            let between = path.len() - base.len() - part.len();
            &&& base.is_prefix_of(path)
            &&& part.is_suffix_of(path)
            &&& between == 0 || between == 1
            &&& base.len() == 0 ==> between == 0
            &&& base.len() > 0 ==> path[base.len() - 1 + between] == '/' && (between == 1
                ==> base.last() != '/')
        },
{
    reveal_strlit("/");
    let path = under(base, part);
    if !(part.len() > 0 && part[0] == '/') {
        assert(path.take(base.len() as int) =~= base);
        assert(path.subrange(path.len() - part.len(), path.len() as int) =~= part);
    }
}

/// A path is its front and its last component: the front is empty or ends with
/// a separator, and the last component holds none.
pub proof fn paths_are_fronts_and_names(path: Seq<char>)
    ensures
        front_part(path) + name_part(path) == path,
        front_part(path).len() > 0 ==> front_part(path).last() == '/',
        forall|i: int| 0 <= i < name_part(path).len() ==> #[trigger] name_part(path)[i] != '/',
    decreases path.len(),
{
    names_hold_no_separator(path);
    if path.len() == 0 || path.last() == '/' {
        assert(front_part(path) + name_part(path) =~= path);
    } else {
        let init = path.drop_last();
        paths_are_fronts_and_names(init);
        assert(front_part(init) + name_part(init).push(path.last()) =~= (front_part(init)
            + name_part(init)).push(path.last()));
        assert(init.push(path.last()) =~= path);
    }
}

/// A trimmed path ends neither in a separator nor in a `.` component, unless it
/// is a single character; and only separators and `.` components were taken
/// away.
pub proof fn trimmed_paths_end_in_a_name(path: Seq<char>)
    ensures
        ({
            let short = trimmed(path);
            &&& short.is_prefix_of(path)
            &&& short.len() > 1 ==> short.last() != '/' && !(short.last() == '.' && short[short.len()
                - 2] == '/')
            &&& path.len() > 0 ==> short.len() > 0
            &&& forall|i: int|
                short.len() <= i < path.len() ==> (#[trigger] path[i] == '/' || (path[i] == '.'
                    && path[i - 1] == '/'))
        }),
    decreases path.len(),
{
    let short = trimmed(path);
    if path.len() > 1 && (path.last() == '/' || (path.last() == '.' && path[path.len() - 2] == '/')) {
        let init = path.drop_last();
        trimmed_paths_end_in_a_name(init);
        assert(init.take(short.len() as int) =~= path.take(short.len() as int));
        assert forall|i: int| short.len() <= i < path.len() implies (#[trigger] path[i] == '/' || (
        path[i] == '.' && path[i - 1] == '/')) by {
            if i < init.len() {
                assert(init[i] == path[i]);
                assert(i > 0);
                assert(init[i - 1] == path[i - 1]);
            }
        }
    } else {
        assert(path.take(path.len() as int) =~= path);
    }
}

/// A path goes down through its parts one by one: what two lists of parts lead
/// to is what the second leads to from where the first has led.
pub proof fn paths_are_followed_in_turn(
    base: Seq<char>,
    first: Seq<Seq<char>>,
    second: Seq<Seq<char>>,
)
    ensures
        through(base, first + second) == through(through(base, first), second),
        first.len() == 0 ==> through(base, first) == base,
        first.len() == 1 ==> through(base, first) == under(base, first[0]),
    decreases second.len(),
{
    if first.len() == 1 {
        assert(first.drop_last() =~= Seq::empty());
        assert(through(base, first.drop_last()) == base);
    }
    if second.len() == 0 {
        assert(first + second =~= first);
    } else {
        paths_are_followed_in_turn(base, first, second.drop_last());
        assert((first + second).drop_last() =~= first + second.drop_last());
    }
}

} // verus!
