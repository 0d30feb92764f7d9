//! Staging: the directory that an upload is staged in, and the name of the file in it.
//!
//! A file keeps the name it came with as long as that name stays in the directory.

use vstd::prelude::*;

use crate::media::without_separator;
use crate::text::{decimal, decimal_text, to_chars};

verus! {

/// How the paths of a platform are read.
#[derive(Clone, Copy, Debug, PartialEq, Eq, Structural)]
pub enum PathStyle {
    /// A slash parts the components of a path.
    Unix,
    /// A slash or a backslash does, and a path may begin with a drive.
    Windows,
}

/// Whether `c` parts the components of a path.
pub open spec fn parts_path(style: PathStyle, c: char) -> bool {
    c == '/' || (style == PathStyle::Windows && c == '\\')
}

/// Whether a path begins with a drive: a letter and a colon.
pub open spec fn has_drive(style: PathStyle, path: Seq<char>) -> bool {
    style == PathStyle::Windows && path.len() >= 2 && path[1] == ':' && ('a' <= path[0] <= 'z'
        || 'A' <= path[0] <= 'Z')
}

/// By how many levels a component leads down from the directory that it stands in.
pub open spec fn levels(component: Seq<char>) -> int {
    if component.len() == 0 || component == seq!['.'] {
        0
    } else if component == seq!['.', '.'] {
        -1
    } else {
        1
    }
}

/// Where the components of a relative path lead.
pub struct Walk {
    /// How many levels below its start the path is after the components that ended.
    pub depth: int,
    /// Whether it was above its start after one of them.
    pub left: bool,
    /// The component that has not ended yet.
    pub component: Seq<char>,
}

impl Walk {
    /// The walk after its component ended.
    pub open spec fn ended(self) -> Walk {
        let depth = self.depth + levels(self.component);
        Walk { depth, left: self.left || depth < 0, component: Seq::empty() }
    }
}

/// The walk along `path`, whose last component may go on.
pub open spec fn walk(style: PathStyle, path: Seq<char>) -> Walk
    decreases path.len(),
{
    if path.len() == 0 {
        Walk { depth: 0, left: false, component: Seq::empty() }
    } else {
        let before = walk(style, path.drop_last());
        if parts_path(style, path.last()) {
            before.ended()
        } else {
            Walk { component: before.component.push(path.last()), ..before }
        }
    }
}

/// Whether a path that is joined to a directory leads out of that directory: it begins at a root
/// or a drive, or goes up further than it went down.
pub open spec fn leads_out(style: PathStyle, path: Seq<char>) -> bool {
    ||| path.len() > 0 && parts_path(style, path[0])
    ||| has_drive(style, path)
    ||| walk(style, path).ended().left
}

/// `c`, and an underscore for what gives a path its parts.
pub open spec fn flat_char(style: PathStyle, c: char) -> char {
    if style == PathStyle::Windows && c == ':' {
        '_'
    } else {
        without_separator(c)
    }
}

/// The name that a file is staged under: the name it came with, unless that leads out of the
/// directory; then that name in one piece.
pub open spec fn staged_name(style: PathStyle, name: Seq<char>) -> Seq<char> {
    if leads_out(style, name) {
        Seq::new(name.len(), |i: int| flat_char(style, name[i]))
    } else {
        name
    }
}

/// By how many levels the component from `start` up to `end` leads down.
fn component_levels(path: &Vec<char>, start: usize, end: usize) -> (r: i128)
    requires
        start <= end <= path@.len(),
    ensures
        r == levels(path@.subrange(start as int, end as int)),
{
    let ghost component = path@.subrange(start as int, end as int);
    let len: usize = end - start;
    if len == 0 {
        0
    } else if len == 1 && path[start] == '.' {
        assert(component =~= seq!['.']);
        0
    } else if len == 2 && path[start] == '.' && path[start + 1] == '.' {
        assert(component =~= seq!['.', '.']);
        -1
    } else {
        proof {
            if component == seq!['.'] {
                assert(component[0] == path@[start as int]);
            }
            if component == seq!['.', '.'] {
                assert(component[0] == path@[start as int]);
                assert(component[1] == path@[start + 1]);
            }
        }
        1
    }
}

/// Whether `c` parts the components of a path.
fn is_separator(style: PathStyle, c: char) -> (r: bool)
    ensures
        r == parts_path(style, c),
{
    c == '/' || (style == PathStyle::Windows && c == '\\')
}

/// Whether a path that is joined to a directory leads out of that directory.
pub fn path_leads_out(style: PathStyle, path: &str) -> (r: bool)
    ensures
        r == leads_out(style, path@),
{
    let chars = to_chars(path);
    if chars.len() > 0 && is_separator(style, chars[0]) {
        return true;
    }
    if style == PathStyle::Windows && chars.len() >= 2 && chars[1] == ':' && (('a' <= chars[0]
        && chars[0] <= 'z') || ('A' <= chars[0] && chars[0] <= 'Z')) {
        return true;
    }
    let mut depth: i128 = 0;
    let mut left: bool = false;
    let mut start: usize = 0;
    let mut i: usize = 0;
    assert(path@.subrange(0, 0) =~= Seq::<char>::empty());
    while i < chars.len()
        invariant
            chars@ == path@,
            start <= i <= chars@.len(),
            -i <= depth <= i,
            walk(style, path@.take(i as int)) == (Walk {
                depth: depth as int,
                left,
                component: path@.subrange(start as int, i as int),
            }),
        decreases chars@.len() - i,
    {
        let ghost before = walk(style, path@.take(i as int));
        assert(path@.take(i + 1).drop_last() =~= path@.take(i as int));
        if is_separator(style, chars[i]) {
            depth = depth + component_levels(&chars, start, i);
            left = left || depth < 0;
            start = i + 1;
            assert(path@.subrange(start as int, i + 1) =~= Seq::<char>::empty());
        } else {
            assert(path@.subrange(start as int, i + 1) =~= before.component.push(path@[i as int]));
        }
        i += 1;
    }
    assert(path@.take(i as int) =~= path@);
    let last: i128 = component_levels(&chars, start, i);
    left || depth + last < 0
}

/// The name that a file is staged under: the name it came with, unless that leads out of the
/// directory; then that name in one piece.
pub fn stage_name(style: PathStyle, name: String) -> (r: String)
    ensures
        r@ == staged_name(style, name@),
{
    if !path_leads_out(style, name.as_str()) {
        return name;
    }
    let chars = to_chars(name.as_str());
    let mut out = String::new();
    let mut i: usize = 0;
    while i < chars.len()
        invariant
            chars@ == name@,
            leads_out(style, name@),
            i <= chars@.len(),
            out@ == staged_name(style, name@).take(i as int),
        decreases chars@.len() - i,
    {
        let c: char = chars[i];
        out.push(
            if c == '/' || c == '\\' || (style == PathStyle::Windows && c == ':') {
                '_'
            } else {
                c
            },
        );
        assert(out@ =~= staged_name(style, name@).take(i + 1));
        i += 1;
    }
    assert(staged_name(style, name@).take(i as int) =~= staged_name(style, name@));
    out
}

/// The name of the directory that an upload is staged in, by the time in seconds; zero stands
/// for a time that is not known.
pub fn staging_name(seconds: Option<u64>) -> (r: String)
    ensures
        r@ == "upload-"@ + decimal(
            match seconds {
                Some(n) => n as nat,
                None => 0,
            },
        ),
{
    let stamp: u64 = match seconds {
        Some(n) => n,
        None => 0,
    };
    "upload-".to_owned().concat(decimal_text(stamp).as_str())
}

/// Without separators a path is its one component.
proof fn lemma_walk_of_one_component(style: PathStyle, path: Seq<char>)
    requires
        forall|i: int| 0 <= i < path.len() ==> !parts_path(style, #[trigger] path[i]),
    ensures
        walk(style, path) == (Walk { depth: 0, left: false, component: path }),
    decreases path.len(),
{
    if path.len() > 0 {
        lemma_walk_of_one_component(style, path.drop_last());
        assert(path.drop_last().push(path.last()) =~= path);
    } else {
        assert(path =~= Seq::<char>::empty());
    }
}

/// A file is staged in the directory made for it: the name it is staged under does not lead out,
/// and is the name it came with if that does not. The one exception is the name of the directory
/// above, under which no file can be written.
pub proof fn staged_file_stays_inside(style: PathStyle, name: Seq<char>)
    ensures
        !leads_out(style, name) ==> staged_name(style, name) == name,
        leads_out(style, staged_name(style, name)) ==> staged_name(style, name) == seq!['.', '.'],
        staged_name(style, name) == seq!['.', '.'] <==> name == seq!['.', '.'],
        staged_name(style, name).len() == name.len(),
{
    let staged = staged_name(style, name);
    let up = seq!['.', '.'];
    if leads_out(style, name) {
        assert forall|i: int| 0 <= i < staged.len() implies !parts_path(
            style,
            #[trigger] staged[i],
        ) && staged[i] == flat_char(style, name[i]) by {}
        lemma_walk_of_one_component(style, staged);
        assert(!has_drive(style, staged));
        if staged == up {
            assert(up[0] == flat_char(style, name[0]) && up[1] == flat_char(style, name[1]));
            assert(name =~= up);
        }
        if name == up {
            assert(staged[0] == flat_char(style, up[0]) && staged[1] == flat_char(style, up[1]));
            assert(staged =~= up);
        }
    }
}

/// The path of these components, one after the other.
pub open spec fn joined(components: Seq<Seq<char>>, separator: char) -> Seq<char>
    decreases components.len(),
{
    if components.len() == 0 {
        Seq::empty()
    } else if components.len() == 1 {
        components[0]
    } else {
        joined(components.drop_last(), separator).push(separator) + components.last()
    }
}

/// How many of the components lead up.
pub open spec fn steps_up(components: Seq<Seq<char>>) -> nat
    decreases components.len(),
{
    if components.len() == 0 {
        0
    } else {
        steps_up(components.drop_last()) + if components.last() == ".."@ {
            1nat
        } else {
            0
        }
    }
}

/// How many of the components lead down: all but the empty ones, the dots, and those that lead up.
pub open spec fn steps_down(components: Seq<Seq<char>>) -> nat
    decreases components.len(),
{
    if components.len() == 0 {
        0
    } else {
        steps_down(components.drop_last()) + if components.last().len() == 0 || components.last()
            == "."@ || components.last() == ".."@ {
            0nat
        } else {
            1
        }
    }
}

/// Whether the components lead up more often than down, at their end or before.
pub open spec fn climbs_out(components: Seq<Seq<char>>) -> bool {
    exists|k: int|
        0 <= k <= components.len() && #[trigger] steps_up(components.take(k)) > steps_down(
            components.take(k),
        )
}

proof fn lemma_walk_on(style: PathStyle, path: Seq<char>, component: Seq<char>)
    requires
        walk(style, path).component.len() == 0,
        forall|i: int| 0 <= i < component.len() ==> !parts_path(style, #[trigger] component[i]),
    ensures
        walk(style, path + component) == (Walk { component, ..walk(style, path) }),
    decreases component.len(),
{
    if component.len() == 0 {
        assert(path + component =~= path);
        assert(walk(style, path).component =~= component);
    } else {
        let front = component.drop_last();
        lemma_walk_on(style, path, front);
        assert((path + component).drop_last() =~= path + front);
        assert(front.push(component.last()) =~= component);
    }
}

proof fn lemma_levels(component: Seq<char>)
    ensures
        component == ".."@ <==> component == seq!['.', '.'],
        component == "."@ <==> component == seq!['.'],
        levels(component) == (if component == ".."@ {
            -1int
        } else if component.len() == 0 || component == "."@ {
            0
        } else {
            1
        }),
{
    reveal_strlit("..");
    reveal_strlit(".");
    assert(".."@ =~= seq!['.', '.']);
    assert("."@ =~= seq!['.']);
    assert(seq!['.', '.'].len() == 2 && seq!['.'].len() == 1);
}

proof fn lemma_walk_of_components(style: PathStyle, components: Seq<Seq<char>>, separator: char)
    requires
        components.len() > 0,
        parts_path(style, separator),
        forall|k: int, i: int|
            0 <= k < components.len() && 0 <= i < components[k].len() ==> !parts_path(
                style,
                #[trigger] components[k][i],
            ),
    ensures
        walk(style, joined(components, separator)).component == components.last(),
        walk(style, joined(components, separator)).ended().depth == steps_up(components) * -1
            + steps_down(components),
        walk(style, joined(components, separator)).ended().left <==> climbs_out(components),
    decreases components.len(),
{
    let path = joined(components, separator);
    let front = components.drop_last();
    let last = components.last();
    assert forall|i: int| 0 <= i < last.len() implies !parts_path(style, #[trigger] last[i]) by {
        assert(!parts_path(style, components[components.len() - 1][i]));
    }
    lemma_levels(last);
    assert(components.take(components.len() as int) =~= components);
    assert(forall|k: int|
        0 <= k < components.len() ==> front.take(k) =~= #[trigger] components.take(k));
    if components.len() == 1 {
        lemma_walk_of_one_component(style, last);
        assert(front.len() == 0);
        assert(components.take(0).len() == 0);
        assert(steps_up(front) == 0 && steps_down(front) == 0);
    } else {
        assert forall|k: int, i: int|
            0 <= k < front.len() && 0 <= i < front[k].len() implies !parts_path(
            style,
            #[trigger] front[k][i],
        ) by {
            assert(!parts_path(style, components[k][i]));
        }
        lemma_walk_of_components(style, front, separator);
        let before = joined(front, separator).push(separator);
        assert(before.drop_last() =~= joined(front, separator));
        assert(walk(style, before) == walk(style, joined(front, separator)).ended());
        lemma_walk_on(style, before, last);
    }
    let ended = walk(style, path).ended();
    if climbs_out(components) {
        let k = choose|k: int|
            0 <= k <= components.len() && #[trigger] steps_up(components.take(k)) > steps_down(
                components.take(k),
            );
        if k < components.len() {
            assert(steps_up(front.take(k)) > steps_down(front.take(k)));
            if components.len() > 1 {
                assert(climbs_out(front));
            }
        }
    }
    if components.len() > 1 && climbs_out(front) {
        let k = choose|k: int|
            0 <= k <= front.len() && #[trigger] steps_up(front.take(k)) > steps_down(
                front.take(k),
            );
        assert(steps_up(components.take(k)) > steps_down(components.take(k)));
    }
    if ended.depth < 0 {
        assert(steps_up(components.take(components.len() as int)) > steps_down(
            components.take(components.len() as int),
        ));
    }
}

/// A path that begins with neither a separator nor a drive leads out exactly if its components
/// lead up more often than down, at their end or before; one that does begin so leads out.
pub proof fn components_decide_where_a_path_leads(
    style: PathStyle,
    components: Seq<Seq<char>>,
    separator: char,
)
    requires
        components.len() > 0,
        separator == '/' || (style == PathStyle::Windows && separator == '\\'),
        forall|k: int, i: int|
            0 <= k < components.len() && 0 <= i < components[k].len() ==> #[trigger]
            components[k][i] != '/' && (components[k][i] != '\\' || style == PathStyle::Unix),
    ensures
        ({
            let path = joined(components, separator);
            let rooted = path.len() > 0 && path[0] == separator;
            let drive = style == PathStyle::Windows && path.len() >= 2 && path[1] == ':' && (
            ('a' <= path[0] && path[0] <= 'z') || ('A' <= path[0] && path[0] <= 'Z'));
            leads_out(style, path) <==> rooted || drive || climbs_out(components)
        }),
{
    let path = joined(components, separator);
    lemma_walk_of_components(style, components, separator);
    if path.len() > 0 && parts_path(style, path[0]) && path[0] != separator {
        lemma_first_separator(style, components, separator);
    }
}

proof fn lemma_first_separator(style: PathStyle, components: Seq<Seq<char>>, separator: char)
    requires
        components.len() > 0,
        forall|k: int, i: int|
            0 <= k < components.len() && 0 <= i < components[k].len() ==> !parts_path(
                style,
                #[trigger] components[k][i],
            ),
        joined(components, separator).len() > 0,
        parts_path(style, joined(components, separator)[0]),
    ensures
        joined(components, separator)[0] == separator,
    decreases components.len(),
{
    if components.len() == 1 {
        assert(!parts_path(style, components[0][0]));
    } else {
        let front = components.drop_last();
        let start = joined(front, separator);
        if start.len() > 0 {
            assert forall|k: int, i: int|
                0 <= k < front.len() && 0 <= i < front[k].len() implies !parts_path(
                style,
                #[trigger] front[k][i],
            ) by {
                assert(!parts_path(style, components[k][i]));
            }
            assert(joined(components, separator)[0] == start[0]);
            lemma_first_separator(style, front, separator);
        }
    }
}

/// A name that leads out is staged in one piece: an underscore stands for each slash and backslash,
/// and where there are drives, for each colon; nothing else changes.
pub proof fn one_piece_keeps_the_rest(style: PathStyle, name: Seq<char>, i: int)
    requires
        leads_out(style, name),
        0 <= i < name.len(),
    ensures
        staged_name(style, name).len() == name.len(),
        name[i] == '/' || name[i] == '\\' || (name[i] == ':' && style == PathStyle::Windows)
            ==> staged_name(style, name)[i] == '_',
        name[i] != '/' && name[i] != '\\' && (name[i] != ':' || style == PathStyle::Unix)
            ==> staged_name(style, name)[i] == name[i],
{
}

} // verus!
