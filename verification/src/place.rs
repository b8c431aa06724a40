//! Places that the operating system named, part by part.

use crate::path::{OsText, OsTextView};
use vstd::prelude::*;

verus! {

/// A part of a path.
#[derive(Debug, PartialEq, Eq)]
pub enum PlacePart {
    /// The root of a file system, or the drive that it lies on.
    Root(OsText),
    /// The directory itself: a dot.
    Here,
    /// The directory above: two dots.
    Up,
    /// An entry of the directory.
    Name(OsText),
}

/// What a `PlacePart` holds.
pub enum PartView {
    Root(OsTextView),
    Here,
    Up,
    Name(OsTextView),
}

impl View for PlacePart {
    type V = PartView;

    open spec fn view(&self) -> PartView {
        match self {
            PlacePart::Root(text) => PartView::Root(text@),
            PlacePart::Here => PartView::Here,
            PlacePart::Up => PartView::Up,
            PlacePart::Name(text) => PartView::Name(text@),
        }
    }
}

impl Clone for PlacePart {
    fn clone(&self) -> (copy: PlacePart)
        ensures
            copy@ == self@,
    {
        match self {
            PlacePart::Root(text) => PlacePart::Root(text.clone()),
            PlacePart::Here => PlacePart::Here,
            PlacePart::Up => PlacePart::Up,
            PlacePart::Name(text) => PlacePart::Name(text.clone()),
        }
    }
}

/// The parts that a list holds.
pub open spec fn part_views(list: Seq<PlacePart>) -> Seq<PartView> {
    list.map_values(|p: PlacePart| p@)
}

/// A path that does not start at a root.
pub open spec fn is_relative(path: Seq<PartView>) -> bool {
    path.len() == 0 || !(path[0] is Root)
}

/// The path without the dots that stand for the directory itself.
pub open spec fn undotted(path: Seq<PartView>) -> Seq<PartView>
    decreases path.len(),
{
    if path.len() == 0 {
        path
    } else if path.last() is Here {
        undotted(path.drop_last())
    } else {
        undotted(path.drop_last()).push(path.last())
    }
}

/// How many parts of the path there are up to the last that leads out of a directory.
/// What follows are names.
pub open spec fn bends(path: Seq<PartView>) -> nat
    decreases path.len(),
{
    if path.len() == 0 {
        0
    } else if path.last() is Up {
        path.len()
    } else {
        bends(path.drop_last())
    }
}

/// No part of the path leads out of a directory.
pub open spec fn is_straight(path: Seq<PartView>) -> bool {
    forall|i: int| 0 <= i < path.len() ==> !(#[trigger] path[i] is Up)
}

/// Dots are left out part by part.
pub proof fn dots_are_left_out_part_by_part(first: Seq<PartView>, second: Seq<PartView>)
    ensures
        undotted(first + second) == undotted(first) + undotted(second),
    decreases second.len(),
{
    if second.len() == 0 {
        assert(first + second == first);
        assert(undotted(first) + undotted(second) == undotted(first));
    } else {
        assert((first + second).drop_last() == first + second.drop_last());
        assert((first + second).last() == second.last());
        dots_are_left_out_part_by_part(first, second.drop_last());
    }
}

/// A path without dots is left as it is.
pub proof fn undotted_paths_stay(path: Seq<PartView>)
    requires
        forall|i: int| 0 <= i < path.len() ==> !(#[trigger] path[i] is Here),
    ensures
        undotted(path) == path,
    decreases path.len(),
{
    if path.len() > 0 {
        assert(!(path[path.len() - 1] is Here));
        undotted_paths_stay(path.drop_last());
        assert(path.drop_last().push(path.last()) == path);
    }
}

/// The last part that leads out of a directory stands before what is taken to be names,
/// and a straight path has none.
pub proof fn bends_end_the_winding_part(path: Seq<PartView>)
    ensures
        bends(path) <= path.len(),
        bends(path) > 0 ==> path[bends(path) - 1] is Up,
        is_straight(path.skip(bends(path) as int)),
        is_straight(path) <==> bends(path) == 0,
    decreases path.len(),
{
    if path.len() > 0 {
        let rest = path.drop_last();
        bends_end_the_winding_part(rest);
        if path.last() is Up {
            assert(path[path.len() - 1] is Up);
        } else {
            let n = bends(path) as int;
            assert forall|i: int| 0 <= i < path.skip(n).len() implies !(#[trigger] path.skip(
                n,
            )[i] is Up) by {
                if i < rest.skip(n).len() {
                    assert(path.skip(n)[i] == rest.skip(n)[i]);
                }
            }
            if n == 0 {
                assert(path.skip(0) == path);
            } else {
                assert(path[n - 1] == rest[n - 1]);
            }
        }
    }
}

/// Adds the first `count` parts of a path, without dots.
pub(crate) fn add_undotted(way: &mut Vec<PlacePart>, path: &Vec<PlacePart>, count: usize)
    requires
        count <= path@.len(),
    ensures
        part_views(final(way)@) == part_views(old(way)@) + undotted(
            part_views(path@).take(count as int),
        ),
{
    let ghost start = part_views(way@);
    let ghost whole = part_views(path@);
    let mut i: usize = 0;
    assert(undotted(whole.take(0)) =~= Seq::empty());
    while i < count
        invariant
            i <= count <= path@.len(),
            whole == part_views(path@),
            part_views(way@) == start + undotted(whole.take(i as int)),
        decreases count - i,
    {
        let ghost before = way@;
        assert(whole.take(i + 1).drop_last() == whole.take(i as int));
        assert(whole.take(i + 1).last() == path@[i as int]@);
        match &path[i] {
            PlacePart::Here => {},
            part => {
                way.push(part.clone());
                assert(part_views(way@) =~= part_views(before).push(path@[i as int]@));
            },
        }
        i += 1;
    }
}

/// Counts the parts of a path up to the last that leads out of a directory.
pub(crate) fn count_bends(path: &Vec<PlacePart>) -> (count: usize)
    ensures
        count == bends(part_views(path@)),
        count <= path@.len(),
{
    let ghost whole = part_views(path@);
    let mut count: usize = path.len();
    assert(whole.take(count as int) == whole);
    while count > 0
        invariant
            count <= path@.len(),
            whole == part_views(path@),
            bends(whole.take(count as int)) == bends(whole),
        decreases count,
    {
        assert(whole.take(count as int).last() == path@[count - 1]@);
        if let PlacePart::Up = &path[count - 1] {
            return count;
        }
        assert(whole.take(count as int).drop_last() == whole.take(count - 1));
        count -= 1;
    }
    assert(whole.take(0).len() == 0);
    count
}

/// Copies the parts of a path from `from` on to its end.
pub(crate) fn add_rest(way: &mut Vec<PlacePart>, path: &Vec<PlacePart>, from: usize)
    requires
        from <= path@.len(),
    ensures
        part_views(final(way)@) == part_views(old(way)@) + part_views(path@).skip(from as int),
{
    let ghost start = part_views(way@);
    let ghost whole = part_views(path@);
    let mut i: usize = from;
    assert(start + whole.subrange(from as int, from as int) == start);
    while i < path.len()
        invariant
            from <= i <= path@.len(),
            whole == part_views(path@),
            part_views(way@) == start + whole.subrange(from as int, i as int),
        decreases path@.len() - i,
    {
        let ghost before = way@;
        way.push(path[i].clone());
        assert(part_views(way@) =~= part_views(before).push(whole[i as int]));
        assert(whole.subrange(from as int, i + 1) == whole.subrange(from as int, i as int).push(
            whole[i as int],
        ));
        i += 1;
    }
}

} // verus!
