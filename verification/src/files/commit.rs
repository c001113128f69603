//! Putting a container in its place without ever showing half of it.
//!
//! The new bytes are first written to a file beside the container, named like
//! it with `.tmp` behind, and that file is then renamed over the container.
//! The library says which steps are taken; the caller takes them. What a
//! reader may find at any moment, also when the caller is interrupted, is
//! stated here over a model of the directory.

use crate::files::index::is_message_name;
use crate::files::index::suffix;
use vstd::prelude::*;
use vstd::slice::slice_to_vec;

verus! {

/// The name of the file that a container is written to before it takes the
/// container's place: the container's name with `.tmp` behind it.
pub open spec fn temp_name_spec(name: Seq<u8>) -> Seq<u8> {
    name + seq![46u8, 116u8, 109u8, 112u8]
}

/// Writes the name of the file that a container is written to before it
/// takes the container's place.
pub fn temp_name(name: &[u8]) -> (temp: Vec<u8>)
    ensures
        temp@ == temp_name_spec(name@),
{
    let mut temp = slice_to_vec(name);
    temp.push(46);
    temp.push(116);
    temp.push(109);
    temp.push(112);
    assert(temp@ =~= temp_name_spec(name@));
    temp
}

/// One step of putting a container in its place.
#[derive(Clone, Debug, PartialEq, Eq)]
pub enum Step {
    /// Write the bytes to the file of this name. The file is made where it is
    /// missing and is emptied first where it is there.
    Stage { name: Vec<u8>, bytes: Vec<u8> },
    /// Rename the first file to the second, which it replaces at once.
    Swap { from: Vec<u8>, to: Vec<u8> },
}

/// A directory: what each of its files holds, by name.
pub type Directory = Map<Seq<u8>, Seq<u8>>;

/// What a file of a directory holds, or `None` where there is no such file.
pub open spec fn lookup(dir: Directory, name: Seq<u8>) -> Option<Seq<u8>> {
    if dir.contains_key(name) {
        Some(dir[name])
    } else {
        None
    }
}

/// The directory after a step was taken to its end. Renaming a file that is
/// not there changes nothing.
pub open spec fn after(dir: Directory, step: Step) -> Directory {
    match step {
        Step::Stage { name, bytes } => dir.insert(name@, bytes@),
        Step::Swap { from, to } => if dir.contains_key(from@) {
            dir.remove(from@).insert(to@, dir[from@])
        } else {
            dir
        },
    }
}

/// Whether a directory may be what an interrupted step leaves behind. A
/// write that is cut short leaves its file in any state and every other file
/// as it was. A rename has happened or has not.
pub open spec fn torn(dir: Directory, step: Step, left: Directory) -> bool {
    match step {
        Step::Stage { name, bytes } => forall|other: Seq<u8>|
            other != name@ ==> #[trigger] lookup(left, other) == lookup(dir, other),
        Step::Swap { from, to } => left == dir || left == after(dir, step),
    }
}

/// The directory after the first steps of a plan were taken to their end.
pub open spec fn after_steps(dir: Directory, plan: Seq<Step>, taken: int) -> Directory
    decreases taken,
{
    if taken <= 0 {
        dir
    } else {
        after(after_steps(dir, plan, taken - 1), plan[taken - 1])
    }
}

/// Whether a directory may be found while a plan is carried out, or after
/// it was given up at any point: between two steps, or within one.
pub open spec fn on_the_way(dir: Directory, plan: Seq<Step>, found: Directory) -> bool {
    exists|taken: int|
        0 <= taken <= plan.len() && (found == #[trigger] after_steps(dir, plan, taken) || (taken
            < plan.len() && torn(after_steps(dir, plan, taken), plan[taken], found)))
}

/// Whether a plan is the one that puts given bytes in the place of a
/// container: stage them under the temporary name, then swap.
pub open spec fn is_commit(name: Seq<u8>, bytes: Seq<u8>, plan: Seq<Step>) -> bool {
    &&& plan.len() == 2
    &&& plan[0] matches Step::Stage { name: staged, bytes: held }
    &&& staged@ == temp_name_spec(name)
    &&& held@ == bytes
    &&& plan[1] matches Step::Swap { from, to }
    &&& from@ == temp_name_spec(name)
    &&& to@ == name
}

/// The steps that put new bytes in the place of a container.
pub fn commit(name: &[u8], bytes: Vec<u8>) -> (plan: Vec<Step>)
    ensures
        is_commit(name@, bytes@, plan@),
{
    let mut plan: Vec<Step> = Vec::new();
    plan.push(Step::Stage { name: temp_name(name), bytes });
    plan.push(Step::Swap { from: temp_name(name), to: slice_to_vec(name) });
    plan
}

/// The temporary name of a container is not the container's name.
pub proof fn lemma_temp_is_another(name: Seq<u8>)
    ensures
        temp_name_spec(name) != name,
{
    assert(temp_name_spec(name).len() == name.len() + 4);
}

/// Atomicity: whatever is found while a container is put in its place, or
/// after that was given up at any point, the container's file holds what it
/// held before or all of the new bytes, and never anything else. Every other
/// file but the temporary one is as it was.
pub proof fn law_commit_is_atomic(
    dir: Directory,
    name: Seq<u8>,
    bytes: Seq<u8>,
    plan: Seq<Step>,
    found: Directory,
)
    requires
        is_commit(name, bytes, plan),
        on_the_way(dir, plan, found),
    ensures
        lookup(found, name) == lookup(dir, name) || lookup(found, name) == Some(bytes),
        forall|other: Seq<u8>|
            other != name && other != temp_name_spec(name) ==> #[trigger] lookup(found, other)
                == lookup(dir, other),
{
    lemma_temp_is_another(name);
    let temp = temp_name_spec(name);
    let taken = choose|taken: int|
        0 <= taken <= plan.len() && (found == #[trigger] after_steps(dir, plan, taken) || (taken
            < plan.len() && torn(after_steps(dir, plan, taken), plan[taken], found)));
    let d0 = after_steps(dir, plan, 0);
    let d1 = after_steps(dir, plan, 1);
    let d2 = after_steps(dir, plan, 2);
    assert(d0 == dir);
    assert(d1 == after(d0, plan[0]));
    assert(d2 == after(d1, plan[1]));
    assert(d1 == dir.insert(temp, bytes));
    assert(d1.contains_key(temp));
    assert(d2 == d1.remove(temp).insert(name, bytes));
    if taken == 0 {
        if found != d0 {
            assert(torn(d0, plan[0], found));
            assert(lookup(found, name) == lookup(d0, name));
        }
    } else if taken == 1 {
        assert(found == d1 || found == d2);
    } else {
        assert(taken == 2);
    }
    assert forall|other: Seq<u8>| other != name && other != temp implies #[trigger] lookup(
        found,
        other,
    ) == lookup(dir, other) by {
        if taken == 0 && found != d0 {
            assert(lookup(found, other) == lookup(d0, other));
        }
    }
}

/// Completion: once both steps are taken, the container's file holds the new
/// bytes and the temporary file is gone.
pub proof fn law_commit_completes(dir: Directory, name: Seq<u8>, bytes: Seq<u8>, plan: Seq<Step>)
    requires
        is_commit(name, bytes, plan),
    ensures
        lookup(after_steps(dir, plan, 2), name) == Some(bytes),
        lookup(after_steps(dir, plan, 2), temp_name_spec(name)) is None,
{
    lemma_temp_is_another(name);
    let temp = temp_name_spec(name);
    let d0 = after_steps(dir, plan, 0);
    let d1 = after_steps(dir, plan, 1);
    let d2 = after_steps(dir, plan, 2);
    assert(d0 == dir);
    assert(d1 == after(d0, plan[0]));
    assert(d2 == after(d1, plan[1]));
    assert(d1 == dir.insert(temp, bytes));
    assert(d1.contains_key(temp));
}

/// A temporary file that was left behind is no message container: no read
/// of a conversation takes it up.
pub proof fn law_leftover_is_ignored(name: Seq<u8>)
    ensures
        !is_message_name(temp_name_spec(name)),
{
    let t = temp_name_spec(name);
    let tail = t.subrange(t.len() - 8, t.len() as int);
    if t.len() > 8 {
        assert(tail[7] == t[t.len() - 1]);
        assert(t[t.len() - 1] == 112);
        assert(suffix()[7] == 101);
    }
}

/// A temporary file that was left behind does not stand in the way: the next
/// write to the container stages over it.
pub proof fn law_leftover_is_overwritten(
    dir: Directory,
    name: Seq<u8>,
    bytes: Seq<u8>,
    plan: Seq<Step>,
    leftover: Seq<u8>,
)
    requires
        is_commit(name, bytes, plan),
    ensures
        after_steps(dir.insert(temp_name_spec(name), leftover), plan, 2) == after_steps(
            dir,
            plan,
            2,
        ),
{
    lemma_temp_is_another(name);
    let temp = temp_name_spec(name);
    let start = dir.insert(temp, leftover);
    assert(after_steps(start, plan, 0) == start);
    assert(after_steps(start, plan, 1) == after(start, plan[0]));
    assert(after_steps(start, plan, 2) == after(after_steps(start, plan, 1), plan[1]));
    assert(after_steps(dir, plan, 0) == dir);
    assert(after_steps(dir, plan, 1) == after(dir, plan[0]));
    assert(after_steps(dir, plan, 2) == after(after_steps(dir, plan, 1), plan[1]));
    assert(start.insert(temp, bytes) =~= dir.insert(temp, bytes));
}

} // verus!
