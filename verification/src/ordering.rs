//! The order in which faces are written: those between cells first, then
//! patch by patch.

use crate::mesh;
use crate::mesh::PhysicalName;
use crate::text;
use crate::topology::FaceRecord;
use vstd::prelude::*;

verus! {

/// A patch as it is written.
#[derive(Debug)]
pub struct PatchSummary {
    pub name: String,
    pub patch_type: String,
    pub physical_tag: Option<i32>,
    pub faces: usize,
    pub start_face: usize,
}

/// The mathematical view of a [`PatchSummary`].
pub struct PatchSummaryView {
    pub name: Seq<char>,
    pub patch_type: Seq<char>,
    pub physical_tag: Option<i32>,
    pub faces: nat,
    pub start_face: nat,
}

impl View for PatchSummary {
    type V = PatchSummaryView;

    open spec fn view(&self) -> PatchSummaryView {
        PatchSummaryView {
            name: self.name@,
            patch_type: self.patch_type@,
            physical_tag: self.physical_tag,
            faces: self.faces as nat,
            start_face: self.start_face as nat,
        }
    }
}

/// The views of patches.
pub open spec fn summary_views(patches: Seq<PatchSummary>) -> Seq<PatchSummaryView> {
    Seq::new(patches.len(), |i: int| patches[i]@)
}

/// What is asked of the written mesh.
#[derive(Debug)]
pub struct FoamWriteOptions {
    /// Patches with their types; no patch occurs twice.
    pub patch_types: Vec<(String, String)>,
}

/// The faces of a mesh in the order in which they are written.
#[derive(Debug)]
pub struct OrderedFaces {
    pub face_indices: Vec<usize>,
    pub internal_face_indices: Vec<usize>,
    /// For each face of the topology its place in the order.
    pub labels: Vec<Option<usize>>,
    pub patches: Vec<PatchSummary>,
}

/// The type of the first patch from `at` on with a name.
pub open spec fn type_from(types: Seq<(String, String)>, name: Seq<char>, at: int) -> Option<
    Seq<char>,
>
    decreases types.len() - at,
{
    if at >= types.len() {
        None
    } else if types[at].0@ == name {
        Some(types[at].1@)
    } else {
        type_from(types, name, at + 1)
    }
}

impl FoamWriteOptions {
    /// The type that is asked for a patch.
    pub open spec fn asked(&self, name: Seq<char>) -> Option<Seq<char>> {
        type_from(self.patch_types@, name, 0)
    }

    /// The type of a patch.
    pub open spec fn type_of(&self, name: Seq<char>) -> Seq<char> {
        match self.asked(name) {
            Some(found) => found,
            None => "patch"@,
        }
    }

    /// Whether no patch occurs twice.
    pub open spec fn valid(&self) -> bool {
        forall|i: int, j: int|
            0 <= i < j < self.patch_types@.len() ==> (#[trigger] self.patch_types@[i]).0@ != (
            #[trigger] self.patch_types@[j]).0@
    }

    /// Asks for the type of a patch; an earlier type is replaced.
    pub fn set_patch_type(&mut self, patch_name: &str, patch_type: &str)
        requires
            old(self).valid(),
        ensures
            final(self).valid(),
            forall|name: Seq<char>|
                #[trigger] final(self).asked(name) == if name == mesh::sanitized(patch_name@) {
                    Some(patch_type@)
                } else {
                    old(self).asked(name)
                },
    {
        let name = mesh::sanitize_name(patch_name);
        let ghost before = self.patch_types@;
        let mut at: usize = 0;
        while at < self.patch_types.len()
            invariant
                at <= self.patch_types@.len(),
                self.patch_types@ == before,
                old(self).patch_types@ == before,
                old(self).valid(),
                name@ == mesh::sanitized(patch_name@),
                forall|i: int| 0 <= i < at ==> (#[trigger] before[i]).0@ != name@,
            decreases self.patch_types@.len() - at,
        {
            if text::text_eq(self.patch_types[at].0.as_str(), name.as_str()) {
                self.patch_types.set(at, (name, patch_type.to_string()));
                proof {
                    let after = self.patch_types@;
                    assert forall|wanted: Seq<char>|
                        #[trigger] self.asked(wanted) == if wanted == name@ {
                            Some(patch_type@)
                        } else {
                            old(self).asked(wanted)
                        } by {
                        lemma_type_replaced(before, after, at as int, wanted, 0);
                    }
                }
                return ;
            }
            at += 1;
        }
        self.patch_types.push((name, patch_type.to_string()));
        proof {
            let after = self.patch_types@;
            assert forall|wanted: Seq<char>|
                #[trigger] self.asked(wanted) == if wanted == name@ {
                    Some(patch_type@)
                } else {
                    old(self).asked(wanted)
                } by {
                lemma_type_pushed(before, after, wanted, 0);
            }
        }
    }

    /// The type of a patch.
    pub fn patch_type_for(&self, name: &str) -> (found: String)
        ensures
            found@ == self.type_of(name@),
    {
        let types = &self.patch_types;
        let mut at: usize = 0;
        while at < types.len()
            invariant
                at <= types@.len(),
                *types == self.patch_types,
                type_from(types@, name@, 0) == type_from(types@, name@, at as int),
            decreases types@.len() - at,
        {
            if text::text_eq(types[at].0.as_str(), name) {
                return types[at].1.clone();
            }
            at += 1;
        }
        "patch".to_string()
    }
}

impl Default for FoamWriteOptions {
    fn default() -> (options: FoamWriteOptions)
        ensures
            options.valid(),
            forall|name: Seq<char>| #[trigger] options.asked(name) is None,
    {
        FoamWriteOptions { patch_types: Vec::new() }
    }
}

proof fn lemma_type_replaced(
    before: Seq<(String, String)>,
    after: Seq<(String, String)>,
    at: int,
    wanted: Seq<char>,
    from: int,
)
    requires
        0 <= from,
        0 <= at < before.len(),
        after.len() == before.len(),
        after[at].0@ == before[at].0@,
        forall|i: int| 0 <= i < before.len() && i != at ==> #[trigger] after[i] == before[i],
        forall|i: int| 0 <= i < at ==> (#[trigger] before[i]).0@ != before[at].0@,
    ensures
        type_from(after, wanted, from) == if wanted == before[at].0@ && from <= at {
            Some(after[at].1@)
        } else {
            type_from(before, wanted, from)
        },
    decreases before.len() - from,
{
    if from < before.len() {
        lemma_type_replaced(before, after, at, wanted, from + 1);
        if from != at {
            assert(after[from] == before[from]);
        }
    }
}

proof fn lemma_type_pushed(
    before: Seq<(String, String)>,
    after: Seq<(String, String)>,
    wanted: Seq<char>,
    from: int,
)
    requires
        0 <= from <= before.len(),
        after.len() == before.len() + 1,
        forall|i: int| 0 <= i < before.len() ==> #[trigger] after[i] == before[i],
        forall|i: int| 0 <= i < before.len() ==> (#[trigger] before[i]).0@ != after.last().0@,
    ensures
        type_from(after, wanted, from) == if wanted == after.last().0@ {
            Some(after.last().1@)
        } else {
            type_from(before, wanted, from)
        },
    decreases before.len() - from,
{
    if from < before.len() {
        lemma_type_pushed(before, after, wanted, from + 1);
        assert(after[from] == before[from]);
    } else {
        assert(type_from(after, wanted, from + 1) is None);
        assert(type_from(before, wanted, from) is None);
    }
}

/// The patch that a face is written with: a face between cells has none.
pub open spec fn patch_name(face: FaceRecord) -> Option<Seq<char>> {
    if face.neighbour is Some {
        None
    } else {
        match face.patch {
            Some(patch) => Some(patch.name@),
            None => None,
        }
    }
}

/// The faces between cells among the first `n`.
pub open spec fn internal(faces: Seq<FaceRecord>, n: int) -> Seq<usize>
    decreases n,
{
    if n <= 0 {
        Seq::empty()
    } else if faces[n - 1].neighbour is Some {
        internal(faces, n - 1).push((n - 1) as usize)
    } else {
        internal(faces, n - 1)
    }
}

/// The faces of a patch among the first `n`.
pub open spec fn of_patch(faces: Seq<FaceRecord>, name: Seq<char>, n: int) -> Seq<usize>
    decreases n,
{
    if n <= 0 {
        Seq::empty()
    } else if patch_name(faces[n - 1]) == Some(name) {
        of_patch(faces, name, n - 1).push((n - 1) as usize)
    } else {
        of_patch(faces, name, n - 1)
    }
}

/// The faces of a patch.
pub open spec fn patch_faces(faces: Seq<FaceRecord>, name: Seq<char>) -> Seq<usize> {
    of_patch(faces, name, faces.len() as int)
}

/// A sorted list with a name put in its place; a name that it holds already
/// is not repeated.
pub open spec fn name_inserted(names: Seq<Seq<char>>, name: Seq<char>) -> Seq<Seq<char>>
    decreases names.len(),
{
    if names.len() == 0 || text::precedes(names.last(), name) {
        names.push(name)
    } else if names.last() == name {
        names
    } else {
        name_inserted(names.drop_last(), name).push(names.last())
    }
}

/// The patches of the first `n` faces, sorted by name.
pub open spec fn sorted_names(faces: Seq<FaceRecord>, n: int) -> Seq<Seq<char>>
    decreases n,
{
    if n <= 0 {
        Seq::empty()
    } else {
        match patch_name(faces[n - 1]) {
            Some(name) => name_inserted(sorted_names(faces, n - 1), name),
            None => sorted_names(faces, n - 1),
        }
    }
}

/// The patches with faces in the order of the first `n` named groups of
/// surfaces.
pub open spec fn group_order(faces: Seq<FaceRecord>, groups: Seq<PhysicalName>, n: int) -> Seq<
    Seq<char>,
>
    decreases n,
{
    if n <= 0 {
        Seq::empty()
    } else {
        let earlier = group_order(faces, groups, n - 1);
        let name = mesh::sanitized(groups[n - 1].name@);
        if groups[n - 1].dim == 2 && patch_faces(faces, name).len() > 0 && !earlier.contains(name) {
            earlier.push(name)
        } else {
            earlier
        }
    }
}

/// `head` with those of the first `n` names that it does not hold.
pub open spec fn completed(head: Seq<Seq<char>>, names: Seq<Seq<char>>, n: int) -> Seq<Seq<char>>
    decreases n,
{
    if n <= 0 {
        head
    } else {
        let earlier = completed(head, names, n - 1);
        if earlier.contains(names[n - 1]) {
            earlier
        } else {
            earlier.push(names[n - 1])
        }
    }
}

/// The patches in the order in which they are written: those of the named
/// groups, in their order, and behind them the others by name.
pub open spec fn patch_order(faces: Seq<FaceRecord>, groups: Seq<PhysicalName>) -> Seq<Seq<char>> {
    let names = sorted_names(faces, faces.len() as int);
    completed(group_order(faces, groups, groups.len() as int), names, names.len() as int)
}

/// The order of the faces up to the first `n` patches.
pub open spec fn face_order(faces: Seq<FaceRecord>, order: Seq<Seq<char>>, n: int) -> Seq<usize>
    decreases n,
{
    if n <= 0 {
        internal(faces, faces.len() as int)
    } else {
        face_order(faces, order, n - 1) + patch_faces(faces, order[n - 1])
    }
}

/// The tag of a patch: that of its first face.
pub open spec fn patch_tag(faces: Seq<FaceRecord>, name: Seq<char>) -> Option<i32> {
    let found = patch_faces(faces, name);
    if found.len() == 0 {
        None
    } else {
        match faces[found[0] as int].patch {
            Some(patch) => patch.physical_tag,
            None => None,
        }
    }
}

/// The patches as they are written.
pub open spec fn ordered_patches(
    faces: Seq<FaceRecord>,
    order: Seq<Seq<char>>,
    options: FoamWriteOptions,
) -> Seq<PatchSummaryView> {
    Seq::new(
        order.len(),
        |i: int|
            PatchSummaryView {
                name: order[i],
                patch_type: options.type_of(order[i]),
                physical_tag: patch_tag(faces, order[i]),
                faces: patch_faces(faces, order[i]).len(),
                start_face: face_order(faces, order, i).len(),
            },
    )
}

/// The last of the first `n` places of a face in an order.
pub open spec fn label_before(order: Seq<usize>, face: int, n: int) -> Option<int>
    decreases n,
{
    if n <= 0 {
        None
    } else if order[n - 1] == face {
        Some(n - 1)
    } else {
        label_before(order, face, n - 1)
    }
}

/// The place of a face in an order.
pub open spec fn label_in(order: Seq<usize>, face: int) -> Option<int> {
    label_before(order, face, order.len() as int)
}

/// How often a face occurs in an order.
pub open spec fn times(order: Seq<usize>, face: int) -> nat
    decreases order.len(),
{
    if order.len() == 0 {
        0
    } else {
        times(order.drop_last(), face) + if order.last() == face {
            1nat
        } else {
            0
        }
    }
}

proof fn lemma_times_added(left: Seq<usize>, right: Seq<usize>, face: int)
    ensures
        times(left + right, face) == times(left, face) + times(right, face),
    decreases right.len(),
{
    if right.len() == 0 {
        assert(left + right =~= left);
    } else {
        assert((left + right).drop_last() =~= left + right.drop_last());
        lemma_times_added(left, right.drop_last(), face);
    }
}

proof fn lemma_times_internal(faces: Seq<FaceRecord>, face: int, n: int)
    requires
        0 <= n <= faces.len(),
        faces.len() <= usize::MAX,
        0 <= face < faces.len(),
    ensures
        times(internal(faces, n), face) == if face < n && faces[face].neighbour is Some {
            1nat
        } else {
            0
        },
    decreases n,
{
    if n > 0 {
        lemma_times_internal(faces, face, n - 1);
        let before = internal(faces, n - 1);
        assert(before.push((n - 1) as usize).drop_last() =~= before);
    }
}

proof fn lemma_times_of_patch(faces: Seq<FaceRecord>, name: Seq<char>, face: int, n: int)
    requires
        0 <= n <= faces.len(),
        faces.len() <= usize::MAX,
        0 <= face < faces.len(),
    ensures
        times(of_patch(faces, name, n), face) == if face < n && patch_name(faces[face]) == Some(
            name,
        ) {
            1nat
        } else {
            0
        },
    decreases n,
{
    if n > 0 {
        lemma_times_of_patch(faces, name, face, n - 1);
        let before = of_patch(faces, name, n - 1);
        assert(before.push((n - 1) as usize).drop_last() =~= before);
    }
}

/// Whether no name occurs twice.
pub open spec fn distinct(names: Seq<Seq<char>>) -> bool {
    forall|i: int, j: int| 0 <= i < j < names.len() ==> names[i] != names[j]
}

proof fn lemma_times_ordered(
    faces: Seq<FaceRecord>,
    order: Seq<Seq<char>>,
    face: int,
    n: int,
)
    requires
        distinct(order),
        0 <= n <= order.len(),
        faces.len() <= usize::MAX,
        0 <= face < faces.len(),
    ensures
        times(face_order(faces, order, n), face) == if faces[face].neighbour is Some {
            1nat
        } else if patch_name(faces[face]) is Some && order.take(n).contains(
            patch_name(faces[face])->0,
        ) {
            1nat
        } else {
            0
        },
    decreases n,
{
    if n <= 0 {
        lemma_times_internal(faces, face, faces.len() as int);
        assert(order.take(0) =~= Seq::empty());
    } else {
        lemma_times_ordered(faces, order, face, n - 1);
        lemma_times_of_patch(faces, order[n - 1], face, faces.len() as int);
        lemma_times_added(
            face_order(faces, order, n - 1),
            patch_faces(faces, order[n - 1]),
            face,
        );
        let name = patch_name(faces[face]);
        if name is Some {
            let before = order.take(n - 1);
            let now = order.take(n);
            assert(now =~= before.push(order[n - 1]));
            if before.contains(name->0) {
                let i = choose|i: int| 0 <= i < before.len() && before[i] == name->0;
                assert(now[i] == name->0);
                assert(order[i] == name->0);
            }
            if order[n - 1] == name->0 {
                assert(now[n - 1] == name->0);
                if before.contains(name->0) {
                    let i = choose|i: int| 0 <= i < before.len() && before[i] == name->0;
                    assert(order[i] == order[n - 1]);
                }
            } else if now.contains(name->0) {
                let i = choose|i: int| 0 <= i < now.len() && now[i] == name->0;
                assert(before[i] == name->0);
            }
        }
    }
}

proof fn lemma_name_inserted(names: Seq<Seq<char>>, name: Seq<char>, wanted: Seq<char>)
    ensures
        name_inserted(names, name).contains(wanted) <==> names.contains(wanted) || wanted == name,
    decreases names.len(),
{
    let after = name_inserted(names, name);
    if names.len() == 0 || text::precedes(names.last(), name) {
        assert(after[names.len() as int] == name);
        if names.contains(wanted) {
            let i = choose|i: int| 0 <= i < names.len() && names[i] == wanted;
            assert(after[i] == wanted);
        }
        if after.contains(wanted) && wanted != name {
            let i = choose|i: int| 0 <= i < after.len() && after[i] == wanted;
            assert(names[i] == wanted);
        }
    } else if names.last() == name {
        assert(names[names.len() - 1] == name);
    } else {
        let head = names.drop_last();
        lemma_name_inserted(head, name, wanted);
        let grown = name_inserted(head, name);
        assert(after == grown.push(names.last()));
        assert(after[grown.len() as int] == names.last());
        if grown.contains(wanted) {
            let i = choose|i: int| 0 <= i < grown.len() && grown[i] == wanted;
            assert(after[i] == wanted);
        }
        if names.contains(wanted) {
            let i = choose|i: int| 0 <= i < names.len() && names[i] == wanted;
            if i < head.len() {
                assert(head[i] == wanted);
            }
        }
        if head.contains(wanted) {
            let i = choose|i: int| 0 <= i < head.len() && head[i] == wanted;
            assert(names[i] == wanted);
        }
        if after.contains(wanted) {
            let i = choose|i: int| 0 <= i < after.len() && after[i] == wanted;
            if i < grown.len() {
                assert(grown[i] == wanted);
            } else {
                assert(names[names.len() - 1] == wanted);
            }
        }
    }
}

proof fn lemma_sorted_names(faces: Seq<FaceRecord>, face: int, n: int)
    requires
        0 <= face < n <= faces.len(),
        patch_name(faces[face]) is Some,
    ensures
        sorted_names(faces, n).contains(patch_name(faces[face])->0),
    decreases n,
{
    let wanted = patch_name(faces[face])->0;
    if face < n - 1 {
        lemma_sorted_names(faces, face, n - 1);
    }
    if let Some(name) = patch_name(faces[n - 1]) {
        lemma_name_inserted(sorted_names(faces, n - 1), name, wanted);
    }
}

proof fn lemma_group_order(faces: Seq<FaceRecord>, groups: Seq<PhysicalName>, n: int)
    requires
        0 <= n <= groups.len(),
    ensures
        distinct(group_order(faces, groups, n)),
    decreases n,
{
    if n > 0 {
        lemma_group_order(faces, groups, n - 1);
    }
}

proof fn lemma_completed(head: Seq<Seq<char>>, names: Seq<Seq<char>>, n: int)
    requires
        0 <= n <= names.len(),
        distinct(head),
    ensures
        distinct(completed(head, names, n)),
        forall|i: int| 0 <= i < n ==> completed(head, names, n).contains(#[trigger] names[i]),
    decreases n,
{
    if n > 0 {
        lemma_completed(head, names, n - 1);
        let earlier = completed(head, names, n - 1);
        let now = completed(head, names, n);
        assert forall|i: int| 0 <= i < n implies now.contains(#[trigger] names[i]) by {
            if i < n - 1 {
                assert(earlier.contains(names[i]));
                let k = choose|k: int| 0 <= k < earlier.len() && earlier[k] == names[i];
                assert(now[k] == names[i]);
            } else if !earlier.contains(names[i]) {
                assert(now[earlier.len() as int] == names[i]);
            }
        }
    }
}

/// Whether each name precedes the next.
pub open spec fn sorted(names: Seq<Seq<char>>) -> bool {
    forall|i: int, j: int| 0 <= i < j < names.len() ==> text::precedes(names[i], names[j])
}

proof fn lemma_inserted_sorted(names: Seq<Seq<char>>, name: Seq<char>)
    requires
        sorted(names),
    ensures
        sorted(name_inserted(names, name)),
        forall|i: int|
            0 <= i < name_inserted(names, name).len() ==> names.contains(
                #[trigger] name_inserted(names, name)[i],
            ) || name_inserted(names, name)[i] == name,
    decreases names.len(),
{
    let all = name_inserted(names, name);
    if names.len() == 0 {
    } else if text::precedes(names.last(), name) {
        assert forall|i: int, j: int| 0 <= i < j < all.len() implies text::precedes(
            all[i],
            all[j],
        ) by {
            if j == names.len() && i < names.len() - 1 {
                text::order_is_transitive(names[i], names.last(), name);
            }
        }
        assert forall|i: int| 0 <= i < all.len() implies names.contains(#[trigger] all[i]) || all[i]
            == name by {
            if i < names.len() {
                assert(all[i] == names[i]);
            }
        }
    } else if names.last() == name {
        assert forall|i: int| 0 <= i < all.len() implies names.contains(#[trigger] all[i]) || all[i]
            == name by {
            assert(all[i] == names[i]);
        }
    } else {
        let shorter = names.drop_last();
        let grown = name_inserted(shorter, name);
        lemma_inserted_sorted(shorter, name);
        text::order_is_total(names.last(), name);
        assert forall|i: int, j: int| 0 <= i < j < all.len() implies text::precedes(
            all[i],
            all[j],
        ) by {
            if j < grown.len() {
                assert(text::precedes(grown[i], grown[j]));
            } else {
                assert(all[i] == grown[i]);
                if grown[i] != name {
                    let k = choose|k: int| 0 <= k < shorter.len() && shorter[k] == grown[i];
                    assert(shorter.contains(grown[i]));
                    assert(text::precedes(names[k], names[names.len() - 1]));
                }
            }
        }
        assert forall|i: int| 0 <= i < all.len() implies names.contains(#[trigger] all[i]) || all[i]
            == name by {
            if i < grown.len() {
                assert(all[i] == grown[i]);
                if shorter.contains(grown[i]) {
                    let k = choose|k: int| 0 <= k < shorter.len() && shorter[k] == grown[i];
                    assert(names[k] == all[i]);
                }
            } else {
                assert(all[i] == names[names.len() - 1]);
            }
        }
    }
}

/// The patches that no named group comes for are in the order of their names.
pub proof fn names_are_sorted(faces: Seq<FaceRecord>, n: int)
    ensures
        sorted(sorted_names(faces, n)),
    decreases n,
{
    if n > 0 {
        names_are_sorted(faces, n - 1);
        match patch_name(faces[n - 1]) {
            Some(name) => {
                lemma_inserted_sorted(sorted_names(faces, n - 1), name);
            },
            None => {},
        }
    }
}

/// No patch is written twice.
pub proof fn patches_are_distinct(faces: Seq<FaceRecord>, groups: Seq<PhysicalName>)
    ensures
        distinct(patch_order(faces, groups)),
{
    lemma_group_order(faces, groups, groups.len() as int);
    let names = sorted_names(faces, faces.len() as int);
    lemma_completed(
        group_order(faces, groups, groups.len() as int),
        names,
        names.len() as int,
    );
}

/// Every face is written exactly once: faces between cells, and faces with a
/// patch.
pub proof fn faces_are_written_once(
    faces: Seq<FaceRecord>,
    groups: Seq<PhysicalName>,
    face: int,
)
    requires
        faces.len() <= usize::MAX,
        0 <= face < faces.len(),
        faces[face].neighbour is Some || faces[face].patch is Some,
    ensures
        ({
            let order = patch_order(faces, groups);
            times(face_order(faces, order, order.len() as int), face) == 1
        }),
{
    let order = patch_order(faces, groups);
    patches_are_distinct(faces, groups);
    lemma_times_ordered(faces, order, face, order.len() as int);
    if faces[face].neighbour is None {
        lemma_sorted_names(faces, face, faces.len() as int);
        let names = sorted_names(faces, faces.len() as int);
        let wanted = patch_name(faces[face])->0;
        let i = choose|i: int| 0 <= i < names.len() && names[i] == wanted;
        lemma_group_order(faces, groups, groups.len() as int);
        lemma_completed(
            group_order(faces, groups, groups.len() as int),
            names,
            names.len() as int,
        );
        assert(order.contains(names[i]));
        assert(order.take(order.len() as int) =~= order);
    }
}

/// The patches follow one another without gaps: the first starts behind the
/// faces between cells, each further one where the one before it ends, and the
/// last ends with the last face.
pub proof fn patches_tile_boundary(
    faces: Seq<FaceRecord>,
    order: Seq<Seq<char>>,
    options: FoamWriteOptions,
    at: int,
)
    requires
        0 <= at < order.len(),
    ensures
        ({
            let patches = ordered_patches(faces, order, options);
            &&& patches[0].start_face == internal(faces, faces.len() as int).len()
            &&& patches[at].start_face + patches[at].faces == if at + 1 < order.len() {
                patches[at + 1].start_face
            } else {
                face_order(faces, order, order.len() as int).len()
            }
        }),
{
    assert(face_order(faces, order, at + 1) == face_order(faces, order, at) + patch_faces(
        faces,
        order[at],
    ));
}

/// A face has the name of a patch.
fn is_of_patch(face: &FaceRecord, name: &str) -> (yes: bool)
    ensures
        yes == (patch_name(*face) == Some(name@)),
{
    if face.neighbour.is_some() {
        return false;
    }
    match &face.patch {
        Some(patch) => text::text_eq(patch.name.as_str(), name),
        None => false,
    }
}

fn collect_internal(faces: &Vec<FaceRecord>) -> (found: Vec<usize>)
    ensures
        found@ == internal(faces@, faces@.len() as int),
{
    let mut found: Vec<usize> = Vec::new();
    let mut at: usize = 0;
    while at < faces.len()
        invariant
            at <= faces@.len(),
            found@ == internal(faces@, at as int),
        decreases faces@.len() - at,
    {
        if faces[at].neighbour.is_some() {
            found.push(at);
        }
        at += 1;
    }
    found
}

fn collect_patch(faces: &Vec<FaceRecord>, name: &str) -> (found: Vec<usize>)
    ensures
        found@ == patch_faces(faces@, name@),
        forall|i: int| 0 <= i < found@.len() ==> #[trigger] found@[i] < faces@.len(),
{
    let mut found: Vec<usize> = Vec::new();
    let mut at: usize = 0;
    while at < faces.len()
        invariant
            at <= faces@.len(),
            found@ == of_patch(faces@, name@, at as int),
            forall|i: int| 0 <= i < found@.len() ==> #[trigger] found@[i] < faces@.len(),
        decreases faces@.len() - at,
    {
        if is_of_patch(&faces[at], name) {
            found.push(at);
        }
        at += 1;
    }
    found
}

/// Puts a name in its place in a sorted list, unless the list holds it.
pub fn insert_name(names: &mut Vec<String>, name: &str)
    ensures
        text::texts(final(names)@) == name_inserted(text::texts(old(names)@), name@),
{
    let ghost before = text::texts(names@);
    let ghost records = names@;
    let mut at: usize = names.len();
    let ghost mut tail: Seq<Seq<char>> = Seq::empty();
    assert(before.take(at as int) =~= before);
    assert(name_inserted(before, name@) =~= name_inserted(before.take(at as int), name@) + tail);
    while at > 0 && !text::text_before(names[at - 1].as_str(), name)
        invariant
            at <= before.len(),
            names@ == records,
            before == text::texts(records),
            tail == before.skip(at as int),
            name_inserted(before, name@) == name_inserted(before.take(at as int), name@) + tail,
        decreases at,
    {
        proof {
            assert(before[at - 1] == names@[at - 1]@);
            assert(before.take(at as int).last() == before[at - 1]);
        }
        if text::text_eq(names[at - 1].as_str(), name) {
            proof {
                assert(name_inserted(before.take(at as int), name@) == before.take(at as int));
                assert(before.take(at as int) + tail =~= before);
            }
            return ;
        }
        proof {
            let part = before.take(at as int);
            assert(part.drop_last() =~= before.take(at - 1));
            let last = part.last();
            let shorter = name_inserted(before.take(at - 1), name@);
            assert(before.skip(at - 1) =~= seq![last] + tail);
            assert(shorter.push(last) + tail =~= shorter + (seq![last] + tail));
            tail = before.skip(at - 1);
        }
        at -= 1;
    }
    proof {
        if at > 0 {
            assert(before[at - 1] == names@[at - 1]@);
            assert(before.take(at as int).last() == before[at - 1]);
        }
    }
    names.insert(at, name.to_string());
    assert(text::texts(names@) =~= before.take(at as int).push(name@) + tail);
}

fn collect_names(faces: &Vec<FaceRecord>) -> (names: Vec<String>)
    ensures
        text::texts(names@) == sorted_names(faces@, faces@.len() as int),
{
    let mut names: Vec<String> = Vec::new();
    let mut at: usize = 0;
    assert(text::texts(names@) =~= sorted_names(faces@, 0));
    while at < faces.len()
        invariant
            at <= faces@.len(),
            text::texts(names@) == sorted_names(faces@, at as int),
        decreases faces@.len() - at,
    {
        if faces[at].neighbour.is_none() {
            if let Some(patch) = &faces[at].patch {
                insert_name(&mut names, patch.name.as_str());
            }
        }
        at += 1;
    }
    names
}

fn holds_name(names: &Vec<String>, name: &str) -> (yes: bool)
    ensures
        yes == text::texts(names@).contains(name@),
{
    let ghost all = text::texts(names@);
    let mut at: usize = 0;
    while at < names.len()
        invariant
            at <= names@.len(),
            all == text::texts(names@),
            forall|i: int| 0 <= i < at ==> #[trigger] all[i] != name@,
        decreases names@.len() - at,
    {
        if text::text_eq(names[at].as_str(), name) {
            assert(all[at as int] == name@);
            return true;
        }
        at += 1;
    }
    false
}

fn order_patches(faces: &Vec<FaceRecord>, groups: &Vec<PhysicalName>) -> (order: Vec<String>)
    ensures
        text::texts(order@) == patch_order(faces@, groups@),
{
    let mut order: Vec<String> = Vec::new();
    let mut at: usize = 0;
    assert(text::texts(order@) =~= group_order(faces@, groups@, 0));
    while at < groups.len()
        invariant
            at <= groups@.len(),
            text::texts(order@) == group_order(faces@, groups@, at as int),
        decreases groups@.len() - at,
    {
        if groups[at].dim == 2 {
            let name = mesh::sanitize_name(groups[at].name.as_str());
            if collect_patch(faces, name.as_str()).len() > 0 && !holds_name(
                &order,
                name.as_str(),
            ) {
                let ghost earlier = text::texts(order@);
                let ghost added = name@;
                order.push(name);
                assert(text::texts(order@) =~= earlier.push(added));
            }
        }
        at += 1;
    }
    let names = collect_names(faces);
    let ghost head = text::texts(order@);
    let ghost all = text::texts(names@);
    let mut at: usize = 0;
    while at < names.len()
        invariant
            at <= names@.len(),
            all == text::texts(names@),
            text::texts(order@) == completed(head, all, at as int),
        decreases names@.len() - at,
    {
        assert(all[at as int] == names@[at as int]@);
        if !holds_name(&order, names[at].as_str()) {
            let ghost earlier = text::texts(order@);
            order.push(names[at].clone());
            assert(text::texts(order@) =~= earlier.push(all[at as int]));
        }
        at += 1;
    }
    assert(all.len() == names@.len());
    order
}

fn tag_of(faces: &Vec<FaceRecord>, found: &Vec<usize>) -> (tag: Option<i32>)
    requires
        forall|i: int| 0 <= i < found@.len() ==> #[trigger] found@[i] < faces@.len(),
    ensures
        tag == (if found@.len() == 0 {
            None
        } else {
            match faces@[found@[0] as int].patch {
                Some(patch) => patch.physical_tag,
                None => None,
            }
        }),
{
    if found.len() == 0 {
        return None;
    }
    assert(found@[0] < faces@.len());
    match &faces[found[0]].patch {
        Some(patch) => patch.physical_tag,
        None => None,
    }
}

fn label_faces(order: &Vec<usize>, faces: usize) -> (labels: Vec<Option<usize>>)
    requires
        forall|i: int| 0 <= i < order@.len() ==> #[trigger] order@[i] < faces,
    ensures
        labels@.len() == faces,
        forall|face: int|
            0 <= face < faces ==> (match #[trigger] labels@[face] {
                Some(label) => label_in(order@, face) == Some(label as int),
                None => label_in(order@, face) is None,
            }),
{
    let mut labels: Vec<Option<usize>> = Vec::new();
    let mut face: usize = 0;
    while face < faces
        invariant
            face <= faces,
            labels@.len() == face,
            forall|i: int| 0 <= i < face ==> #[trigger] labels@[i] is None,
        decreases faces - face,
    {
        labels.push(None);
        face += 1;
    }
    let mut at: usize = 0;
    while at < order.len()
        invariant
            at <= order@.len(),
            labels@.len() == faces,
            forall|i: int| 0 <= i < order@.len() ==> #[trigger] order@[i] < faces,
            forall|face: int|
                0 <= face < faces ==> (match #[trigger] labels@[face] {
                    Some(label) => label_before(order@, face, at as int) == Some(label as int),
                    None => label_before(order@, face, at as int) is None,
                }),
        decreases order@.len() - at,
    {
        let ghost before = labels@;
        assert(order@[at as int] < faces);
        labels.set(order[at], Some(at));
        assert forall|face: int| 0 <= face < faces implies (match #[trigger] labels@[face] {
            Some(label) => label_before(order@, face, at + 1) == Some(label as int),
            None => label_before(order@, face, at + 1) is None,
        }) by {
            if face != order@[at as int] {
                assert(labels@[face] == before[face]);
            }
        }
        at += 1;
    }
    labels
}

/// A place in an order holds the face that it is the place of.
pub proof fn lemma_label_holds(order: Seq<usize>, face: int, n: int)
    requires
        0 <= n <= order.len(),
    ensures
        match label_before(order, face, n) {
            Some(at) => 0 <= at < n && order[at] == face,
            None => forall|i: int| 0 <= i < n ==> #[trigger] order[i] != face,
        },
    decreases n,
{
    if n > 0 && order[n - 1] != face {
        lemma_label_holds(order, face, n - 1);
    }
}

/// The faces of a mesh in the order in which they are written, with their
/// patches.
pub fn order_faces(
    groups: &Vec<PhysicalName>,
    faces: &Vec<FaceRecord>,
    options: &FoamWriteOptions,
) -> (ordered: OrderedFaces)
    ensures
        ({
            let order = patch_order(faces@, groups@);
            &&& ordered.internal_face_indices@ == internal(faces@, faces@.len() as int)
            &&& ordered.face_indices@ == face_order(faces@, order, order.len() as int)
            &&& summary_views(ordered.patches@) == ordered_patches(faces@, order, *options)
        }),
        ordered.labels@.len() == faces@.len(),
        forall|face: int|
            0 <= face < faces@.len() ==> (match #[trigger] ordered.labels@[face] {
                Some(label) => label_in(ordered.face_indices@, face) == Some(label as int),
                None => label_in(ordered.face_indices@, face) is None,
            }),
        forall|i: int|
            0 <= i < ordered.face_indices@.len() ==> #[trigger] ordered.face_indices@[i]
                < faces@.len(),
        forall|i: int|
            0 <= i < ordered.internal_face_indices@.len() ==> #[trigger] ordered.internal_face_indices@[i]
                < faces@.len(),
{
    let count: usize = faces.len();
    let internal_face_indices = collect_internal(faces);
    let mut face_indices = collect_internal(faces);
    let order = order_patches(faces, groups);
    let ghost names = text::texts(order@);
    let ghost wanted = ordered_patches(faces@, names, *options);
    let mut patches: Vec<PatchSummary> = Vec::new();
    let mut at: usize = 0;
    proof {
        lemma_internal_bound(faces@, faces@.len() as int);
        assert(summary_views(patches@) =~= wanted.take(0));
    }
    while at < order.len()
        invariant
            at <= order@.len(),
            count == faces@.len(),
            names == text::texts(order@),
            wanted == ordered_patches(faces@, names, *options),
            face_indices@ == face_order(faces@, names, at as int),
            summary_views(patches@) == wanted.take(at as int),
            forall|i: int|
                0 <= i < face_indices@.len() ==> #[trigger] face_indices@[i] < faces@.len(),
        decreases order@.len() - at,
    {
        assert(names[at as int] == order@[at as int]@);
        let start_face: usize = face_indices.len();
        let mut found = collect_patch(faces, order[at].as_str());
        let size: usize = found.len();
        let physical_tag = tag_of(faces, &found);
        let ghost before = face_indices@;
        let ghost added = found@;
        face_indices.append(&mut found);
        let ghost earlier = summary_views(patches@);
        patches.push(
            PatchSummary {
                name: order[at].clone(),
                patch_type: options.patch_type_for(order[at].as_str()),
                physical_tag,
                faces: size,
                start_face,
            },
        );
        proof {
            assert(face_indices@ =~= before + added);
            assert(summary_views(patches@) =~= earlier.push(wanted[at as int]));
            assert(wanted.take(at + 1) =~= earlier.push(wanted[at as int]));
            assert forall|i: int| 0 <= i < face_indices@.len() implies #[trigger] face_indices@[i]
                < faces@.len() by {
                if i >= before.len() {
                    assert(face_indices@[i] == added[i - before.len()]);
                } else {
                    assert(face_indices@[i] == before[i]);
                }
            }
        }
        at += 1;
    }
    assert(wanted.take(at as int) =~= wanted);
    let labels = label_faces(&face_indices, count);
    OrderedFaces { face_indices, internal_face_indices, labels, patches }
}

proof fn lemma_internal_bound(faces: Seq<FaceRecord>, n: int)
    requires
        0 <= n <= faces.len(),
        faces.len() <= usize::MAX,
    ensures
        forall|i: int| 0 <= i < internal(faces, n).len() ==> #[trigger] internal(faces, n)[i] < n,
    decreases n,
{
    if n > 0 {
        lemma_internal_bound(faces, n - 1);
        let before = internal(faces, n - 1);
        let now = internal(faces, n);
        assert forall|i: int| 0 <= i < now.len() implies #[trigger] now[i] < n by {
            if i < before.len() {
                assert(now[i] == before[i]);
            }
        }
    }
}

proof fn lemma_internal_faces(faces: Seq<FaceRecord>, n: int)
    requires
        0 <= n <= faces.len(),
        faces.len() <= usize::MAX,
    ensures
        forall|k: int|
            0 <= k < internal(faces, n).len() ==> #[trigger] internal(faces, n)[k] < n
                && faces[internal(faces, n)[k] as int].neighbour is Some,
        forall|i: int, j: int|
            0 <= i < j < internal(faces, n).len() ==> internal(faces, n)[i] < internal(faces, n)[j],
    decreases n,
{
    if n > 0 {
        lemma_internal_faces(faces, n - 1);
    }
}

proof fn lemma_patch_faces(faces: Seq<FaceRecord>, name: Seq<char>, n: int)
    requires
        0 <= n <= faces.len(),
        faces.len() <= usize::MAX,
    ensures
        forall|k: int|
            0 <= k < of_patch(faces, name, n).len() ==> #[trigger] of_patch(faces, name, n)[k] < n
                && faces[of_patch(faces, name, n)[k] as int].neighbour is None && (
            faces[of_patch(faces, name, n)[k] as int].patch matches Some(patch) && patch.name@
                == name),
        forall|i: int, j: int|
            0 <= i < j < of_patch(faces, name, n).len() ==> of_patch(faces, name, n)[i] < of_patch(
                faces,
                name,
                n,
            )[j],
    decreases n,
{
    if n > 0 {
        lemma_patch_faces(faces, name, n - 1);
    }
}

proof fn lemma_order_prefix(faces: Seq<FaceRecord>, order: Seq<Seq<char>>, n: int, m: int)
    requires
        0 <= n <= m <= order.len(),
    ensures
        face_order(faces, order, n).is_prefix_of(face_order(faces, order, m)),
    decreases m - n,
{
    if n < m {
        lemma_order_prefix(faces, order, n, m - 1);
        let all = face_order(faces, order, m);
        let before = face_order(faces, order, m - 1);
        let first = face_order(faces, order, n);
        assert(all.take(first.len() as int) =~= before.take(first.len() as int));
    } else {
        let all = face_order(faces, order, m);
        assert(all.take(all.len() as int) =~= all);
    }
}

/// The faces between cells are written first, in their order.
pub proof fn internal_faces_come_first(faces: Seq<FaceRecord>, order: Seq<Seq<char>>, k: int)
    requires
        faces.len() <= usize::MAX,
        0 <= k < internal(faces, faces.len() as int).len(),
    ensures
        ({
            let all = face_order(faces, order, order.len() as int);
            &&& k < all.len()
            &&& all[k] < faces.len()
            &&& faces[all[k] as int].neighbour is Some
            &&& k > 0 ==> all[k - 1] < all[k]
        }),
{
    lemma_internal_faces(faces, faces.len() as int);
    lemma_order_prefix(faces, order, 0, order.len() as int);
    let inner = internal(faces, faces.len() as int);
    let all = face_order(faces, order, order.len() as int);
    assert(inner =~= all.take(inner.len() as int));
    assert(all[k] == inner[k]);
    if k > 0 {
        assert(all[k - 1] == inner[k - 1]);
    }
}

/// The faces in the range of a written patch are the boundary faces that bear its
/// name, in their order; the patch has the type that is asked for it, and `patch`
/// where none is, and the tag of its first face.
pub proof fn patch_ranges_hold_their_faces(
    faces: Seq<FaceRecord>,
    order: Seq<Seq<char>>,
    options: FoamWriteOptions,
    at: int,
    k: int,
)
    requires
        faces.len() <= usize::MAX,
        0 <= at < order.len(),
        0 <= k < ordered_patches(faces, order, options)[at].faces,
    ensures
        ({
            let patch = ordered_patches(faces, order, options)[at];
            let all = face_order(faces, order, order.len() as int);
            let place = patch.start_face + k;
            let face = faces[all[place] as int];
            &&& place < all.len()
            &&& all[place] < faces.len()
            &&& face.neighbour is None
            &&& (face.patch matches Some(own) && own.name@ == patch.name)
            &&& k > 0 ==> all[place - 1] < all[place]
            &&& patch.name == order[at]
            &&& patch.patch_type == (match options.asked(patch.name) {
                Some(found) => found,
                None => "patch"@,
            })
            &&& patch.physical_tag == faces[all[patch.start_face as int] as int].patch->0.physical_tag
        }),
{
    let own = patch_faces(faces, order[at]);
    let before = face_order(faces, order, at);
    let upto = face_order(faces, order, at + 1);
    let all = face_order(faces, order, order.len() as int);
    lemma_patch_faces(faces, order[at], faces.len() as int);
    lemma_order_prefix(faces, order, at + 1, order.len() as int);
    assert(upto =~= before + own);
    assert(upto =~= all.take(upto.len() as int));
    let start = before.len() as int;
    assert(all[start + k] == upto[start + k]);
    assert(upto[start + k] == own[k]);
    assert(all[start] == upto[start]);
    assert(upto[start] == own[0]);
    if k > 0 {
        assert(all[start + k - 1] == upto[start + k - 1]);
        assert(upto[start + k - 1] == own[k - 1]);
    }
}

/// The type of a patch is the one that is asked for under its name.
pub proof fn asked_type_is_the_given_one(options: FoamWriteOptions, at: int)
    requires
        options.valid(),
        0 <= at < options.patch_types@.len(),
    ensures
        options.asked(options.patch_types@[at].0@) == Some(options.patch_types@[at].1@),
{
    lemma_type_at(options.patch_types@, 0, at);
}

proof fn lemma_type_at(types: Seq<(String, String)>, from: int, at: int)
    requires
        0 <= from <= at < types.len(),
        forall|i: int, j: int|
            0 <= i < j < types.len() ==> (#[trigger] types[i]).0@ != (#[trigger] types[j]).0@,
    ensures
        type_from(types, types[at].0@, from) == Some(types[at].1@),
    decreases at - from,
{
    if from < at {
        assert(types[from].0@ != types[at].0@);
        lemma_type_at(types, from + 1, at);
    }
}

} // verus!
