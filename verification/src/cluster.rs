//! Grouping photos by their vectors.
use crate::curve::{largest, smallest};
use crate::gallery::{
    bytes_of, find_vector, first_vector, seahash, seahash_of, Annotation, AnnotationView,
    GalleryEntry, GalleryEntryView,
};
use crate::scalar::Scalar;
use crate::text;
use vstd::prelude::*;

verus! {

broadcast use vstd::string::group_string_axioms;

/// What to group, and how.
#[derive(Debug)]
pub struct ClusterConfig {
    pub namespace: String,
    /// How many groups.
    pub k: usize,
    pub galerie_path: String,
}

/// Why photos cannot be grouped.
#[derive(Debug, Clone, Copy, PartialEq, Eq, Structural)]
pub enum ClusterError {
    /// So few photos have a vector.
    TooFew(usize),
    /// Too few have vectors of one length.
    TooFewConsistent,
}

/// A photo with its vector.
#[derive(Debug)]
pub struct Indexed {
    pub index: usize,
    pub vector: Vec<Scalar>,
}

impl DeepView for Indexed {
    type V = (nat, Seq<Scalar>);

    open spec fn deep_view(&self) -> (nat, Seq<Scalar>) {
        (self.index as nat, self.vector@)
    }
}

/// The photos that have a vector under `ns`, in order, each with its vector.
pub open spec fn vectors_under(photos: Seq<Seq<AnnotationView>>, ns: Seq<char>) -> Seq<
    (nat, Seq<Scalar>),
>
    decreases photos.len(),
{
    if photos.len() == 0 {
        Seq::empty()
    } else {
        let before = vectors_under(photos.drop_last(), ns);
        match first_vector(photos.last(), ns) {
            Some(v) => before.push(((photos.len() - 1) as nat, v)),
            None => before,
        }
    }
}

/// What is said of each photo.
pub open spec fn annotations_of(photos: Seq<GalleryEntryView>) -> Seq<Seq<AnnotationView>> {
    Seq::new(photos.len(), |i: int| photos[i].data.annotations)
}

/// The photos of a gallery that have a vector under `ns`, in order, each with its vector.
pub fn gather(photos: &Vec<GalleryEntry>, ns: &str) -> (r: Vec<Indexed>)
    ensures
        r.deep_view() == vectors_under(annotations_of(photos.deep_view()), ns@),
{
    let ghost all = annotations_of(photos.deep_view());
    let mut r: Vec<Indexed> = Vec::new();
    let mut i: usize = 0;
    assert(r.deep_view() =~= vectors_under(all.take(0), ns@));
    while i < photos.len()
        invariant
            i <= photos@.len(),
            all == annotations_of(photos.deep_view()),
            r.deep_view() == vectors_under(all.take(i as int), ns@),
        decreases photos@.len() - i,
    {
        assert(all.take(i + 1).drop_last() == all.take(i as int));
        assert(all.take(i + 1).last() == photos@[i as int].annotations.deep_view());
        if let Some(vector) = find_vector(&photos[i].annotations, ns) {
            let ghost before = r.deep_view();
            r.push(Indexed { index: i, vector });
            assert(r.deep_view() =~= before.push((i as nat, vector@)));
        }
        i += 1;
    }
    assert(all.take(i as int) == all);
    r
}

/// The vectors of the length that the first one has.
pub open spec fn consistent(all: Seq<(nat, Seq<Scalar>)>) -> Seq<(nat, Seq<Scalar>)> {
    all.filter(|v: (nat, Seq<Scalar>)| v.1.len() == all[0].1.len())
}

/// The photos to be grouped, or why there are too few.
pub open spec fn to_group(all: Seq<(nat, Seq<Scalar>)>, k: nat) -> Result<
    Seq<(nat, Seq<Scalar>)>,
    ClusterError,
> {
    if all.len() < k {
        Err(ClusterError::TooFew(all.len() as usize))
    } else if consistent(all).len() < k {
        Err(ClusterError::TooFewConsistent)
    } else {
        Ok(consistent(all))
    }
}

fn copy_vector(v: &Vec<Scalar>) -> (r: Vec<Scalar>)
    ensures
        r@ == v@,
{
    let r = v.clone();
    assert(r@ == v@);
    r
}

/// Keeps the photos whose vectors have the length of the first, if there are at least `k` of them.
pub fn select_consistent(all: &Vec<Indexed>, k: usize) -> (r: Result<Vec<Indexed>, ClusterError>)
    requires
        k >= 1,
    ensures
        match r {
            Ok(kept) => to_group(all.deep_view(), k as nat) == Ok::<
                Seq<(nat, Seq<Scalar>)>,
                ClusterError,
            >(kept.deep_view()),
            Err(e) => to_group(all.deep_view(), k as nat) == Err::<
                Seq<(nat, Seq<Scalar>)>,
                ClusterError,
            >(e),
        },
{
    if all.len() < k {
        return Err(ClusterError::TooFew(all.len()));
    }
    let ghost s = all.deep_view();
    let ghost p = |v: (nat, Seq<Scalar>)| v.1.len() == s[0].1.len();
    let len = all[0].vector.len();
    let mut kept: Vec<Indexed> = Vec::new();
    let mut i: usize = 0;
    reveal(Seq::filter);
    assert(kept.deep_view() =~= s.take(0).filter(p));
    while i < all.len()
        invariant
            i <= all@.len(),
            s == all.deep_view(),
            s.len() > 0,
            len == s[0].1.len(),
            p == (|v: (nat, Seq<Scalar>)| v.1.len() == s[0].1.len()),
            kept.deep_view() == s.take(i as int).filter(p),
        decreases all@.len() - i,
    {
        reveal(Seq::filter);
        assert(s.take(i + 1).drop_last() == s.take(i as int));
        assert(s.take(i + 1).last() == all@[i as int].deep_view());
        if all[i].vector.len() == len {
            let ghost before = kept.deep_view();
            let v = Indexed { index: all[i].index, vector: copy_vector(&all[i].vector) };
            kept.push(v);
            assert(kept.deep_view() =~= before.push(v.deep_view()));
        }
        i += 1;
    }
    assert(s.take(i as int) == s);
    assert(kept.deep_view() == consistent(s));
    if kept.len() < k {
        Err(ClusterError::TooFewConsistent)
    } else {
        Ok(kept)
    }
}

/// The annotation puts the photo in a group of `ns`.
pub open spec fn is_assignment(a: AnnotationView, ns: Seq<char>) -> bool {
    a matches AnnotationView::ClusterAssignment { namespace, .. } && namespace == ns
}

/// The annotations with the photo put in the group `id` of `ns`, and in no other.
pub open spec fn with_assignment(annotations: Seq<AnnotationView>, ns: Seq<char>, id: u32) -> Seq<
    AnnotationView,
> {
    annotations.filter(|a: AnnotationView| !is_assignment(a, ns)).push(
        AnnotationView::ClusterAssignment { namespace: ns, cluster_id: id },
    )
}

/// Puts a photo in the group `id` of `ns`, and in no other.
pub fn assign(annotations: &mut Vec<Annotation>, ns: &str, id: u32)
    ensures
        final(annotations).deep_view() == with_assignment(
            old(annotations).deep_view(),
            ns@,
            id,
        ),
{
    let ghost all = annotations.deep_view();
    let ghost p = |a: AnnotationView| !is_assignment(a, ns@);
    let mut kept: Vec<Annotation> = Vec::new();
    let mut i: usize = 0;
    reveal(Seq::filter);
    assert(kept.deep_view() =~= all.take(0).filter(p));
    while i < annotations.len()
        invariant
            i <= annotations@.len(),
            *annotations == *old(annotations),
            all == annotations.deep_view(),
            p == (|a: AnnotationView| !is_assignment(a, ns@)),
            kept.deep_view() == all.take(i as int).filter(p),
        decreases annotations@.len() - i,
    {
        reveal(Seq::filter);
        assert(all.take(i + 1).drop_last() == all.take(i as int));
        assert(all.take(i + 1).last() == annotations@[i as int].deep_view());
        let drop = match &annotations[i] {
            Annotation::ClusterAssignment { namespace, .. } => text::same(namespace.as_str(), ns),
            _ => false,
        };
        if !drop {
            let ghost before = kept.deep_view();
            let a = annotations[i].clone();
            kept.push(a);
            assert(kept.deep_view() =~= before.push(a.deep_view()));
        }
        i += 1;
    }
    assert(all.take(i as int) == all);
    let ghost before = kept.deep_view();
    let a = Annotation::ClusterAssignment { namespace: ns.to_owned(), cluster_id: id };
    kept.push(a);
    assert(kept.deep_view() =~= before.push(a.deep_view()));
    *annotations = kept;
}

/// A photo is in exactly one group of `ns` after it was put there.
pub proof fn one_group_each(annotations: Seq<AnnotationView>, ns: Seq<char>, id: u32)
    ensures
        ({
            let after = with_assignment(annotations, ns, id);
            &&& after.last() == AnnotationView::ClusterAssignment { namespace: ns, cluster_id: id }
            &&& forall|i: int| 0 <= i < after.len() - 1 ==> !is_assignment(#[trigger] after[i], ns)
        }),
{
    let kept = annotations.filter(|a: AnnotationView| !is_assignment(a, ns));
    let after = with_assignment(annotations, ns, id);
    broadcast use vstd::seq_lib::group_filter_ensures;

    assert forall|i: int| 0 <= i < after.len() - 1 implies !is_assignment(
        #[trigger] after[i],
        ns,
    ) by {
        assert(after[i] == kept[i]);
    }
}

/// Puts each photo of `chosen` in its group.
pub fn store_assignments(photos: &mut Vec<GalleryEntry>, chosen: &Vec<Indexed>, groups: &Vec<u32>, ns: &str)
    requires
        chosen@.len() == groups@.len(),
        forall|i: int| 0 <= i < chosen@.len() ==> (#[trigger] chosen@[i]).index < old(photos)@.len(),
    ensures
        final(photos).deep_view() == assigned(
            old(photos).deep_view(),
            chosen.deep_view(),
            groups@,
            ns@,
        ),
{
    let ghost first = photos.deep_view();
    let ghost c = chosen.deep_view();
    let mut i: usize = 0;
    while i < chosen.len()
        invariant
            i <= chosen@.len(),
            chosen@.len() == groups@.len(),
            c == chosen.deep_view(),
            photos@.len() == first.len(),
            forall|k: int| 0 <= k < chosen@.len() ==> (#[trigger] chosen@[k]).index < first.len(),
            photos.deep_view() == assigned(first, c.take(i as int), groups@.take(i as int), ns@),
        decreases chosen@.len() - i,
    {
        let ghost before = photos.deep_view();
        let at = chosen[i].index;
        proof {
            assert(c.take(i + 1).drop_last() == c.take(i as int));
            assert(groups@.take(i + 1).drop_last() == groups@.take(i as int));
            assert(c.take(i + 1).last() == chosen@[i as int].deep_view());
            assert(before[at as int] == photos@[at as int].deep_view());
        }
        assign(&mut photos[at].annotations, ns, groups[i]);
        assert(photos.deep_view() =~= before.update(
            at as int,
            with_group(before[at as int], ns@, groups@[i as int]),
        ));
        i += 1;
    }
    assert(c.take(i as int) == c);
    assert(groups@.take(i as int) == groups@);
}

/// The photo put in the group `id` of `ns`.
pub open spec fn with_group(photo: GalleryEntryView, ns: Seq<char>, id: u32) -> GalleryEntryView {
    GalleryEntryView {
        data: crate::gallery::DataView {
            annotations: with_assignment(photo.data.annotations, ns, id),
            ..photo.data
        },
        ..photo
    }
}

/// The photos with each of `chosen` put in its group.
pub open spec fn assigned(
    photos: Seq<GalleryEntryView>,
    chosen: Seq<(nat, Seq<Scalar>)>,
    groups: Seq<u32>,
    ns: Seq<char>,
) -> Seq<GalleryEntryView>
    decreases chosen.len(),
{
    if chosen.len() == 0 {
        photos
    } else {
        let before = assigned(photos, chosen.drop_last(), groups.drop_last(), ns);
        let i = chosen.last().0 as int;
        before.update(i, with_group(before[i], ns, groups.last()))
    }
}

/// How many photos are in the group `id`.
pub open spec fn group_size(groups: Seq<u32>, id: int) -> nat
    decreases groups.len(),
{
    if groups.len() == 0 {
        0
    } else {
        group_size(groups.drop_last(), id) + if groups.last() == id {
            1nat
        } else {
            0
        }
    }
}

proof fn lemma_group_size(groups: Seq<u32>, id: int)
    ensures
        group_size(groups, id) <= groups.len(),
    decreases groups.len(),
{
    if groups.len() > 0 {
        lemma_group_size(groups.drop_last(), id);
    }
}

/// How many photos are in each of `k` groups.
pub fn group_sizes(groups: &Vec<u32>, k: usize) -> (r: Vec<usize>)
    requires
        forall|i: int| 0 <= i < groups@.len() ==> #[trigger] groups@[i] < k,
    ensures
        r@.len() == k,
        forall|id: int| 0 <= id < k ==> #[trigger] r@[id] == group_size(groups@, id),
{
    let mut r: Vec<usize> = Vec::new();
    let mut j: usize = 0;
    while j < k
        invariant
            j <= k,
            r@.len() == j,
            forall|id: int| 0 <= id < j ==> #[trigger] r@[id] == 0,
        decreases k - j,
    {
        r.push(0);
        j += 1;
    }
    let n = groups.len();
    let mut i: usize = 0;
    while i < n
        invariant
            i <= n == groups@.len(),
            r@.len() == k,
            forall|id: int| 0 <= id < groups@.len() ==> #[trigger] groups@[id] < k,
            forall|id: int|
                0 <= id < k ==> #[trigger] r@[id] == group_size(groups@.take(i as int), id),
        decreases n - i,
    {
        let id = groups[i] as usize;
        proof {
            assert(groups@.take(i + 1).drop_last() == groups@.take(i as int));
            lemma_group_size(groups@.take(i as int), id as int);
        }
        let c = r[id];
        r.set(id, c + 1);
        i += 1;
    }
    assert(groups@.take(n as int) == groups@);
    r
}

/// Which of `n` points the first group starts from, by the hash of the first point.
pub fn first_centroid(first: &Vec<Scalar>, n: usize) -> (i: usize)
    requires
        n > 0,
        4 * first@.len() <= usize::MAX,
    ensures
        i == (seahash_of(bytes_of(first@)) as usize) % n,
        i < n,
{
    let bytes = crate::gallery::numbers_to_bytes(first);
    (seahash(bytes.as_slice()) as usize) % n
}

/// A fixed number, from 0 to the largest of 64 bits, to draw the start of the next group by. `have`
/// is how many groups have one.
pub fn draw(have: usize) -> (r: u64)
    ensures
        r == seahash_of(seq![(have % 256) as u8]),
{
    let mut bytes: Vec<u8> = Vec::new();
    bytes.push((have % 256) as u8);
    assert(bytes@ =~= seq![(have % 256) as u8]);
    seahash(bytes.as_slice())
}

/// The group whose centre is nearest, given the distance from each; the first of several.
pub fn nearest_group(distances: &Vec<Scalar>) -> (g: u32)
    requires
        0 < distances@.len() <= u32::MAX,
    ensures
        g == crate::curve::first_smallest(distances@, distances@.len() as int),
        g < distances@.len(),
{
    smallest(distances) as u32
}

/// The group whose centre is most alike, given the likeness to each; the last of several.
pub fn most_alike_group(likeness: &Vec<Scalar>) -> (g: u32)
    requires
        0 < likeness@.len() <= u32::MAX,
    ensures
        g == crate::curve::last_largest(likeness@, likeness@.len() as int),
        g < likeness@.len(),
{
    largest(likeness) as u32
}

/// The first place where a sum reaches the threshold; the last where none does.
pub open spec fn first_reaching(sums: Seq<Scalar>, threshold: Scalar) -> int
    decreases sums.len(),
{
    if sums.len() <= 1 || reaches(sums[0], threshold) {
        0
    } else {
        1 + first_reaching(sums.drop_first(), threshold)
    }
}

/// The sum is not below the threshold.
pub open spec fn reaches(sum: Scalar, threshold: Scalar) -> bool {
    !sum.is_nan_spec() && !threshold.is_nan_spec() && !sum.lt_spec(threshold)
}

/// The point that the next group starts from: `sums` adds up, from the first point on, how far the points
/// lie from the groups that have a start, and `threshold` is drawn between nothing and the whole.
pub fn next_centroid(sums: &Vec<Scalar>, threshold: Scalar) -> (i: usize)
    requires
        sums@.len() > 0,
    ensures
        i == first_reaching(sums@, threshold),
        i < sums@.len(),
{
    let n = sums.len();
    let mut i: usize = 0;
    assert(sums@.skip(0) == sums@);
    while i < n - 1
        invariant
            i < n == sums@.len(),
            first_reaching(sums@, threshold) == i + first_reaching(
                sums@.skip(i as int),
                threshold,
            ),
        decreases n - i,
    {
        assert(sums@.skip(i as int)[0] == sums@[i as int]);
        if !sums[i].is_nan() && !threshold.is_nan() && !sums[i].lt(threshold) {
            return i;
        }
        assert(sums@.skip(i as int).drop_first() == sums@.skip(i + 1));
        i += 1;
    }
    assert(sums@.skip(i as int).len() == 1);
    i
}

/// How often the centres of the groups are moved at most.
pub const MAX_ROUNDS: u32 = 300;

/// The bits of one hundred-millionth: groups that move less stand still.
pub const STILL_BITS: u32 = 0x322b_cc77;

/// Points on their way into groups.
#[derive(Debug)]
pub struct GroupRun {
    /// The group of each point.
    pub groups: Vec<u32>,
    /// How many groups there are.
    pub k: usize,
    /// How often the centres were moved.
    pub round: u32,
    /// Whether they are to be moved no more.
    pub settled: bool,
}

/// Each group is that of the nearest centre.
pub open spec fn nearest_groups(distances: Seq<Vec<Scalar>>) -> Seq<u32> {
    Seq::new(
        distances.len(),
        |i: int|
            crate::curve::first_smallest(distances[i]@, distances[i]@.len() as int) as u32,
    )
}

/// Each group is that of the centre that is most alike.
pub open spec fn most_alike_groups(likeness: Seq<Vec<Scalar>>) -> Seq<u32> {
    Seq::new(
        likeness.len(),
        |i: int| crate::curve::last_largest(likeness[i]@, likeness[i]@.len() as int) as u32,
    )
}

/// There is one number for each of `n` points and `k` groups.
pub open spec fn is_table(table: Seq<Vec<Scalar>>, n: nat, k: nat) -> bool {
    &&& table.len() == n
    &&& forall|i: int| 0 <= i < n ==> (#[trigger] table[i])@.len() == k
}

/// The table holds what `measure` makes of each point and each of `k` centres.
pub open spec fn is_measured(
    table: Seq<Vec<Scalar>>,
    points: Seq<Seq<Scalar>>,
    k: nat,
    measure: spec_fn(Seq<Scalar>, int) -> Scalar,
) -> bool {
    &&& is_table(table, points.len(), k)
    &&& forall|i: int, c: int|
        0 <= i < points.len() && 0 <= c < k ==> #[trigger] table[i]@[c] == measure(points[i], c)
}

/// Every point gets one of the groups, and equal points get the same, whatever is measured between
/// points and centres. What is measured decides alone, so grouping anew gives the same groups.
pub proof fn equal_points_share_a_group(
    table: Seq<Vec<Scalar>>,
    points: Seq<Seq<Scalar>>,
    k: nat,
    measure: spec_fn(Seq<Scalar>, int) -> Scalar,
    i: int,
    j: int,
)
    requires
        1 <= k <= u32::MAX,
        is_measured(table, points, k, measure),
        0 <= i < points.len(),
        0 <= j < points.len(),
        points[i] == points[j],
    ensures
        nearest_groups(table).len() == points.len(),
        nearest_groups(table)[i] < k,
        nearest_groups(table)[i] == nearest_groups(table)[j],
        most_alike_groups(table).len() == points.len(),
        most_alike_groups(table)[i] < k,
        most_alike_groups(table)[i] == most_alike_groups(table)[j],
        forall|again: Seq<Vec<Scalar>>| #[trigger]
            is_measured(again, points, k, measure) ==> nearest_groups(again) == nearest_groups(
                table,
            ) && most_alike_groups(again) == most_alike_groups(table),
{
    assert(table[i]@.len() == k && table[j]@.len() == k);
    assert forall|c: int| 0 <= c < k implies table[i]@[c] == table[j]@[c] by {
        assert(table[i]@[c] == measure(points[i], c));
        assert(table[j]@[c] == measure(points[j], c));
    }
    assert(table[i]@ =~= table[j]@);
    crate::curve::lemma_extremes_in_range(table[i]@, k as int);
    assert forall|again: Seq<Vec<Scalar>>| #[trigger]
        is_measured(again, points, k, measure) implies nearest_groups(again) == nearest_groups(table)
        && most_alike_groups(again) == most_alike_groups(table) by {
        assert forall|p: int| 0 <= p < points.len() implies (#[trigger] again[p])@ == table[p]@ by {
            assert(again[p]@.len() == k && table[p]@.len() == k);
            assert forall|c: int| 0 <= c < k implies again[p]@[c] == table[p]@[c] by {
                assert(table[p]@[c] == measure(points[p], c));
            }
            assert(again[p]@ =~= table[p]@);
        }
        assert(nearest_groups(again) =~= nearest_groups(table));
        assert(most_alike_groups(again) =~= most_alike_groups(table));
    }
}

impl GroupRun {
    /// Every point is in one of the groups.
    pub open spec fn wf(self) -> bool {
        &&& 1 <= self.k <= u32::MAX
        &&& self.round <= MAX_ROUNDS
        &&& self.round == MAX_ROUNDS ==> self.settled
        &&& forall|i: int| 0 <= i < self.groups@.len() ==> #[trigger] self.groups@[i] < self.k
    }

    /// The run after one more round, in which the centres moved by `movement`.
    pub open spec fn after_move(self, movement: Scalar) -> GroupRun {
        GroupRun {
            groups: self.groups,
            k: self.k,
            round: (self.round + 1) as u32,
            settled: self.round + 1 == MAX_ROUNDS || movement.lt_spec(Scalar { bits: STILL_BITS }),
        }
    }

    /// How many rounds there may still be.
    pub open spec fn rounds_left(self) -> int {
        if self.settled {
            0
        } else {
            MAX_ROUNDS - self.round
        }
    }

    /// All points in the first group.
    pub fn new(n: usize, k: usize) -> (run: Self)
        requires
            1 <= k <= u32::MAX,
        ensures
            run.wf(),
            run.groups@ == Seq::new(n as nat, |i: int| 0u32),
            run.k == k,
            run.round == 0,
            !run.settled,
    {
        let mut groups: Vec<u32> = Vec::new();
        let mut i: usize = 0;
        while i < n
            invariant
                i <= n,
                groups@ == Seq::new(i as nat, |i: int| 0u32),
            decreases n - i,
        {
            groups.push(0);
            assert(groups@ =~= Seq::new((i + 1) as nat, |i: int| 0u32));
            i += 1;
        }
        GroupRun { groups, k, round: 0, settled: false }
    }

    /// Puts each point in the group of the nearest centre, given its distance from each.
    pub fn regroup(&mut self, distances: &Vec<Vec<Scalar>>)
        requires
            old(self).wf(),
            is_table(distances@, old(self).groups@.len(), old(self).k as nat),
        ensures
            final(self).wf(),
            final(self).groups@ == nearest_groups(distances@),
            *final(self) == (GroupRun { groups: final(self).groups, ..*old(self) }),
    {
        let mut groups: Vec<u32> = Vec::new();
        let mut i: usize = 0;
        while i < distances.len()
            invariant
                i <= distances@.len(),
                is_table(distances@, self.groups@.len(), self.k as nat),
                self.wf(),
                groups@ == nearest_groups(distances@).take(i as int),
                forall|j: int| 0 <= j < i ==> #[trigger] groups@[j] < self.k,
            decreases distances@.len() - i,
        {
            let d = &distances[i];
            assert(d@.len() == self.k);
            groups.push(nearest_group(d));
            assert(groups@ =~= nearest_groups(distances@).take(i + 1));
            i += 1;
        }
        assert(groups@ =~= nearest_groups(distances@));
        self.groups = groups;
    }

    /// Takes note of how far the centres moved. When they stand still, or were moved often enough, they
    /// are moved no more.
    pub fn moved(&mut self, movement: Scalar)
        requires
            old(self).wf(),
            !old(self).settled,
        ensures
            final(self).wf(),
            *final(self) == (GroupRun {
                round: (old(self).round + 1) as u32,
                settled: old(self).round + 1 == MAX_ROUNDS || movement.lt_spec(
                    Scalar { bits: STILL_BITS },
                ),
                ..*old(self)
            }),
            final(self).rounds_left() < old(self).rounds_left(),
            *final(self) == old(self).after_move(movement),
    {
        self.round = self.round + 1;
        self.settled = self.round == MAX_ROUNDS || movement.lt(Scalar { bits: STILL_BITS });
    }

    /// Puts each point in the group of the centre that is most alike, given its likeness to each.
    pub fn finish(self, likeness: &Vec<Vec<Scalar>>) -> (groups: Vec<u32>)
        requires
            self.wf(),
            is_table(likeness@, self.groups@.len(), self.k as nat),
        ensures
            groups@ == most_alike_groups(likeness@),
            forall|i: int| 0 <= i < groups@.len() ==> #[trigger] groups@[i] < self.k,
    {
        let mut groups: Vec<u32> = Vec::new();
        let mut i: usize = 0;
        while i < likeness.len()
            invariant
                i <= likeness@.len(),
                is_table(likeness@, self.groups@.len(), self.k as nat),
                self.wf(),
                groups@ == most_alike_groups(likeness@).take(i as int),
                forall|j: int| 0 <= j < i ==> #[trigger] groups@[j] < self.k,
            decreases likeness@.len() - i,
        {
            let l = &likeness[i];
            assert(l@.len() == self.k);
            groups.push(most_alike_group(l));
            assert(groups@ =~= most_alike_groups(likeness@).take(i + 1));
            i += 1;
        }
        assert(groups@ =~= most_alike_groups(likeness@));
        groups
    }
}

/// The arithmetic by which points are grouped. Points and centres are lists of numbers.
pub ghost struct Geometry {
    /// How far a point lies from a centre.
    pub distance: spec_fn(Seq<Scalar>, Seq<Scalar>) -> Scalar,
    /// How alike a point is to a centre.
    pub likeness: spec_fn(Seq<Scalar>, Seq<Scalar>) -> Scalar,
    /// How far the points lie from the centres, added up from the first point on.
    pub sums: spec_fn(Seq<Seq<Scalar>>, Seq<Seq<Scalar>>) -> Seq<Scalar>,
    /// The part of the whole sum that a number drawn stands for.
    pub threshold: spec_fn(u64, Seq<Scalar>) -> Scalar,
    /// The middles of the groups, where the centres were.
    pub middles: spec_fn(Seq<Seq<Scalar>>, Seq<u32>, Seq<Seq<Scalar>>) -> Seq<Seq<Scalar>>,
    /// How far the centres moved.
    pub movement: spec_fn(Seq<Seq<Scalar>>, Seq<Seq<Scalar>>) -> Scalar,
    /// The centres, brought to length one.
    pub directions: spec_fn(Seq<Seq<Scalar>>) -> Seq<Seq<Scalar>>,
}

impl Geometry {
    /// Moving centres, and bringing them to length one, leaves as many as there were.
    pub open spec fn keeps_centres(self) -> bool {
        &&& forall|points: Seq<Seq<Scalar>>, groups: Seq<u32>, centres: Seq<Seq<Scalar>>|
            (#[trigger] (self.middles)(points, groups, centres)).len() == centres.len()
        &&& forall|centres: Seq<Seq<Scalar>>|
            (#[trigger] (self.directions)(centres)).len() == centres.len()
    }
}

/// What `measure` has between a point and each of the centres.
pub open spec fn row_of(
    point: Seq<Scalar>,
    centres: Seq<Seq<Scalar>>,
    measure: spec_fn(Seq<Scalar>, Seq<Scalar>) -> Scalar,
) -> Seq<Scalar> {
    Seq::new(centres.len(), |c: int| measure(point, centres[c]))
}

/// The group of the nearest centre, for each point.
pub open spec fn nearest_to(
    points: Seq<Seq<Scalar>>,
    centres: Seq<Seq<Scalar>>,
    measure: spec_fn(Seq<Scalar>, Seq<Scalar>) -> Scalar,
) -> Seq<u32> {
    Seq::new(
        points.len(),
        |i: int|
            crate::curve::first_smallest(
                row_of(points[i], centres, measure),
                centres.len() as int,
            ) as u32,
    )
}

/// The group of the centre that is most alike, for each point.
pub open spec fn most_alike_to(
    points: Seq<Seq<Scalar>>,
    centres: Seq<Seq<Scalar>>,
    measure: spec_fn(Seq<Scalar>, Seq<Scalar>) -> Scalar,
) -> Seq<u32> {
    Seq::new(
        points.len(),
        |i: int|
            crate::curve::last_largest(
                row_of(points[i], centres, measure),
                centres.len() as int,
            ) as u32,
    )
}

/// The points that the first `n` groups start from: the first by a hash, each other one by how far the
/// points lie from those before.
pub open spec fn starts(points: Seq<Seq<Scalar>>, geometry: Geometry, n: nat) -> Seq<Seq<Scalar>>
    decreases n,
{
    if n == 0 {
        Seq::empty()
    } else if n == 1 {
        seq![points[(seahash_of(bytes_of(points[0])) as usize) as int % points.len() as int]]
    } else {
        let before = starts(points, geometry, (n - 1) as nat);
        let sums = (geometry.sums)(points, before);
        let drawn = seahash_of(seq![(before.len() % 256) as u8]);
        before.push(points[first_reaching(sums, (geometry.threshold)(drawn, sums))])
    }
}

/// How far grouping has come.
pub ghost struct Stage {
    pub groups: Seq<u32>,
    pub centres: Seq<Seq<Scalar>>,
    pub round: nat,
    pub settled: bool,
}

/// After one more round: the points go to the nearest centres, and the centres to the middles.
pub open spec fn next_stage(points: Seq<Seq<Scalar>>, geometry: Geometry, s: Stage) -> Stage {
    let groups = nearest_to(points, s.centres, geometry.distance);
    let centres = (geometry.middles)(points, groups, s.centres);
    Stage {
        groups,
        centres,
        round: s.round + 1,
        settled: s.round + 1 == MAX_ROUNDS || (geometry.movement)(s.centres, centres).lt_spec(
            Scalar { bits: STILL_BITS },
        ),
    }
}

/// How far grouping has come after `n` rounds.
pub open spec fn stage_after(points: Seq<Seq<Scalar>>, k: nat, geometry: Geometry, n: nat) -> Stage
    decreases n,
{
    if n == 0 {
        Stage {
            groups: Seq::new(points.len(), |i: int| 0u32),
            centres: starts(points, geometry, k),
            round: 0,
            settled: false,
        }
    } else {
        next_stage(points, geometry, stage_after(points, k, geometry, (n - 1) as nat))
    }
}

/// The first stage from the one after `n` rounds on that is settled.
pub open spec fn settled_stage(points: Seq<Seq<Scalar>>, k: nat, geometry: Geometry, n: nat) -> Stage
    decreases MAX_ROUNDS - n,
{
    let s = stage_after(points, k, geometry, n);
    if s.settled || n >= MAX_ROUNDS {
        s
    } else {
        settled_stage(points, k, geometry, n + 1)
    }
}

/// The groups of points, `k` in number, when grouping has come to its end.
pub open spec fn final_groups(points: Seq<Seq<Scalar>>, k: nat, geometry: Geometry) -> Seq<u32> {
    most_alike_to(
        points,
        (geometry.directions)(settled_stage(points, k, geometry, 0).centres),
        geometry.likeness,
    )
}

proof fn lemma_starts(points: Seq<Seq<Scalar>>, geometry: Geometry, n: nat)
    ensures
        starts(points, geometry, n).len() == n,
    decreases n,
{
    if n > 1 {
        lemma_starts(points, geometry, (n - 1) as nat);
    }
}

proof fn lemma_stage(points: Seq<Seq<Scalar>>, k: nat, geometry: Geometry, n: nat)
    requires
        geometry.keeps_centres(),
    ensures
        stage_after(points, k, geometry, n).centres.len() == k,
        stage_after(points, k, geometry, n).round == n,
    decreases n,
{
    if n == 0 {
        lemma_starts(points, geometry, k);
    } else {
        lemma_stage(points, k, geometry, (n - 1) as nat);
    }
}

proof fn lemma_settled_stage(points: Seq<Seq<Scalar>>, k: nat, geometry: Geometry, n: nat)
    requires
        geometry.keeps_centres(),
    ensures
        settled_stage(points, k, geometry, n).centres.len() == k,
    decreases MAX_ROUNDS - n,
{
    lemma_stage(points, k, geometry, n);
    if !stage_after(points, k, geometry, n).settled && n < MAX_ROUNDS {
        lemma_settled_stage(points, k, geometry, n + 1);
    }
}

/// When grouping has come to its end, whatever the arithmetic, every point has one of the groups, and
/// equal points have the same.
pub proof fn grouping_is_fair(
    points: Seq<Seq<Scalar>>,
    k: nat,
    geometry: Geometry,
    i: int,
    j: int,
)
    requires
        1 <= k <= u32::MAX,
        geometry.keeps_centres(),
        0 <= i < points.len(),
        0 <= j < points.len(),
        points[i] == points[j],
    ensures
        final_groups(points, k, geometry).len() == points.len(),
        final_groups(points, k, geometry)[i] < k,
        final_groups(points, k, geometry)[i] == final_groups(points, k, geometry)[j],
{
    lemma_settled_stage(points, k, geometry, 0);
    let centres = (geometry.directions)(settled_stage(points, k, geometry, 0).centres);
    crate::curve::lemma_extremes_in_range(
        row_of(points[i], centres, geometry.likeness),
        k as int,
    );
}

/// The run stands at the stage.
pub open spec fn stands_at(run: GroupRun, s: Stage) -> bool {
    &&& run.groups@ == s.groups
    &&& run.k == s.centres.len()
    &&& run.round == s.round
    &&& run.settled == s.settled
}

/// `after` is what `regroup` and then `moved` make of `before` when they are told what the geometry has
/// for these centres.
pub open spec fn is_round(
    points: Seq<Seq<Scalar>>,
    centres: Seq<Seq<Scalar>>,
    geometry: Geometry,
    before: GroupRun,
    table: Seq<Vec<Scalar>>,
    after: GroupRun,
) -> bool {
    let groups = nearest_groups(table);
    let movement = (geometry.movement)(centres, (geometry.middles)(points, groups, centres));
    &&& is_measured(
        table,
        points,
        before.k as nat,
        |p: Seq<Scalar>, c: int| (geometry.distance)(p, centres[c]),
    )
    &&& after.groups@ == groups
    &&& after.k == before.k
    &&& after.round == before.round + 1
    &&& after.settled == (before.round + 1 == MAX_ROUNDS || movement.lt_spec(
        Scalar { bits: STILL_BITS },
    ))
}

proof fn lemma_measured_rows(
    table: Seq<Vec<Scalar>>,
    points: Seq<Seq<Scalar>>,
    centres: Seq<Seq<Scalar>>,
    measure: spec_fn(Seq<Scalar>, Seq<Scalar>) -> Scalar,
)
    requires
        is_measured(
            table,
            points,
            centres.len(),
            |p: Seq<Scalar>, c: int| measure(p, centres[c]),
        ),
    ensures
        nearest_groups(table) == nearest_to(points, centres, measure),
        most_alike_groups(table) == most_alike_to(points, centres, measure),
{
    assert forall|i: int| 0 <= i < points.len() implies (#[trigger] table[i])@ == row_of(
        points[i],
        centres,
        measure,
    ) by {
        let row = row_of(points[i], centres, measure);
        assert forall|c: int| 0 <= c < centres.len() implies table[i]@[c] == row[c] by {}
        assert(table[i]@ =~= row);
    }
    assert(nearest_groups(table) =~= nearest_to(points, centres, measure));
    assert(most_alike_groups(table) =~= most_alike_to(points, centres, measure));
}

proof fn lemma_runs_stand(
    points: Seq<Seq<Scalar>>,
    k: nat,
    geometry: Geometry,
    runs: Seq<GroupRun>,
    tables: Seq<Seq<Vec<Scalar>>>,
    n: nat,
)
    requires
        geometry.keeps_centres(),
        n < runs.len(),
        stands_at(runs[0], stage_after(points, k, geometry, 0)),
        forall|r: int|
            0 <= r < runs.len() - 1 ==> is_round(
                points,
                stage_after(points, k, geometry, r as nat).centres,
                geometry,
                #[trigger] runs[r],
                tables[r],
                runs[r + 1],
            ),
    ensures
        stands_at(runs[n as int], stage_after(points, k, geometry, n)),
    decreases n,
{
    if n > 0 {
        let r = n - 1;
        lemma_runs_stand(points, k, geometry, runs, tables, r as nat);
        lemma_stage(points, k, geometry, r as nat);
        lemma_stage(points, k, geometry, n);
        assert(is_round(
            points,
            stage_after(points, k, geometry, r as nat).centres,
            geometry,
            runs[r],
            tables[r],
            runs[r + 1],
        ));
        lemma_measured_rows(
            tables[r],
            points,
            stage_after(points, k, geometry, r as nat).centres,
            geometry.distance,
        );
    }
}

proof fn lemma_settles_at(points: Seq<Seq<Scalar>>, k: nat, geometry: Geometry, from: nat, n: nat)
    requires
        from <= n <= MAX_ROUNDS,
        stage_after(points, k, geometry, n).settled,
        forall|r: nat|
            from <= r < n ==> !(#[trigger] stage_after(points, k, geometry, r)).settled,
    ensures
        settled_stage(points, k, geometry, from) == stage_after(points, k, geometry, n),
    decreases n - from,
{
    if from < n {
        assert(!stage_after(points, k, geometry, from).settled);
        lemma_settles_at(points, k, geometry, from + 1, n);
    }
}

/// A run that starts anew, goes from round to round until it is settled, and is told at each what the
/// geometry has, ends with the groups that the geometry and the points decide. So two such runs on the
/// same points end alike.
pub proof fn runs_end_with_the_final_groups(
    points: Seq<Seq<Scalar>>,
    k: nat,
    geometry: Geometry,
    runs: Seq<GroupRun>,
    tables: Seq<Seq<Vec<Scalar>>>,
    likeness: Seq<Vec<Scalar>>,
)
    requires
        geometry.keeps_centres(),
        runs.len() > 0,
        runs[0].groups@ == Seq::new(points.len(), |i: int| 0u32),
        runs[0].k == k,
        runs[0].round == 0,
        !runs[0].settled,
        runs.last().wf(),
        runs.last().settled,
        forall|r: int|
            0 <= r < runs.len() - 1 ==> !(#[trigger] runs[r]).settled && is_round(
                points,
                stage_after(points, k, geometry, r as nat).centres,
                geometry,
                runs[r],
                tables[r],
                runs[r + 1],
            ),
        is_measured(
            likeness,
            points,
            k,
            |p: Seq<Scalar>, c: int|
                (geometry.likeness)(
                    p,
                    (geometry.directions)(
                        stage_after(points, k, geometry, (runs.len() - 1) as nat).centres,
                    )[c],
                ),
        ),
    ensures
        most_alike_groups(likeness) == final_groups(points, k, geometry),
{
    let n = (runs.len() - 1) as nat;
    lemma_starts(points, geometry, k);
    assert(stands_at(runs[0], stage_after(points, k, geometry, 0)));
    lemma_runs_stand(points, k, geometry, runs, tables, n);
    lemma_stage(points, k, geometry, n);
    assert forall|r: nat| 0 <= r < n implies !(#[trigger] stage_after(
        points,
        k,
        geometry,
        r,
    )).settled by {
        lemma_runs_stand(points, k, geometry, runs, tables, r);
        assert(!runs[r as int].settled);
    }
    lemma_settles_at(points, k, geometry, 0, n);
    let centres = (geometry.directions)(stage_after(points, k, geometry, n).centres);
    lemma_measured_rows(likeness, points, centres, geometry.likeness);
}

} // verus!
