//! Finding photos by what is said of them, and by their likeness.
use crate::cluster::{vectors_under, Indexed};
use crate::gallery::{find_vector, Annotation, AnnotationView, EntryView, PhotoEntry};
use crate::order::{is_stable_order, stable_order};
use crate::scalar::Scalar;
use crate::text::{self, begins_with, holds_text, lowercase_text, trimmed, u32_of_text, words_of};
use vstd::prelude::*;

verus! {

broadcast use vstd::string::group_string_axioms;

/// The number of the group that a word of a search asks for: what follows `cluster:`.
pub open spec fn group_asked(word: Seq<char>) -> Option<u32> {
    if begins_with(word, "cluster:"@) {
        u32_of_text(word.skip("cluster:"@.len() as int))
    } else {
        None
    }
}

/// The annotation answers a word of a search: it is a note that holds the word, in whatever case, or
/// it names the group that the word asks for.
pub open spec fn answers_word(a: AnnotationView, word: Seq<char>) -> bool {
    match group_asked(word) {
        Some(id) => a matches AnnotationView::ClusterAssignment { cluster_id, .. } && cluster_id
            == id,
        None => a matches AnnotationView::Note { text } && holds_text(lowercase_text(text), word),
    }
}

/// One of the annotations answers the word.
pub open spec fn found_in(annotations: Seq<AnnotationView>, word: Seq<char>) -> bool {
    exists|i: int| 0 <= i < annotations.len() && answers_word(#[trigger] annotations[i], word)
}

/// Each of the words is answered.
pub open spec fn all_found(annotations: Seq<AnnotationView>, words: Seq<Seq<char>>) -> bool {
    forall|i: int| 0 <= i < words.len() ==> found_in(annotations, #[trigger] words[i])
}

/// The words of a search.
pub open spec fn search_words(query: Seq<char>) -> Seq<Seq<char>> {
    words_of(lowercase_text(trimmed(query)))
}

/// The places of the photos of which all the words are answered, in order.
pub open spec fn matching(photos: Seq<EntryView>, words: Seq<Seq<char>>) -> Seq<usize>
    decreases photos.len(),
{
    if photos.len() == 0 {
        Seq::empty()
    } else {
        let before = matching(photos.drop_last(), words);
        if all_found(photos.last().data.annotations, words) {
            before.push((photos.len() - 1) as usize)
        } else {
            before
        }
    }
}

/// All photos, in order.
pub open spec fn all_places(n: nat) -> Seq<usize> {
    Seq::new(n, |i: int| i as usize)
}

/// The photos that a search shows, by their places. An empty search shows all.
pub open spec fn shown_by(photos: Seq<EntryView>, query: Seq<char>) -> Seq<usize> {
    if lowercase_text(trimmed(query)).len() == 0 {
        all_places(photos.len())
    } else {
        matching(photos, search_words(query))
    }
}

fn word_answered(a: &Annotation, word: &str, group: Option<u32>) -> (b: bool)
    requires
        group == group_asked(word@),
    ensures
        b == answers_word(a.deep_view(), word@),
{
    match (group, a) {
        (Some(id), Annotation::ClusterAssignment { cluster_id, .. }) => *cluster_id == id,
        (Some(_), _) => false,
        (None, Annotation::Note { text }) => {
            let low = text::lowercase(text.as_str());
            text::contains(low.as_str(), word)
        },
        (None, _) => false,
    }
}

fn asked_group(word: &str) -> (g: Option<u32>)
    ensures
        g == group_asked(word@),
{
    if text::starts_with(word, "cluster:") {
        let chars = text::to_chars(word);
        let n = text::to_chars("cluster:").len();
        let rest = text::from_chars(&chars, n, chars.len());
        assert(rest@ =~= word@.skip("cluster:"@.len() as int));
        text::parse_u32(rest.as_str())
    } else {
        None
    }
}

fn is_found_in(annotations: &Vec<Annotation>, word: &str) -> (b: bool)
    ensures
        b == found_in(annotations.deep_view(), word@),
{
    let ghost all = annotations.deep_view();
    let group = asked_group(word);
    let mut i: usize = 0;
    while i < annotations.len()
        invariant
            i <= annotations@.len(),
            all == annotations.deep_view(),
            group == group_asked(word@),
            forall|k: int| 0 <= k < i ==> !answers_word(#[trigger] all[k], word@),
        decreases annotations@.len() - i,
    {
        assert(all[i as int] == annotations@[i as int].deep_view());
        if word_answered(&annotations[i], word, group) {
            return true;
        }
        i += 1;
    }
    false
}

fn are_all_found(annotations: &Vec<Annotation>, words: &Vec<String>) -> (b: bool)
    ensures
        b == all_found(annotations.deep_view(), words.deep_view()),
{
    let mut i: usize = 0;
    while i < words.len()
        invariant
            i <= words@.len(),
            forall|k: int|
                0 <= k < i ==> found_in(annotations.deep_view(), #[trigger] words.deep_view()[k]),
        decreases words@.len() - i,
    {
        assert(words.deep_view()[i as int] == words@[i as int]@);
        if !is_found_in(annotations, words[i].as_str()) {
            return false;
        }
        i += 1;
    }
    true
}

/// The photos that a search shows, by their places.
pub fn search(entries: &Vec<PhotoEntry>, query: &str) -> (r: Vec<usize>)
    ensures
        r@ == shown_by(entries.deep_view(), query@),
        forall|i: int| 0 <= i < r@.len() ==> #[trigger] r@[i] < entries@.len(),
{
    let trimmed_query = text::trim(query);
    let low = text::lowercase(trimmed_query.as_str());
    let n = entries.len();
    let mut r: Vec<usize> = Vec::new();
    let mut i: usize = 0;
    if text::to_chars(low.as_str()).len() == 0 {
        while i < n
            invariant
                i <= n,
                r@ == all_places(i as nat),
            decreases n - i,
        {
            r.push(i);
            assert(r@ =~= all_places((i + 1) as nat));
            i += 1;
        }
        return r;
    }
    let words = text::words(low.as_str());
    let ghost photos = entries.deep_view();
    let ghost w = words.deep_view();
    while i < n
        invariant
            i <= n == entries@.len(),
            photos == entries.deep_view(),
            w == words.deep_view(),
            r@ == matching(photos.take(i as int), w),
            forall|k: int| 0 <= k < r@.len() ==> #[trigger] r@[k] < i,
        decreases n - i,
    {
        assert(photos.take(i + 1).drop_last() == photos.take(i as int));
        assert(photos.take(i + 1).last() == entries@[i as int].deep_view());
        if are_all_found(&entries[i].data.annotations, &words) {
            r.push(i);
        }
        i += 1;
    }
    assert(photos.take(i as int) == photos);
    r
}

/// A search shows exactly the photos of which all its words are answered, in order and each once.
pub proof fn search_shows_matches(photos: Seq<EntryView>, words: Seq<Seq<char>>)
    requires
        photos.len() <= usize::MAX,
    ensures
        forall|i: int|
            0 <= i < photos.len() ==> (matching(photos, words).contains(i as usize) <==> all_found(
                (#[trigger] photos[i]).data.annotations,
                words,
            )),
        forall|i: int|
            0 <= i < matching(photos, words).len() ==> #[trigger] matching(photos, words)[i]
                < photos.len(),
        forall|i: int, j: int|
            0 <= i < j < matching(photos, words).len() ==> #[trigger] matching(photos, words)[i]
                < #[trigger] matching(photos, words)[j],
    decreases photos.len(),
{
    if photos.len() > 0 {
        let rest = photos.drop_last();
        search_shows_matches(rest, words);
        let less = matching(rest, words);
        let all = matching(photos, words);
        let last = (photos.len() - 1) as usize;
        assert forall|i: int| 0 <= i < photos.len() implies (all.contains(i as usize)
            <==> all_found((#[trigger] photos[i]).data.annotations, words)) by {
            if i < rest.len() {
                assert(rest[i] == photos[i]);
                if less.contains(i as usize) {
                    let k = choose|k: int| 0 <= k < less.len() && less[k] == i as usize;
                    assert(all[k] == i as usize);
                }
                if all.contains(i as usize) {
                    let k = choose|k: int| 0 <= k < all.len() && all[k] == i as usize;
                    assert(less[k] == i as usize);
                }
            } else {
                if all_found(photos.last().data.annotations, words) {
                    assert(all[less.len() as int] == last);
                } else if all.contains(last) {
                    let k = choose|k: int| 0 <= k < all.len() && all[k] == last;
                    assert(less[k] < rest.len());
                }
            }
        }
    }
}

/// What is said of each photo.
pub open spec fn said_of(photos: Seq<EntryView>) -> Seq<Seq<AnnotationView>> {
    Seq::new(photos.len(), |i: int| photos[i].data.annotations)
}

/// The photos that have a vector under `ns`, in order, each with its vector.
pub fn candidates(entries: &Vec<PhotoEntry>, ns: &str) -> (r: Vec<Indexed>)
    ensures
        r.deep_view() == vectors_under(said_of(entries.deep_view()), ns@),
        forall|i: int| 0 <= i < r@.len() ==> (#[trigger] r@[i]).index < entries@.len(),
{
    let ghost all = said_of(entries.deep_view());
    let mut r: Vec<Indexed> = Vec::new();
    let mut i: usize = 0;
    assert(r.deep_view() =~= vectors_under(all.take(0), ns@));
    while i < entries.len()
        invariant
            i <= entries@.len(),
            all == said_of(entries.deep_view()),
            r.deep_view() == vectors_under(all.take(i as int), ns@),
            forall|k: int| 0 <= k < r@.len() ==> (#[trigger] r@[k]).index < i,
        decreases entries@.len() - i,
    {
        assert(all.take(i + 1).drop_last() == all.take(i as int));
        assert(all.take(i + 1).last() == entries@[i as int].data.annotations.deep_view());
        if let Some(vector) = find_vector(&entries[i].data.annotations, ns) {
            let ghost before = r.deep_view();
            r.push(Indexed { index: i, vector });
            assert(r.deep_view() =~= before.push((i as nat, vector@)));
        }
        i += 1;
    }
    assert(all.take(i as int) == all);
    r
}

/// A photo with its likeness to another.
#[derive(Debug, Clone, Copy, PartialEq, Eq, Structural)]
pub struct Scored {
    pub index: usize,
    pub score: Scalar,
}

/// The numbers by which photos are ranked: the more alike, the smaller.
pub open spec fn likeness_keys(scored: Seq<Scored>) -> Seq<i64> {
    Seq::new(scored.len(), |i: int| (-scored[i].score.key()) as i64)
}

/// `r` lists the first `count` of the photos, from the most alike on, equals in their order.
pub open spec fn is_ranking(r: Seq<usize>, scored: Seq<Scored>, count: nat) -> bool {
    exists|order: Seq<usize>| #[trigger]
        is_stable_order(order, likeness_keys(scored)) && r == Seq::new(
            if count <= order.len() {
                count
            } else {
                order.len()
            },
            |i: int| scored[order[i] as int].index,
        )
}

fn keys_of(scored: &Vec<Scored>) -> (keys: Vec<i64>)
    ensures
        keys@ == likeness_keys(scored@),
{
    let mut keys: Vec<i64> = Vec::new();
    let mut i: usize = 0;
    while i < scored.len()
        invariant
            i <= scored@.len(),
            keys@.len() == i,
            forall|k: int| 0 <= k < i ==> keys@[k] == -scored@[k].score.key(),
        decreases scored@.len() - i,
    {
        let k = scored[i].score.order_key();
        keys.push(-k);
        i += 1;
    }
    assert(keys@ =~= likeness_keys(scored@));
    keys
}

/// The photo is one of those with a likeness.
pub open spec fn is_scored(index: usize, scored: Seq<Scored>) -> bool {
    exists|k: int| 0 <= k < scored.len() && (#[trigger] scored[k]).index == index
}

/// The first `count` of the photos, from the most alike on, equals in their order.
pub fn rank(scored: &Vec<Scored>, count: usize) -> (r: Vec<usize>)
    ensures
        is_ranking(r@, scored@, count as nat),
        forall|i: int| 0 <= i < r@.len() ==> is_scored(#[trigger] r@[i], scored@),
{
    let keys = keys_of(scored);
    let order = stable_order(&keys);
    let n = if count <= order.len() {
        count
    } else {
        order.len()
    };
    let mut r: Vec<usize> = Vec::new();
    let mut j: usize = 0;
    while j < n
        invariant
            j <= n <= order@.len(),
            order@.len() == scored@.len(),
            forall|k: int| 0 <= k < order@.len() ==> #[trigger] order@[k] < scored@.len(),
            r@.len() == j,
            forall|k: int| 0 <= k < j ==> #[trigger] r@[k] == scored@[order@[k] as int].index,
        decreases n - j,
    {
        r.push(scored[order[j]].index);
        j += 1;
    }
    assert(r@ =~= Seq::new(n as nat, |k: int| scored@[order@[k] as int].index));
    assert forall|k: int| 0 <= k < r@.len() implies is_scored(#[trigger] r@[k], scored@) by {
        assert(order@[k] < scored@.len());
        assert(r@[k] == scored@[order@[k] as int].index);
    }
    r
}

/// Going through ranked photos for some that are not too alike among each other.
pub struct DiverseRun {
    /// The photos from the most alike on, by their places in the list they come from.
    pub order: Vec<usize>,
    /// How many have been considered.
    pub at: usize,
    /// Those that were taken, by their places in that list.
    pub taken: Vec<usize>,
    /// How many are wanted.
    pub count: usize,
}

/// A photo is too close to one that was taken.
pub open spec fn too_close(distances: Seq<Scalar>, limit: Scalar) -> bool {
    exists|i: int| 0 <= i < distances.len() && (#[trigger] distances[i]).lt_spec(limit)
}

/// `places` rise, and stay below `at`.
pub open spec fn rise_below(places: Seq<int>, at: int) -> bool {
    &&& forall|i: int| 0 <= i < places.len() ==> 0 <= #[trigger] places[i] < at
    &&& forall|i: int, j: int|
        0 <= i < j < places.len() ==> #[trigger] places[i] < #[trigger] places[j]
}

/// `taken` holds some of the first `at` of `order`, in their order.
pub open spec fn taken_in_order(taken: Seq<usize>, order: Seq<usize>, at: int) -> bool {
    exists|places: Seq<int>| #[trigger]
        rise_below(places, at) && taken == Seq::new(places.len(), |i: int| order[places[i]])
}

impl DiverseRun {
    /// The photos that were taken are among those that were considered, in the same order, no more than
    /// are wanted, and none twice.
    pub open spec fn wf(self) -> bool {
        &&& self.at <= self.order@.len()
        &&& self.order@.no_duplicates()
        &&& forall|i: int|
            0 <= i < self.order@.len() ==> #[trigger] self.order@[i] < self.order@.len()
        &&& self.taken@.len() <= self.count
        &&& self.taken@.no_duplicates()
        &&& forall|i: int|
            0 <= i < self.taken@.len() ==> #[trigger] self.taken@[i] < self.order@.len()
        &&& taken_in_order(self.taken@, self.order@, self.at as int)
    }

    /// Starts with the most alike.
    pub fn new(scored: &Vec<Scored>, count: usize) -> (run: Self)
        ensures
            run.wf(),
            is_stable_order(run.order@, likeness_keys(scored@)),
            run.at == 0,
            run.taken@.len() == 0,
            run.count == count,
            forall|measure: spec_fn(usize, usize) -> Scalar, limit: Scalar| #[trigger]
                run.follows(measure, limit),
    {
        let keys = keys_of(scored);
        let run = DiverseRun { order: stable_order(&keys), at: 0, taken: Vec::new(), count };
        proof {
            let none = Seq::<int>::empty();
            assert(rise_below(none, 0));
            assert(run.taken@ =~= Seq::new(none.len(), |i: int| run.order@[none[i]]));
            assert forall|measure: spec_fn(usize, usize) -> Scalar, limit: Scalar| #[trigger]
                run.follows(measure, limit) by {
                new_runs_follow(run, measure, limit);
            }
        }
        run
    }

    /// The place of the photo to be considered, while more are wanted and there are more.
    pub open spec fn next_place(self) -> Option<usize> {
        if self.taken@.len() < self.count && self.at < self.order@.len() {
            Some(self.order@[self.at as int])
        } else {
            None
        }
    }

    /// The place of the photo to be considered; nothing when there are enough, or no more.
    pub fn candidate(&self) -> (r: Option<usize>)
        ensures
            r == if self.taken@.len() >= self.count || self.at >= self.order@.len() {
                None
            } else {
                Some(self.order@[self.at as int])
            },
            r == self.next_place(),
    {
        if self.taken.len() >= self.count || self.at >= self.order.len() {
            None
        } else {
            Some(self.order[self.at])
        }
    }

    /// Takes the photo, unless it is closer than `limit` to one of those that were taken. `distances`
    /// holds its distance from each of them.
    pub fn consider(&mut self, distances: &Vec<Scalar>, limit: Scalar)
        requires
            old(self).wf(),
            old(self).at < old(self).order@.len(),
            old(self).taken@.len() < old(self).count,
            distances@.len() == old(self).taken@.len(),
        ensures
            final(self).wf(),
            final(self).order == old(self).order,
            final(self).count == old(self).count,
            final(self).at == old(self).at + 1,
            final(self).taken@ == if too_close(distances@, limit) {
                old(self).taken@
            } else {
                old(self).taken@.push(old(self).order@[old(self).at as int])
            },
            forall|measure: spec_fn(usize, usize) -> Scalar| #[trigger]
                old(self).follows(measure, limit) && old(self).is_told(distances@, measure)
                    ==> final(self).follows(measure, limit),
    {
        let ghost order = self.order@;
        let ghost at = self.at as int;
        let ghost before = self.taken@;
        let ghost places = choose|places: Seq<int>| #[trigger]
            rise_below(places, at) && before == Seq::new(places.len(), |i: int| order[places[i]]);
        let mut near = false;
        let mut i: usize = 0;
        while i < distances.len()
            invariant
                i <= distances@.len(),
                near == exists|k: int| 0 <= k < i && (#[trigger] distances@[k]).lt_spec(limit),
            decreases distances@.len() - i,
        {
            if distances[i].lt(limit) {
                near = true;
            }
            i += 1;
        }
        if !near {
            self.taken.push(self.order[self.at]);
        }
        assert(self.order.len() <= usize::MAX);
        self.at = self.at + 1;
        proof {
            if near {
                assert(rise_below(places, at + 1));
            } else {
                let more = places.push(at);
                assert(rise_below(more, at + 1));
                assert(self.taken@ =~= Seq::new(more.len(), |i: int| order[more[i]]));
                assert forall|i: int| 0 <= i < before.len() implies before[i] != order[at] by {
                    assert(before[i] == order[places[i]]);
                }
            }
            assert forall|measure: spec_fn(usize, usize) -> Scalar| #[trigger]
                old(self).follows(measure, limit) && old(self).is_told(
                distances@,
                measure,
            ) implies self.follows(measure, limit) by {
                steps_follow(*old(self), distances@, *self, measure, limit);
            }
        }
    }
}

/// The photo at `place` is closer than `limit` to one of `taken`, as `measure` has it.
pub open spec fn is_near(
    taken: Seq<usize>,
    place: usize,
    measure: spec_fn(usize, usize) -> Scalar,
    limit: Scalar,
) -> bool {
    exists|i: int| 0 <= i < taken.len() && measure(#[trigger] taken[i], place).lt_spec(limit)
}

/// The photos that are taken of the first `n` of `order`: no more than `count`, and none that is closer
/// than `limit` to one before it.
pub open spec fn taken_of(
    order: Seq<usize>,
    count: nat,
    measure: spec_fn(usize, usize) -> Scalar,
    limit: Scalar,
    n: nat,
) -> Seq<usize>
    decreases n,
{
    if n == 0 {
        Seq::empty()
    } else {
        let before = taken_of(order, count, measure, limit, (n - 1) as nat);
        if before.len() >= count || is_near(before, order[n - 1], measure, limit) {
            before
        } else {
            before.push(order[n - 1])
        }
    }
}

impl DiverseRun {
    /// `distances` holds what `measure` has between each photo taken and the one to be considered.
    pub open spec fn is_told(
        self,
        distances: Seq<Scalar>,
        measure: spec_fn(usize, usize) -> Scalar,
    ) -> bool {
        &&& distances.len() == self.taken@.len()
        &&& forall|i: int|
            0 <= i < distances.len() ==> #[trigger] distances[i] == measure(
                self.taken@[i],
                self.order@[self.at as int],
            )
    }

    /// The run has taken what there is to take by `measure` and `limit`, and there was room for each
    /// photo that it considered.
    pub open spec fn follows(self, measure: spec_fn(usize, usize) -> Scalar, limit: Scalar) -> bool {
        &&& self.taken@ == taken_of(
            self.order@,
            self.count as nat,
            measure,
            limit,
            self.at as nat,
        )
        &&& forall|p: int|
            0 <= p < self.at ==> (#[trigger] taken_of(
                self.order@,
                self.count as nat,
                measure,
                limit,
                p as nat,
            )).len() < self.count
    }
}

/// A run that has considered nothing has taken what there is to take.
proof fn new_runs_follow(
    run: DiverseRun,
    measure: spec_fn(usize, usize) -> Scalar,
    limit: Scalar,
)
    requires
        run.at == 0,
        run.taken@.len() == 0,
    ensures
        run.follows(measure, limit),
{
    assert(run.taken@ =~= Seq::empty());
}

/// A run that has taken what there is to take, and is told what `measure` has between the photos taken
/// and the one considered, has done so after that step as well.
proof fn steps_follow(
    before: DiverseRun,
    distances: Seq<Scalar>,
    after: DiverseRun,
    measure: spec_fn(usize, usize) -> Scalar,
    limit: Scalar,
)
    requires
        before.follows(measure, limit),
        before.at < before.order@.len(),
        before.taken@.len() < before.count,
        before.is_told(distances, measure),
        after.order == before.order,
        after.count == before.count,
        after.at == before.at + 1,
        after.taken@ == if too_close(distances, limit) {
            before.taken@
        } else {
            before.taken@.push(before.order@[before.at as int])
        },
    ensures
        after.follows(measure, limit),
{
    let taken = before.taken@;
    let place = before.order@[before.at as int];
    if too_close(distances, limit) {
        let i = choose|i: int|
            0 <= i < distances.len() && (#[trigger] distances[i]).lt_spec(limit);
        assert(measure(taken[i], place).lt_spec(limit));
    }
    if is_near(taken, place, measure, limit) {
        let i = choose|i: int|
            0 <= i < taken.len() && measure(#[trigger] taken[i], place).lt_spec(limit);
        assert(distances[i].lt_spec(limit));
    }
}

/// What a run has taken keeps its distance: no two of the photos are closer than the limit, and every
/// photo that was considered and left out is closer than the limit to one that was taken.
pub proof fn diverse_photos_keep_their_distance(
    run: DiverseRun,
    measure: spec_fn(usize, usize) -> Scalar,
    limit: Scalar,
)
    requires
        run.wf(),
        run.follows(measure, limit),
    ensures
        forall|i: int, j: int|
            0 <= i < j < run.taken@.len() ==> !measure(
                #[trigger] run.taken@[i],
                #[trigger] run.taken@[j],
            ).lt_spec(limit),
        forall|p: int|
            0 <= p < run.at && !run.taken@.contains(#[trigger] run.order@[p]) ==> is_near(
                run.taken@,
                run.order@[p],
                measure,
                limit,
            ),
{
    lemma_taken_of(run.order@, run.count as nat, measure, limit, run.at as nat);
    assert forall|p: int|
        0 <= p < run.at && !run.taken@.contains(#[trigger] run.order@[p]) implies is_near(
        run.taken@,
        run.order@[p],
        measure,
        limit,
    ) by {
        assert(taken_of(run.order@, run.count as nat, measure, limit, p as nat).len() < run.count);
    }
}

proof fn lemma_taken_of(
    order: Seq<usize>,
    count: nat,
    measure: spec_fn(usize, usize) -> Scalar,
    limit: Scalar,
    n: nat,
)
    requires
        n <= order.len(),
    ensures
        ({
            let taken = taken_of(order, count, measure, limit, n);
            &&& forall|i: int, j: int|
                0 <= i < j < taken.len() ==> !measure(
                    #[trigger] taken[i],
                    #[trigger] taken[j],
                ).lt_spec(limit)
            &&& forall|p: int|
                0 <= p < n && (#[trigger] taken_of(order, count, measure, limit, p as nat)).len()
                    < count && !taken.contains(order[p]) ==> is_near(
                    taken,
                    order[p],
                    measure,
                    limit,
                )
        }),
    decreases n,
{
    if n > 0 {
        let m = (n - 1) as nat;
        lemma_taken_of(order, count, measure, limit, m);
        let before = taken_of(order, count, measure, limit, m);
        let taken = taken_of(order, count, measure, limit, n);
        let last = order[n - 1];
        assert forall|i: int, j: int| 0 <= i < j < taken.len() implies !measure(
            #[trigger] taken[i],
            #[trigger] taken[j],
        ).lt_spec(limit) by {
            assert(before[i] == taken[i]);
            if j < before.len() {
                assert(before[j] == taken[j]);
            }
        }
        assert forall|p: int|
            0 <= p < n && (#[trigger] taken_of(order, count, measure, limit, p as nat)).len()
                < count && !taken.contains(order[p]) implies is_near(
            taken,
            order[p],
            measure,
            limit,
        ) by {
            if p == m {
                if taken.len() > before.len() {
                    assert(taken[before.len() as int] == last);
                }
            } else {
                if before.contains(order[p]) {
                    let i = choose|i: int| 0 <= i < before.len() && before[i] == order[p];
                    assert(taken[i] == order[p]);
                }
                let i = choose|i: int|
                    0 <= i < before.len() && measure(#[trigger] before[i], order[p]).lt_spec(limit);
                assert(taken[i] == before[i]);
            }
        }
    }
}

} // verus!
