//! Searches, likeness and groups.
use crate::cluster::{
    annotations_of, assigned, consistent, final_groups, first_reaching, group_size, is_assignment,
    most_alike_groups, most_alike_to, nearest_groups, nearest_to, reaches, settled_stage,
    stage_after, starts, to_group, vectors_under, with_assignment, ClusterError, Geometry, GroupRun,
};
use crate::curve::{extremes_are_extreme, lemma_extremes_in_range};
use crate::gallery::{
    bytes_of, first_vector, seahash_of, vector_of, AnnotationView, EntryView, GalleryEntryView,
};
use crate::laws::words::{digits_count_by_tens, numbers_are_read_back, words_end_at_space};
use crate::order::{is_stable_order, lemma_all_listed};
use crate::scalar::Scalar;
use crate::search::{
    all_found, answers_word, found_in, group_asked, is_near, is_ranking, likeness_keys, matching,
    rise_below, said_of, search_shows_matches, search_words, shown_by, taken_of, too_close,
    DiverseRun, Scored,
};
use crate::text::{
    all_digits, begins_with, decimal_text, digits_value, holds_text, is_digit, is_space,
    lowercase_text, trimmed, words_of,
};
use vstd::prelude::*;

verus! {

/// A word that asks for a group by its number.
proof fn lemma_group_word(n: u32)
    ensures
        group_asked("cluster:"@ + decimal_text(n as nat)) == Some(n),
        words_of("cluster:"@ + decimal_text(n as nat)) == seq!["cluster:"@ + decimal_text(n as nat)],
        ("cluster:"@ + decimal_text(n as nat)).len() > 0,
{
    let w = "cluster:"@ + decimal_text(n as nat);
    reveal_strlit("cluster:");
    assert("cluster:"@.len() == 8);
    numbers_are_read_back(n as nat);
    assert(w.take(8) == "cluster:"@);
    assert(w.skip(8) == decimal_text(n as nat));
    assert forall|i: int| 0 <= i < w.len() implies !is_space(#[trigger] w[i]) by {
        if i >= 8 {
            assert(is_digit(decimal_text(n as nat)[i - 8]));
        } else {
            assert(w[i] == "cluster:"@[i]);
        }
    }
    let none = Seq::<char>::empty();
    words_end_at_space(none, w, none);
    assert(none + w + none == w);
    assert(seq![w] + words_of(none) == seq![w]);
}

/// A search for `cluster:` and a number shows the photos that were put in the group of exactly that
/// number, under whatever name, and no others.
pub proof fn groups_are_found_by_number(photos: Seq<EntryView>, query: Seq<char>, n: u32, i: int)
    requires
        photos.len() <= usize::MAX,
        lowercase_text(trimmed(query)) == "cluster:"@ + decimal_text(n as nat),
        0 <= i < photos.len(),
    ensures
        shown_by(photos, query).contains(i as usize) <==> exists|k: int|
            0 <= k < photos[i].data.annotations.len() && (
            #[trigger] photos[i].data.annotations[k]) is ClusterAssignment
                && photos[i].data.annotations[k]->cluster_id == n,
{
    let w = "cluster:"@ + decimal_text(n as nat);
    lemma_group_word(n);
    let words = search_words(query);
    assert(words == seq![w]);
    search_shows_matches(photos, words);
    let said = photos[i].data.annotations;
    assert(all_found(said, words) <==> found_in(said, w)) by {
        assert(words[0] == w);
    }
    if found_in(said, w) {
        let k = choose|k: int| 0 <= k < said.len() && answers_word(#[trigger] said[k], w);
        assert(said[k] is ClusterAssignment && said[k]->cluster_id == n);
    }
    if exists|k: int|
        0 <= k < said.len() && (#[trigger] said[k]) is ClusterAssignment && said[k]->cluster_id
            == n {
        let k = choose|k: int|
            0 <= k < said.len() && (#[trigger] said[k]) is ClusterAssignment && said[k]->cluster_id
                == n;
        assert(answers_word(said[k], w));
    }
}

/// Searches for two different numbers show no photo in common, of photos that are in one group
/// each.
pub proof fn groups_are_found_apart(
    photos: Seq<EntryView>,
    one: Seq<char>,
    other: Seq<char>,
    m: u32,
    n: u32,
    i: int,
)
    requires
        photos.len() <= usize::MAX,
        lowercase_text(trimmed(one)) == "cluster:"@ + decimal_text(m as nat),
        lowercase_text(trimmed(other)) == "cluster:"@ + decimal_text(n as nat),
        m != n,
        0 <= i < photos.len(),
        forall|j: int, k: int|
            0 <= j < photos[i].data.annotations.len() && 0 <= k < photos[i].data.annotations.len()
                && (#[trigger] photos[i].data.annotations[j]) is ClusterAssignment && (
            #[trigger] photos[i].data.annotations[k]) is ClusterAssignment ==> j == k,
    ensures
        !(shown_by(photos, one).contains(i as usize) && shown_by(photos, other).contains(i as usize)),
{
    groups_are_found_by_number(photos, one, m, i);
    groups_are_found_by_number(photos, other, n, i);
}

/// A word that asks for no group is found in a photo when one of the photo's notes holds it, in
/// whatever case the note is written. A word that asks for a group is found in no note.
pub proof fn words_are_found_in_notes(said: Seq<AnnotationView>, word: Seq<char>)
    ensures
        group_asked(word) is None ==> (found_in(said, word) <==> exists|k: int|
            0 <= k < said.len() && (#[trigger] said[k]) is Note && holds_text(
                lowercase_text(said[k]->text),
                word,
            )),
        group_asked(word) is Some && (forall|k: int|
            0 <= k < said.len() ==> !((#[trigger] said[k]) is ClusterAssignment)) ==> !found_in(
            said,
            word,
        ),
{
    if group_asked(word) is None {
        if found_in(said, word) {
            let k = choose|k: int| 0 <= k < said.len() && answers_word(#[trigger] said[k], word);
            assert(said[k] is Note && holds_text(lowercase_text(said[k]->text), word));
        }
        if exists|k: int|
            0 <= k < said.len() && (#[trigger] said[k]) is Note && holds_text(
                lowercase_text(said[k]->text),
                word,
            ) {
            let k = choose|k: int|
                0 <= k < said.len() && (#[trigger] said[k]) is Note && holds_text(
                    lowercase_text(said[k]->text),
                    word,
                );
            assert(answers_word(said[k], word));
        }
    }
}

/// A search for nothing shows every photo, in order. A search for something shows a photo when each
/// of its words, separated by white space, is found in that photo.
pub proof fn every_word_has_to_be_found(photos: Seq<EntryView>, query: Seq<char>, i: int)
    requires
        photos.len() <= usize::MAX,
        0 <= i < photos.len(),
    ensures
        lowercase_text(trimmed(query)).len() == 0 ==> shown_by(photos, query).len() == photos.len()
            && shown_by(photos, query)[i] == i,
        lowercase_text(trimmed(query)).len() > 0 ==> (shown_by(photos, query).contains(i as usize)
            <==> forall|k: int|
            0 <= k < words_of(lowercase_text(trimmed(query))).len() ==> found_in(
                photos[i].data.annotations,
                #[trigger] words_of(lowercase_text(trimmed(query)))[k],
            )),
        forall|j: int, k: int|
            0 <= j < k < shown_by(photos, query).len() ==> #[trigger] shown_by(photos, query)[j]
                < #[trigger] shown_by(photos, query)[k],
{
    search_shows_matches(photos, search_words(query));
}

/// One more word shows no more photos.
pub proof fn more_words_show_fewer(
    photos: Seq<EntryView>,
    words: Seq<Seq<char>>,
    word: Seq<char>,
    i: int,
)
    requires
        photos.len() <= usize::MAX,
        0 <= i < photos.len(),
    ensures
        matching(photos, words.push(word)).contains(i as usize) <==> matching(
            photos,
            words,
        ).contains(i as usize) && found_in(photos[i].data.annotations, word),
{
    let more = words.push(word);
    search_shows_matches(photos, words);
    search_shows_matches(photos, more);
    let said = photos[i].data.annotations;
    if all_found(said, more) {
        assert forall|k: int| 0 <= k < words.len() implies found_in(said, #[trigger] words[k]) by {
            assert(more[k] == words[k]);
        }
        assert(more[words.len() as int] == word);
    }
    if all_found(said, words) && found_in(said, word) {
        assert forall|k: int| 0 <= k < more.len() implies found_in(said, #[trigger] more[k]) by {
            if k < words.len() {
                assert(more[k] == words[k]);
            }
        }
    }
}

/// A ranking lists as many photos as asked for, or all. It goes from the most alike to the least,
/// equals in their order, and what it leaves out is no more alike than what it lists.
#[verifier::spinoff_prover]
pub proof fn rankings_go_down(r: Seq<usize>, scored: Seq<Scored>, count: nat)
    requires
        is_ranking(r, scored, count),
    ensures
        r.len() == if count <= scored.len() {
            count
        } else {
            scored.len()
        },
        exists|places: Seq<int>|
            #![trigger places.no_duplicates()]
            {
                &&& places.no_duplicates()
                &&& places.len() == r.len()
                &&& forall|i: int|
                    0 <= i < r.len() ==> 0 <= #[trigger] places[i] < scored.len()
                        && scored[places[i]].index == r[i]
                &&& forall|i: int, j: int|
                    0 <= i < j < r.len() ==> scored[#[trigger] places[i]].score.key()
                        >= scored[#[trigger] places[j]].score.key()
                &&& forall|i: int, j: int|
                    0 <= i < j < r.len() && scored[#[trigger] places[i]].score.key()
                        == scored[#[trigger] places[j]].score.key() ==> places[i] < places[j]
                &&& forall|i: int, p: int|
                    0 <= i < r.len() && 0 <= p < scored.len() && !places.contains(p)
                        ==> #[trigger] scored[places[i]].score.key() >= #[trigger] scored[p].score.key()
            },
{
    let keys = likeness_keys(scored);
    let order = choose|order: Seq<usize>| #[trigger]
        is_stable_order(order, keys) && r == Seq::new(
            if count <= order.len() {
                count
            } else {
                order.len()
            },
            |i: int| scored[order[i] as int].index,
        );
    let places = Seq::new(r.len(), |i: int| order[i] as int);
    assert forall|i: int| 0 <= i < scored.len() implies #[trigger] keys[i]
        == -scored[i].score.key() by {}
    assert forall|i: int, j: int| 0 <= i < j < order.len() implies crate::order::comes_before(
        keys,
        #[trigger] order[i],
        #[trigger] order[j],
    ) && order[i] != order[j] by {}
    assert forall|i: int, j: int|
        0 <= i < places.len() && 0 <= j < places.len() && i != j implies places[i] != places[j] by {
        if i < j {
            assert(order[i] != order[j]);
        } else {
            assert(order[j] != order[i]);
        }
    }
    assert(places.no_duplicates());
    assert forall|i: int, p: int|
        0 <= i < r.len() && 0 <= p < scored.len() && !places.contains(p) implies
        #[trigger] scored[places[i]].score.key() >= #[trigger] scored[p].score.key() by {
        assert(p <= usize::MAX) by {
            lemma_places_fit(order, keys);
            assert(p < order.len());
        }
        lemma_all_listed(order, keys, p as usize);
        let q = choose|q: int| 0 <= q < order.len() && order[q] == p as usize;
        if q < r.len() {
            assert(places[q] == p);
        }
        assert(order[i] != order[q]);
        assert(crate::order::comes_before(keys, order[i], order[q]));
    }
}

/// A list of different numbers that are below its length is no longer than those numbers reach.
proof fn lemma_places_fit(order: Seq<usize>, keys: Seq<i64>)
    requires
        is_stable_order(order, keys),
    ensures
        order.len() <= usize::MAX + 1,
{
    assert forall|i: int, j: int| 0 <= i < j < order.len() implies order[i] != order[j] by {
        assert(crate::order::comes_before(keys, order[i], order[j]));
    }
    assert(order.no_duplicates());
    order.unique_seq_to_set();
    let bound = vstd::set_lib::set_int_range(0, usize::MAX + 1);
    let ints = order.to_set().map(|u: usize| u as int);
    vstd::set_lib::lemma_int_range(0, usize::MAX + 1);
    assert(vstd::relations::injective(|u: usize| u as int));
    vstd::set_lib::lemma_map_size(order.to_set(), ints, |u: usize| u as int);
    assert(ints.subset_of(bound));
    vstd::set_lib::lemma_len_subset(ints, bound);
}

/// Of photos that differ enough, the most alike is always taken, and each further one when it is no
/// closer than the limit to those taken before it, while more are asked for.
pub proof fn distant_photos_are_taken(
    order: Seq<usize>,
    count: nat,
    measure: spec_fn(usize, usize) -> Scalar,
    limit: Scalar,
    n: nat,
)
    requires
        n < order.len(),
    ensures
        count > 0 ==> taken_of(order, count, measure, limit, 1) == seq![order[0]],
        taken_of(order, count, measure, limit, n).len() <= count,
        ({
            let before = taken_of(order, count, measure, limit, n);
            let after = taken_of(order, count, measure, limit, n + 1);
            let close = exists|i: int|
                0 <= i < before.len() && measure(#[trigger] before[i], order[n as int]).lt_spec(limit);
            &&& before.len() < count && !close ==> after == before.push(order[n as int])
            &&& before.len() >= count || close ==> after == before
        }),
    decreases n,
{
    reveal_with_fuel(taken_of, 2);
    if count > 0 {
        let none = taken_of(order, count, measure, limit, 0);
        assert(none.len() == 0);
        assert(!is_near(none, order[0], measure, limit));
        assert(none.push(order[0]) == seq![order[0]]);
    }
    if n > 0 {
        distant_photos_are_taken(order, count, measure, limit, (n - 1) as nat);
    }
}

/// What `first_vector` finds stands somewhere, and nothing before it can be read.
pub proof fn the_first_readable_vector_counts(said: Seq<AnnotationView>, ns: Seq<char>)
    ensures
        first_vector(said, ns) is None <==> forall|k: int|
            0 <= k < said.len() ==> vector_of(#[trigger] said[k], ns) is None,
        first_vector(said, ns) is Some ==> exists|k: int|
            0 <= k < said.len() && vector_of(#[trigger] said[k], ns) == first_vector(said, ns)
                && forall|j: int| 0 <= j < k ==> vector_of(#[trigger] said[j], ns) is None,
    decreases said.len(),
{
    if said.len() > 0 {
        let rest = said.drop_first();
        if vector_of(said[0], ns) is Some {
            assert(vector_of(said[0], ns) == first_vector(said, ns));
        } else {
            the_first_readable_vector_counts(rest, ns);
            if first_vector(rest, ns) is Some {
                let k = choose|k: int|
                    0 <= k < rest.len() && vector_of(#[trigger] rest[k], ns) == first_vector(
                        rest,
                        ns,
                    ) && forall|j: int| 0 <= j < k ==> vector_of(#[trigger] rest[j], ns) is None;
                assert(said[k + 1] == rest[k]);
                assert forall|j: int| 0 <= j < k + 1 implies vector_of(
                    #[trigger] said[j],
                    ns,
                ) is None by {
                    if j > 0 {
                        assert(rest[j - 1] == said[j]);
                    }
                }
                assert(vector_of(said[k + 1], ns) == first_vector(said, ns));
            } else {
                assert forall|k: int| 0 <= k < said.len() implies vector_of(
                    #[trigger] said[k],
                    ns,
                ) is None by {
                    if k > 0 {
                        assert(rest[k - 1] == said[k]);
                    }
                }
            }
        }
    }
}

/// The photos that have a vector are listed by their places, in order, each once and with its own
/// vector; photos without one are not listed.
pub proof fn photos_with_vectors_are_listed(photos: Seq<Seq<AnnotationView>>, ns: Seq<char>, i: int)
    requires
        0 <= i < photos.len(),
    ensures
        first_vector(photos[i], ns) matches Some(v) ==> vectors_under(photos, ns).contains(
            (i as nat, v),
        ),
        forall|k: int|
            0 <= k < vectors_under(photos, ns).len() ==> (#[trigger] vectors_under(
                photos,
                ns,
            )[k]).0 < photos.len() && first_vector(
                photos[vectors_under(photos, ns)[k].0 as int],
                ns,
            ) == Some(vectors_under(photos, ns)[k].1),
        forall|j: int, k: int|
            0 <= j < k < vectors_under(photos, ns).len() ==> (#[trigger] vectors_under(
                photos,
                ns,
            )[j]).0 < (#[trigger] vectors_under(photos, ns)[k]).0,
    decreases photos.len(),
{
    let rest = photos.drop_last();
    let all = vectors_under(photos, ns);
    let less = vectors_under(rest, ns);
    if rest.len() > 0 {
        let j: int = if i < rest.len() {
            i
        } else {
            0
        };
        photos_with_vectors_are_listed(rest, ns, j);
    }
    assert forall|k: int| 0 <= k < all.len() implies (#[trigger] all[k]).0 < photos.len()
        && first_vector(photos[all[k].0 as int], ns) == Some(all[k].1) by {
        if k < less.len() {
            assert(all[k] == less[k]);
            assert(photos[less[k].0 as int] == rest[less[k].0 as int]);
        }
    }
    assert forall|j: int, k: int| 0 <= j < k < all.len() implies (#[trigger] all[j]).0 < (
    #[trigger] all[k]).0 by {
        assert(all[j] == less[j]);
        if k < less.len() {
            assert(all[k] == less[k]);
        }
    }
    if let Some(v) = first_vector(photos[i], ns) {
        if i < rest.len() {
            assert(rest[i] == photos[i]);
            let k = choose|k: int| 0 <= k < less.len() && less[k] == (i as nat, v);
            assert(all[k] == less[k]);
        } else {
            assert(all.last() == (i as nat, v));
        }
    }
}

/// The photos that are grouped are those whose vectors are as long as the first, in order. There
/// are at least as many of them as groups, or it is said which are too few.
pub proof fn vectors_of_one_length_are_grouped(all: Seq<(nat, Seq<Scalar>)>, k: nat, i: int)
    requires
        0 <= i < all.len(),
    ensures
        consistent(all).contains(all[i]) <==> all[i].1.len() == all[0].1.len(),
        forall|j: int|
            0 <= j < consistent(all).len() ==> all.contains(#[trigger] consistent(all)[j])
                && consistent(all)[j].1.len() == all[0].1.len(),
        all.len() >= k && consistent(all).len() >= k ==> to_group(all, k) == Ok::<
            Seq<(nat, Seq<Scalar>)>,
            ClusterError,
        >(consistent(all)),
        all.len() < k ==> to_group(all, k) == Err::<Seq<(nat, Seq<Scalar>)>, ClusterError>(
            ClusterError::TooFew(all.len() as usize),
        ),
        all.len() >= k && consistent(all).len() < k ==> to_group(all, k) == Err::<
            Seq<(nat, Seq<Scalar>)>,
            ClusterError,
        >(ClusterError::TooFewConsistent),
{
    let same = |v: (nat, Seq<Scalar>)| v.1.len() == all[0].1.len();
    assert(consistent(all) == all.filter(same));
    lemma_picked(all, same);
    if all[i].1.len() == all[0].1.len() {
        assert(same(all[i]));
        assert(all.contains(all[i]));
    } else if consistent(all).contains(all[i]) {
        let j = choose|j: int| 0 <= j < all.filter(same).len() && all.filter(same)[j] == all[i];
        assert(same(all.filter(same)[j]));
    }
}

/// Putting a photo in a group keeps everything else that is said of it; putting it in another group
/// of the same name takes it out of the first.
pub proof fn assigning_keeps_the_rest(
    said: Seq<AnnotationView>,
    ns: Seq<char>,
    id: u32,
    other: u32,
    a: AnnotationView,
)
    ensures
        with_assignment(said, ns, id).last() == (AnnotationView::ClusterAssignment {
            namespace: ns,
            cluster_id: id,
        }),
        !(a is ClusterAssignment && a->ClusterAssignment_namespace == ns) ==> (with_assignment(
            said,
            ns,
            id,
        ).contains(a) <==> said.contains(a)),
        !(a is ClusterAssignment && a->ClusterAssignment_namespace == ns) ==> with_assignment(
            said.push(a),
            ns,
            id,
        ) == with_assignment(said, ns, id).drop_last().push(a).push(
            with_assignment(said, ns, id).last(),
        ),
        with_assignment(with_assignment(said, ns, other), ns, id) == with_assignment(said, ns, id),
{
    let keeps = |x: AnnotationView| !is_assignment(x, ns);
    let after = with_assignment(said, ns, id);
    let kept = said.filter(keeps);
    lemma_picked(said, keeps);
    assert(said.push(a).filter(keeps) == if keeps(a) {
        kept.push(a)
    } else {
        kept
    }) by {
        reveal(Seq::filter);
        assert(said.push(a).drop_last() == said);
    }
    assert(after.drop_last() == kept);
    if !is_assignment(a, ns) {
        assert(keeps(a));
        if said.contains(a) {
            assert(kept.contains(a));
            let k = choose|k: int| 0 <= k < kept.len() && kept[k] == a;
            assert(after[k] == a);
        }
        if after.contains(a) {
            let k = choose|k: int| 0 <= k < after.len() && after[k] == a;
            assert(kept[k] == a);
            assert(kept.contains(a));
        }
    }
    let new = AnnotationView::ClusterAssignment { namespace: ns, cluster_id: other };
    let once = kept.push(new);
    assert(with_assignment(said, ns, other) == once);
    assert(once.filter(keeps) == kept) by {
        reveal(Seq::filter);
        assert(once.drop_last() == kept);
        assert(!keeps(new));
        lemma_filter_twice(said, keeps);
    }
}

/// What is picked out of a list is in the list, and fits.
pub proof fn lemma_picked<A>(s: Seq<A>, fits: spec_fn(A) -> bool)
    ensures
        forall|i: int|
            0 <= i < s.filter(fits).len() ==> s.contains(#[trigger] s.filter(fits)[i]) && fits(
                s.filter(fits)[i],
            ),
        forall|x: A| s.contains(x) && #[trigger] fits(x) ==> s.filter(fits).contains(x),
    decreases s.len(),
{
    reveal(Seq::filter);
    let picked = s.filter(fits);
    if s.len() > 0 {
        let rest = s.drop_last();
        let less = rest.filter(fits);
        lemma_picked(rest, fits);
        assert forall|i: int| 0 <= i < picked.len() implies s.contains(#[trigger] picked[i])
            && fits(picked[i]) by {
            if i < less.len() {
                assert(picked[i] == less[i]);
                let k = choose|k: int| 0 <= k < rest.len() && rest[k] == less[i];
                assert(s[k] == picked[i]);
            } else {
                assert(s[s.len() - 1] == picked[i]);
            }
        }
        assert forall|x: A| s.contains(x) && #[trigger] fits(x) implies picked.contains(x) by {
            let k = choose|k: int| 0 <= k < s.len() && s[k] == x;
            if k < rest.len() {
                assert(rest[k] == x);
                let j = choose|j: int| 0 <= j < less.len() && less[j] == x;
                assert(picked[j] == x);
            } else {
                assert(picked.last() == x);
            }
        }
    }
}

/// What was picked once is picked again.
proof fn lemma_filter_twice(said: Seq<AnnotationView>, keeps: spec_fn(AnnotationView) -> bool)
    ensures
        said.filter(keeps).filter(keeps) == said.filter(keeps),
    decreases said.len(),
{
    reveal(Seq::filter);
    if said.len() > 0 {
        let rest = said.drop_last();
        lemma_filter_twice(rest, keeps);
        if keeps(said.last()) {
            let once = rest.filter(keeps).push(said.last());
            assert(said.filter(keeps) == once);
            assert(once.drop_last() == rest.filter(keeps));
        }
    }
}

/// When groups are stored, each of the chosen photos is in its own group: the last thing said of it
/// is the group that was computed for it. Nothing else of it changes, and no other photo does.
pub proof fn each_photo_gets_its_own_group(
    photos: Seq<GalleryEntryView>,
    chosen: Seq<(nat, Seq<Scalar>)>,
    groups: Seq<u32>,
    ns: Seq<char>,
)
    requires
        chosen.len() == groups.len(),
        forall|i: int| 0 <= i < chosen.len() ==> (#[trigger] chosen[i]).0 < photos.len(),
        forall|i: int, j: int|
            0 <= i < j < chosen.len() ==> (#[trigger] chosen[i]).0 != (#[trigger] chosen[j]).0,
    ensures
        assigned(photos, chosen, groups, ns).len() == photos.len(),
        forall|i: int|
            0 <= i < chosen.len() ==> assigned(photos, chosen, groups, ns)[(
            #[trigger] chosen[i]).0 as int].data.annotations.last() == (
            AnnotationView::ClusterAssignment { namespace: ns, cluster_id: groups[i] }),
        forall|i: int|
            0 <= i < chosen.len() ==> {
                let was = photos[(#[trigger] chosen[i]).0 as int];
                let is = assigned(photos, chosen, groups, ns)[chosen[i].0 as int];
                &&& is.path == was.path
                &&& is.hash == was.hash
                &&& is.data.rating == was.data.rating
                &&& is.data.filters == was.data.filters
                &&& is.data.annotations == with_assignment(was.data.annotations, ns, groups[i])
            },
        forall|p: int|
            0 <= p < photos.len() && (forall|i: int|
                0 <= i < chosen.len() ==> (#[trigger] chosen[i]).0 != p) ==> #[trigger] assigned(
                photos,
                chosen,
                groups,
                ns,
            )[p] == photos[p],
    decreases chosen.len(),
{
    if chosen.len() > 0 {
        let fewer = chosen.drop_last();
        let less = groups.drop_last();
        each_photo_gets_its_own_group(photos, fewer, less, ns);
        let before = assigned(photos, fewer, less, ns);
        let after = assigned(photos, chosen, groups, ns);
        let n = chosen.len() - 1;
        let at = chosen[n].0 as int;
        assert forall|i: int| 0 <= i < fewer.len() implies (#[trigger] fewer[i]).0 != at by {
            assert(fewer[i] == chosen[i]);
        }
        assert(before[at] == photos[at]);
        assert forall|i: int| 0 <= i < chosen.len() implies {
            let was = photos[(#[trigger] chosen[i]).0 as int];
            let is = after[chosen[i].0 as int];
            &&& is.path == was.path
            &&& is.hash == was.hash
            &&& is.data.rating == was.data.rating
            &&& is.data.filters == was.data.filters
            &&& is.data.annotations == with_assignment(was.data.annotations, ns, groups[i])
        } by {
            if i < n {
                assert(fewer[i] == chosen[i]);
                assert(less[i] == groups[i]);
                assert(after[chosen[i].0 as int] == before[chosen[i].0 as int]);
            }
        }
        assert forall|p: int|
            0 <= p < photos.len() && (forall|i: int|
                0 <= i < chosen.len() ==> (#[trigger] chosen[i]).0 != p) implies #[trigger] after[p]
            == photos[p] by {
            assert(p != at);
            assert forall|i: int| 0 <= i < fewer.len() implies (#[trigger] fewer[i]).0 != p by {
                assert(fewer[i] == chosen[i]);
            }
            assert(after[p] == before[p]);
        }
    }
}

/// One more photo counts once, in its own group.
pub proof fn one_more_photo_counts_once(groups: Seq<u32>, g: u32, id: int)
    ensures
        group_size(Seq::empty(), id) == 0,
        group_size(groups.push(g), id) == group_size(groups, id) + if g == id {
            1nat
        } else {
            0
        },
{
    assert(groups.push(g).drop_last() == groups);
}

/// The next group starts from the first point at which the sum reaches what was drawn, or from the
/// last one where no sum does.
pub proof fn the_draw_falls_on_the_first(sums: Seq<Scalar>, threshold: Scalar)
    requires
        sums.len() > 0,
    ensures
        0 <= first_reaching(sums, threshold) < sums.len(),
        forall|i: int|
            0 <= i < first_reaching(sums, threshold) ==> !reaches(#[trigger] sums[i], threshold),
        first_reaching(sums, threshold) + 1 < sums.len() ==> reaches(
            sums[first_reaching(sums, threshold)],
            threshold,
        ),
    decreases sums.len(),
{
    if sums.len() > 1 && !reaches(sums[0], threshold) {
        let rest = sums.drop_first();
        the_draw_falls_on_the_first(rest, threshold);
        assert forall|i: int| 0 <= i < first_reaching(sums, threshold) implies !reaches(
            #[trigger] sums[i],
            threshold,
        ) by {
            if i > 0 {
                assert(rest[i - 1] == sums[i]);
            }
        }
    }
}

/// A sum reaches what was drawn when it is at least as large.
pub proof fn reaching_is_being_as_large(sum: Scalar, threshold: Scalar)
    requires
        !sum.is_nan_spec(),
        !threshold.is_nan_spec(),
    ensures
        reaches(sum, threshold) <==> sum.units() >= threshold.units(),
{
}

/// Each point is in the group of a centre that no other centre is nearer than, and in the end in
/// the group of a centre that no other is more alike.
pub proof fn points_go_to_the_nearest(
    points: Seq<Seq<Scalar>>,
    centres: Seq<Seq<Scalar>>,
    measure: spec_fn(Seq<Scalar>, Seq<Scalar>) -> Scalar,
    i: int,
    c: int,
)
    requires
        0 <= i < points.len(),
        0 <= c < centres.len() <= u32::MAX,
        forall|d: int|
            0 <= d < centres.len() ==> !(measure(points[i], #[trigger] centres[d])).is_nan_spec(),
    ensures
        nearest_to(points, centres, measure)[i] < centres.len(),
        measure(points[i], centres[nearest_to(points, centres, measure)[i] as int]).units()
            <= measure(points[i], centres[c]).units(),
        most_alike_to(points, centres, measure)[i] < centres.len(),
        measure(points[i], centres[most_alike_to(points, centres, measure)[i] as int]).units()
            >= measure(points[i], centres[c]).units(),
{
    let row = crate::cluster::row_of(points[i], centres, measure);
    let n = centres.len() as int;
    assert forall|d: int| 0 <= d < n implies !(#[trigger] row[d]).is_nan_spec() by {
        assert(row[d] == measure(points[i], centres[d]));
    }
    lemma_extremes_in_range(row, n);
    extremes_are_extreme(row, n);
    assert(row[c] == measure(points[i], centres[c]));
}

/// Of what was measured between each point and each group, the smallest decides on the group while
/// grouping goes on, the first of several; in the end the largest likeness decides, the last of
/// several.
pub proof fn the_measured_extreme_decides(table: Seq<Vec<Scalar>>, i: int, c: int)
    requires
        0 <= i < table.len(),
        0 <= c < table[i]@.len() <= u32::MAX,
        forall|d: int| 0 <= d < table[i]@.len() ==> !(#[trigger] table[i]@[d]).is_nan_spec(),
    ensures
        nearest_groups(table).len() == table.len(),
        most_alike_groups(table).len() == table.len(),
        ({
            let row = table[i]@;
            let near = nearest_groups(table)[i] as int;
            let alike = most_alike_groups(table)[i] as int;
            &&& 0 <= near < row.len()
            &&& row[near].units() <= row[c].units()
            &&& c < near ==> row[near].units() < row[c].units()
            &&& 0 <= alike < row.len()
            &&& row[alike].units() >= row[c].units()
            &&& c > alike ==> row[alike].units() > row[c].units()
        }),
{
    let row = table[i]@;
    lemma_extremes_in_range(row, row.len() as int);
    extremes_are_extreme(row, row.len() as int);
}

/// Grouping starts from as many centres as groups, all of them points: the first by a hash of the
/// first point, each other one at the first point where the sums reach what was drawn for it.
pub proof fn groups_start_from_points(points: Seq<Seq<Scalar>>, geometry: Geometry, n: nat)
    requires
        points.len() > 0,
    ensures
        starts(points, geometry, n).len() == n,
        starts(points, geometry, 1)[0] == points[(seahash_of(bytes_of(points[0])) as usize) as int
            % points.len() as int],
        n > 0 ==> starts(points, geometry, n + 1).drop_last() == starts(points, geometry, n),
        n > 0 ==> ({
            let before = starts(points, geometry, n);
            let sums = (geometry.sums)(points, before);
            let drawn = seahash_of(seq![(n % 256) as u8]);
            starts(points, geometry, n + 1).last() == points[first_reaching(
                sums,
                (geometry.threshold)(drawn, sums),
            )]
        }),
    decreases n,
{
    reveal_with_fuel(starts, 2);
    if n > 0 {
        groups_start_from_points(points, geometry, (n - 1) as nat);
    }
}

/// In each round the points go to the nearest centres and the centres to the middles of their
/// groups. Grouping is settled when the centres move by less than a hundred-millionth, or after
/// three hundred rounds.
pub proof fn rounds_move_points_then_centres(
    points: Seq<Seq<Scalar>>,
    k: nat,
    geometry: Geometry,
    n: nat,
)
    ensures
        stage_after(points, k, geometry, 0).centres == starts(points, geometry, k),
        !stage_after(points, k, geometry, 0).settled,
        stage_after(points, k, geometry, n).round == n,
        ({
            let before = stage_after(points, k, geometry, n);
            let after = stage_after(points, k, geometry, n + 1);
            &&& after.groups == nearest_to(points, before.centres, geometry.distance)
            &&& after.centres == (geometry.middles)(points, after.groups, before.centres)
            &&& after.settled <==> n + 1 == 300 || (geometry.movement)(
                before.centres,
                after.centres,
            ).lt_spec(Scalar { bits: 0x322b_cc77 })
        }),
    decreases n,
{
    if n > 0 {
        rounds_move_points_then_centres(points, k, geometry, (n - 1) as nat);
    }
}

/// Grouping ends with the first stage that is settled, and then each point is in the group of the
/// centre that it is most alike in direction.
pub proof fn grouping_ends_when_settled(
    points: Seq<Seq<Scalar>>,
    k: nat,
    geometry: Geometry,
    n: nat,
)
    requires
        stage_after(points, k, geometry, n).settled,
        forall|m: nat| m < n ==> !(#[trigger] stage_after(points, k, geometry, m)).settled,
        n <= 300,
    ensures
        final_groups(points, k, geometry) == most_alike_to(
            points,
            (geometry.directions)(stage_after(points, k, geometry, n).centres),
            geometry.likeness,
        ),
{
    lemma_settles(points, k, geometry, 0, n);
}

proof fn lemma_settles(
    points: Seq<Seq<Scalar>>,
    k: nat,
    geometry: Geometry,
    from: nat,
    n: nat,
)
    requires
        from <= n <= 300,
        stage_after(points, k, geometry, n).settled,
        forall|m: nat| m < n ==> !(#[trigger] stage_after(points, k, geometry, m)).settled,
    ensures
        settled_stage(points, k, geometry, from) == stage_after(points, k, geometry, n),
    decreases n - from,
{
    if from < n {
        assert(!stage_after(points, k, geometry, from).settled);
        lemma_settles(points, k, geometry, from + 1, n);
    }
}

/// What is said of the photos of a gallery is taken photo by photo, in order, and so is what is
/// said of those shown.
pub proof fn annotations_are_taken_in_order(
    photos: Seq<GalleryEntryView>,
    entries: Seq<EntryView>,
    i: int,
)
    requires
        0 <= i < photos.len(),
        0 <= i < entries.len(),
    ensures
        annotations_of(photos).len() == photos.len(),
        annotations_of(photos)[i] == photos[i].data.annotations,
        said_of(entries).len() == entries.len(),
        said_of(entries)[i] == entries[i].data.annotations,
{
}

/// A photo is too close when its distance from one of those taken is below the limit.
pub proof fn one_close_photo_is_enough(distances: Seq<Scalar>, limit: Scalar, d: Scalar)
    ensures
        !too_close(Seq::empty(), limit),
        too_close(distances.push(d), limit) <==> too_close(distances, limit) || d.lt_spec(limit),
{
    let more = distances.push(d);
    if too_close(distances, limit) {
        let i = choose|i: int| 0 <= i < distances.len() && (#[trigger] distances[i]).lt_spec(limit);
        assert(more[i] == distances[i]);
    }
    if d.lt_spec(limit) {
        assert(more[distances.len() as int] == d);
    }
    if too_close(more, limit) {
        let i = choose|i: int| 0 <= i < more.len() && (#[trigger] more[i]).lt_spec(limit);
        if i < distances.len() {
            assert(distances[i] == more[i]);
        }
    }
}

/// A round leaves the groups as they are. It is the last when the centres moved by less than a
/// hundred-millionth, or when it is the three hundredth.
pub proof fn rounds_are_counted(run: GroupRun, movement: Scalar)
    requires
        run.wf(),
        !run.settled,
    ensures
        run.after_move(movement).groups@ == run.groups@,
        run.after_move(movement).k == run.k,
        run.after_move(movement).round == run.round + 1,
        run.after_move(movement).settled <==> run.round == 299 || movement.lt_spec(
            Scalar { bits: 0x322b_cc77 },
        ),
{
}

/// Photos are considered one after the other, until enough are taken or none is left.
pub proof fn photos_are_considered_in_turn(run: DiverseRun)
    ensures
        run.next_place() is None <==> run.taken@.len() >= run.count || run.at >= run.order@.len(),
        run.next_place() matches Some(p) ==> run.at < run.order@.len() && p == run.order@[run.at as int],
{
}

/// A word asks for a group when it is `cluster:` and a number, however that is written; every other
/// word asks for none.
pub proof fn words_ask_for_groups(digits: Seq<char>, word: Seq<char>)
    requires
        all_digits(digits),
        digits.len() > 0,
        digits_value(digits) <= u32::MAX,
        !begins_with(word, "cluster:"@),
    ensures
        group_asked("cluster:"@ + digits) == Some(digits_value(digits) as u32),
        group_asked("cluster:"@ + seq!['+'] + digits) == Some(digits_value(digits) as u32),
        group_asked("cluster:"@) is None,
        group_asked(word) is None,
{
    let w = "cluster:"@ + digits;
    let p = "cluster:"@ + seq!['+'] + digits;
    let n = "cluster:"@.len() as int;
    digits_count_by_tens(digits, 0, ' ');
    assert(w.take(n) == "cluster:"@);
    assert(w.skip(n) == digits);
    assert(p.take(n) == "cluster:"@);
    assert(p.skip(n) == seq!['+'] + digits);
    assert("cluster:"@.take(n) == "cluster:"@);
    assert("cluster:"@.skip(n) == Seq::<char>::empty());
}

/// What was taken stands in the order of likeness: an earlier one was considered before a later
/// one, and all were considered.
pub proof fn taken_photos_keep_their_order(run: DiverseRun, i: int, j: int)
    requires
        run.wf(),
        0 <= i < j < run.taken@.len(),
    ensures
        exists|p: int, q: int|
            0 <= p < q < run.at && #[trigger] run.order@[p] == run.taken@[i]
                && #[trigger] run.order@[q] == run.taken@[j],
        run.taken@.len() <= run.count,
        run.taken@[i] != run.taken@[j],
{
    let places = choose|places: Seq<int>| #[trigger]
        rise_below(places, run.at as int) && run.taken@ == Seq::new(
            places.len(),
            |k: int| run.order@[places[k]],
        );
    assert(places[i] < places[j]);
    assert(run.order@[places[i]] == run.taken@[i]);
    assert(run.order@[places[j]] == run.taken@[j]);
}

} // verus!
