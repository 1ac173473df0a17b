//! Presets, notes, vectors to be computed, and the panels around the photos.
use crate::actions::ActionContext;
use crate::app::{
    effective_modifiers, first_named, first_place_of, has_preset, photo_in_focus, place_of, pooled,
    pressed, refiltered, with_edit_presets, GalerieApp, KeyOutcome, SimilarState, SourceView,
};
use crate::binding::ActionView;
use crate::collection::{gallery_at, is_loaded, lemma_gallery_at};
use crate::config::{Key, KeyCombo};
use crate::editing::{error_text, filter_is_added, filter_is_taken_out, reannotated};
use crate::embed::{
    are_batches, batch_command, batch_len, batch_start, embedding_of, has_embedding, is_embedding,
    line_vector, line_vectors, numbers_in, pending_photos, vector_in, vectors_in, with_paths,
    with_vector, with_vectors, EmbedError,
};
use crate::filters::FilterView;
use crate::gallery::{
    base64_bytes, base64_text, bytes_of, numbers_of, AnnotationView, GalleryEntryView, GalleryView,
    PresetView,
};
use crate::laws::keeping::one_gallery_changes;
use crate::laws::searching::lemma_picked;
use crate::overlay::{star_text, stars_of, OverlayState};
use crate::panels::{
    background_advances, membership_flips, shown_for, shows_instead, similar_is_changed,
};
use crate::scalar::Scalar;
use crate::search::shown_by;
use crate::sidebar::{
    expanded, first_of, keeps_presets, moved_up, physical, pool_without, preset_target, presets_in,
    stays_open, uses_preset, with_filters, without_named,
};
use crate::text::{filled_lines_of, trimmed, words_of};
use vstd::prelude::*;
use vstd::utf8::{decode_utf8, valid_utf8};

verus! {

/// When a row is taken out, the rows above it stay where they are, and those below it move up by
/// one.
pub proof fn rows_below_move_up(open: Set<usize>, removed: usize, row: usize)
    ensures
        row < removed ==> moved_up(row, removed) == row && (stays_open(open, removed, row)
            <==> open.contains(row)),
        removed <= row < usize::MAX ==> moved_up((row + 1) as usize, removed) == row && (stays_open(
            open,
            removed,
            row,
        ) <==> open.contains((row + 1) as usize)),
{
}

/// A name stands for the first preset that bears it.
pub proof fn the_first_preset_of_a_name_counts(
    pool: Seq<(PresetView, SourceView)>,
    name: Seq<char>,
)
    requires
        has_preset(pool, name),
    ensures
        0 <= first_named(pool, name) < pool.len(),
        pool[first_named(pool, name)].0.name == name,
        forall|i: int| 0 <= i < first_named(pool, name) ==> (#[trigger] pool[i]).0.name != name,
    decreases pool.len(),
{
    if pool[0].0.name != name {
        let rest = pool.drop_first();
        let i = choose|i: int| 0 <= i < pool.len() && (#[trigger] pool[i]).0.name == name;
        assert(rest[i - 1].0.name == name);
        the_first_preset_of_a_name_counts(rest, name);
        assert forall|i: int| 0 <= i < first_named(pool, name) implies (#[trigger] pool[i]).0.name
            != name by {
            if i > 0 {
                assert(rest[i - 1] == pool[i]);
            }
        }
    }
}

/// In a stack as it is shown, a preset stands for its filters, where it stood; one that is not at
/// hand stands for nothing, and every other filter for itself.
pub proof fn presets_stand_for_their_filters(
    stack: Seq<FilterView>,
    pool: Seq<(PresetView, SourceView)>,
    f: FilterView,
    name: Seq<char>,
    i: int,
)
    requires
        0 <= i < pool.len(),
        pool[i].0.name == name,
        forall|k: int| 0 <= k < i ==> (#[trigger] pool[k]).0.name != name,
    ensures
        expanded(Seq::empty(), pool).len() == 0,
        expanded(stack.push(FilterView::Preset { name }), pool) == expanded(stack, pool)
            + pool[i].0.filters,
        !(f is Preset) ==> expanded(stack.push(f), pool) == expanded(stack, pool).push(f),
        f is Preset && !has_preset(pool, f->name) ==> expanded(stack.push(f), pool) == expanded(
            stack,
            pool,
        ),
{
    assert(stack.push(f).drop_last() == stack);
    assert(stack.push(FilterView::Preset { name }).drop_last() == stack);
    assert(pool[i].0.name == name);
    the_first_preset_of_a_name_counts(pool, name);
    let at = first_named(pool, name);
    if at < i {
        assert(pool[at].0.name != name);
    }
}

/// A stack uses a preset when it names it.
pub proof fn presets_are_used_by_name(stack: Seq<FilterView>, name: Seq<char>)
    ensures
        uses_preset(stack, name) <==> exists|i: int|
            0 <= i < stack.len() && (#[trigger] stack[i]) is Preset && stack[i]->name == name,
{
    if uses_preset(stack, name) {
        let i = choose|i: int| 0 <= i < stack.len() && stack[i] == (FilterView::Preset { name });
        assert(stack[i] is Preset && stack[i]->name == name);
    }
    if exists|i: int| 0 <= i < stack.len() && (#[trigger] stack[i]) is Preset && stack[i]->name == name {
        let i = choose|i: int|
            0 <= i < stack.len() && (#[trigger] stack[i]) is Preset && stack[i]->name == name;
        assert(stack[i] == (FilterView::Preset { name }));
    }
}

/// The presets of the open files come first, as they are. A preset of an edited gallery comes after
/// them, unless its name is taken.
pub proof fn taken_names_are_passed_over(
    pool: Seq<(PresetView, SourceView)>,
    presets: Seq<PresetView>,
    p: PresetView,
    index: usize,
    open: Seq<(PresetView, Seq<char>)>,
    i: int,
)
    requires
        0 <= i < open.len(),
    ensures
        pooled(open, Seq::empty()).len() == open.len(),
        pooled(open, Seq::empty())[i] == (open[i].0, SourceView::Collection(open[i].1)),
        with_edit_presets(pool, Seq::empty(), index) == pool,
        ({
            let before = with_edit_presets(pool, presets, index);
            let after = with_edit_presets(pool, presets.push(p), index);
            let taken = exists|k: int| 0 <= k < before.len() && (#[trigger] before[k]).0.name == p.name;
            &&& taken ==> after == before
            &&& !taken ==> after == before.push((p, SourceView::EditGallery(index)))
        }),
{
    assert(presets.push(p).drop_last() == presets);
}

/// The edited galleries give their presets one after the other, each under its own number.
pub proof fn edited_galleries_are_numbered(
    open: Seq<(PresetView, Seq<char>)>,
    edited: Seq<Seq<PresetView>>,
    more: Seq<PresetView>,
)
    ensures
        pooled(open, edited.push(more)) == with_edit_presets(
            pooled(open, edited),
            more,
            edited.len() as usize,
        ),
{
    assert(edited.push(more).drop_last() == edited);
}

/// Giving a preset other filters changes the first one of its name, and no other.
pub proof fn one_preset_gets_the_filters(
    presets: Seq<PresetView>,
    name: Seq<char>,
    filters: Seq<FilterView>,
    i: int,
)
    requires
        0 <= i < presets.len(),
    ensures
        with_filters(presets, name, filters).len() == presets.len(),
        with_filters(presets, name, filters)[i].name == presets[i].name,
        ({
            let is_first = presets[i].name == name && forall|k: int|
                0 <= k < i ==> (#[trigger] presets[k]).name != name;
            &&& is_first ==> with_filters(presets, name, filters)[i].filters == filters
            &&& !is_first ==> with_filters(presets, name, filters)[i] == presets[i]
        }),
{
    lemma_first_of_name(presets, name);
    let at = first_of(presets, name);
    if i < at {
        assert(presets[i].name != name);
    }
    if at < i {
        assert(presets[at].name == name);
    }
}

proof fn lemma_first_of_name(presets: Seq<PresetView>, name: Seq<char>)
    ensures
        0 <= first_of(presets, name) <= presets.len(),
        first_of(presets, name) < presets.len() ==> presets[first_of(presets, name)].name == name,
        forall|i: int| 0 <= i < first_of(presets, name) ==> (#[trigger] presets[i]).name != name,
    decreases presets.len(),
{
    if presets.len() > 0 && presets[0].name != name {
        let rest = presets.drop_first();
        lemma_first_of_name(rest, name);
        let at = first_of(presets, name);
        if at < presets.len() {
            assert(rest[at - 1] == presets[at]);
        }
        assert forall|i: int| 0 <= i < at implies (#[trigger] presets[i]).name != name by {
            if i > 0 {
                assert(rest[i - 1] == presets[i]);
            }
        }
    }
}

/// Deleting a preset takes away those of its name and keeps the others, in order.
pub proof fn presets_are_deleted_by_name(presets: Seq<PresetView>, name: Seq<char>, p: PresetView)
    ensures
        without_named(presets, name).contains(p) <==> presets.contains(p) && p.name != name,
        p.name != name ==> without_named(presets.push(p), name) == without_named(presets, name).push(
            p,
        ),
        p.name == name ==> without_named(presets.push(p), name) == without_named(presets, name),
{
    let others = |x: PresetView| x.name != name;
    let after = presets.filter(others);
    lemma_picked(presets, others);
    if presets.contains(p) && p.name != name {
        assert(others(p));
    }
    if after.contains(p) {
        let i = choose|i: int| 0 <= i < after.len() && after[i] == p;
        assert(others(presets.filter(others)[i]));
    }
    assert(presets.push(p).filter(others) == if others(p) {
        after.push(p)
    } else {
        after
    }) by {
        reveal(Seq::filter);
        assert(presets.push(p).drop_last() == presets);
    }
}

/// A preset that is saved replaces those of its name among the presets at hand, and only those.
pub proof fn saved_presets_replace_their_name(
    pool: Seq<(PresetView, SourceView)>,
    name: Seq<char>,
    e: (PresetView, SourceView),
)
    ensures
        e.0.name != name ==> pool_without(pool.push(e), name) == pool_without(pool, name).push(e),
        e.0.name == name ==> pool_without(pool.push(e), name) == pool_without(pool, name),
        pool_without(Seq::empty(), name).len() == 0,
{
    let others = |x: (PresetView, SourceView)| x.0.name != name;
    assert(pool.push(e).filter(others) == if others(e) {
        pool.filter(others).push(e)
    } else {
        pool.filter(others)
    }) by {
        reveal(Seq::filter);
        assert(pool.push(e).drop_last() == pool);
    }
    reveal(Seq::filter);
}

/// A preset that is saved holds the filters of the stack in order, but for presets among them.
pub proof fn presets_hold_no_presets(stack: Seq<FilterView>, f: FilterView)
    ensures
        physical(Seq::empty()).len() == 0,
        f is Preset ==> physical(stack.push(f)) == physical(stack),
        !(f is Preset) ==> physical(stack.push(f)) == physical(stack).push(f),
{
    reveal(Seq::filter);
    assert(stack.push(f).drop_last() == stack);
}

/// A preset is saved in the open gallery file if there is exactly one, else in the first edited
/// gallery, else nowhere.
pub proof fn presets_are_saved_in_the_only_file(a: GalerieApp)
    ensures
        a.cx.collection.galleries().len() == 1 ==> preset_target(a) == Some(
            SourceView::Collection(a.cx.collection.galleries()[0].0),
        ),
        a.cx.collection.galleries().len() != 1 && a.edit_galleries@.len() > 0 ==> preset_target(a)
            == Some(SourceView::EditGallery(0)),
        a.cx.collection.galleries().len() != 1 && a.edit_galleries@.len() == 0 ==> preset_target(a)
            is None,
{
}

/// A note that is added comes last; an annotation that is taken away is the one that was asked for;
/// the others stay in order.
pub proof fn notes_are_added_last(
    said: Seq<AnnotationView>,
    at: usize,
    text: Seq<char>,
    i: int,
)
    requires
        at < said.len(),
        0 <= i < said.len() - 1,
    ensures
        reannotated(said, None, None) == said,
        reannotated(said, None, Some(text)) == said.push(AnnotationView::Note { text }),
        reannotated(said, Some(at), None).len() == said.len() - 1,
        reannotated(said, Some(at), None)[i] == if i < at {
            said[i]
        } else {
            said[i + 1]
        },
        reannotated(said, Some(at), Some(text)) == reannotated(said, Some(at), None).push(
            AnnotationView::Note { text },
        ),
{
}

/// An error is told with what failed in front of it; where nothing failed nothing is told.
pub proof fn errors_are_told(prefix: Seq<char>, e: String)
    ensures
        error_text(prefix, Some(e)) == Some(prefix + e@),
        error_text(prefix, None) == None::<Seq<char>>,
{
}

/// A photo is to be given a vector if it has none under the name, or if all are: exactly those
/// photos are listed, in order.
pub proof fn photos_without_vectors_are_pending(
    photos: Seq<GalleryEntryView>,
    ns: Seq<char>,
    force: bool,
    i: int,
)
    requires
        photos.len() <= usize::MAX,
        0 <= i < photos.len(),
    ensures
        pending_photos(photos, ns, force).contains(i as usize) <==> force || forall|k: int|
            0 <= k < photos[i].data.annotations.len() ==> !((
            #[trigger] photos[i].data.annotations[k]) is Embedding
                && photos[i].data.annotations[k]->Embedding_namespace == ns),
        forall|j: int|
            0 <= j < pending_photos(photos, ns, force).len() ==> #[trigger] pending_photos(
                photos,
                ns,
                force,
            )[j] < photos.len(),
        forall|j: int, k: int|
            0 <= j < k < pending_photos(photos, ns, force).len() ==> #[trigger] pending_photos(
                photos,
                ns,
                force,
            )[j] < #[trigger] pending_photos(photos, ns, force)[k],
    decreases photos.len(),
{
    let rest = photos.drop_last();
    let all = pending_photos(photos, ns, force);
    let less = pending_photos(rest, ns, force);
    if rest.len() > 0 {
        let j: int = if i < rest.len() {
            i
        } else {
            0
        };
        photos_without_vectors_are_pending(rest, ns, force, j);
    }
    let last = (photos.len() - 1) as usize;
    assert forall|j: int| 0 <= j < all.len() implies #[trigger] all[j] < photos.len() by {
        if j < less.len() {
            assert(all[j] == less[j]);
        }
    }
    assert forall|j: int, k: int| 0 <= j < k < all.len() implies #[trigger] all[j]
        < #[trigger] all[k] by {
        assert(all[j] == less[j]);
        if k < less.len() {
            assert(all[k] == less[k]);
        }
    }
    let said = photos[i].data.annotations;
    assert(!has_embedding(said, ns) <==> forall|k: int|
        0 <= k < said.len() ==> !((#[trigger] said[k]) is Embedding
            && said[k]->Embedding_namespace == ns)) by {
        if !has_embedding(said, ns) {
            assert forall|k: int| 0 <= k < said.len() implies !((#[trigger] said[k]) is Embedding
                && said[k]->Embedding_namespace == ns) by {
                assert(!is_embedding(said[k], ns));
            }
        }
    }
    if i < rest.len() {
        assert(rest[i] == photos[i]);
        if less.contains(i as usize) {
            let k = choose|k: int| 0 <= k < less.len() && less[k] == i as usize;
            assert(all[k] == i as usize);
        }
        if all.contains(i as usize) {
            let k = choose|k: int| 0 <= k < all.len() && all[k] == i as usize;
            assert(k < less.len());
            assert(less[k] == i as usize);
        }
    } else {
        if all.contains(last) {
            let k = choose|k: int| 0 <= k < all.len() && all[k] == last;
            if k < less.len() {
                assert(less[k] == last);
            }
        }
        if force || !has_embedding(said, ns) {
            assert(all.last() == last);
        }
    }
}

/// Batches are as large as asked, and at least of one photo, but for the last, which holds what is
/// left.
pub proof fn batches_are_full(batches: Seq<Vec<usize>>, all: Seq<usize>, size: usize, i: int)
    requires
        are_batches(batches, all, batch_len(size)),
        0 <= i,
        i + 1 < batches.len(),
    ensures
        size > 0 ==> batches[i]@.len() == size,
        size == 0 ==> batches[i]@.len() == 1,
        forall|k: int|
            0 <= k < batches[i]@.len() ==> batches[i]@[k] == #[trigger] all[i * batch_len(size) + k],
{
    let n = batch_len(size);
    let len = all.len() as int;
    let next = batches[i + 1]@;
    assert(next.len() > 0);
    assert(next == all.subrange(batch_start(i + 1, n, len), batch_start(i + 2, n, len)));
    assert((i + 1) * n == i * n + n) by (nonlinear_arith);
    assert((i + 2) * n == (i + 1) * n + n) by (nonlinear_arith);
    assert(i * n >= 0) by (nonlinear_arith)
        requires
            i >= 0,
            n >= 1,
    ;
    assert(batch_start(i + 1, n, len) < len);
    assert((i + 1) * n < len);
    assert(batches[i]@ == all.subrange(i * n, (i + 1) * n));
}

/// The command for several photos names its program first and is handed every path: where the
/// template asks for them, or else at the end.
pub proof fn commands_get_all_paths(
    words: Seq<Seq<char>>,
    paths: Seq<Seq<char>>,
    w: Seq<char>,
    template: Seq<char>,
)
    ensures
        with_paths(Seq::empty(), paths).len() == 0,
        with_paths(words.push("%p"@), paths) == with_paths(words, paths) + paths,
        w != "%p"@ ==> with_paths(words.push(w), paths) == with_paths(words, paths).push(w),
        words_of(template).len() == 0 ==> batch_command(template, paths).len() == 0,
        words_of(template).len() > 0 ==> {
            let all = words_of(template);
            let command = batch_command(template, paths);
            &&& command[0] == all[0]
            &&& all.drop_first().contains("%p"@) ==> command.drop_first() == with_paths(
                all.drop_first(),
                paths,
            )
            &&& !all.drop_first().contains("%p"@) ==> command == all + paths
        },
{
    assert(words.push("%p"@).drop_last() == words);
    assert(words.push(w).drop_last() == words);
    let all = words_of(template);
    if all.len() > 0 {
        let rest = all.drop_first();
        let command = batch_command(template, paths);
        if rest.contains("%p"@) {
            assert(command.drop_first() =~= with_paths(rest, paths));
        } else {
            lemma_plain_words(rest, paths);
            assert(command =~= all + paths);
        }
    }
}

/// Words that do not ask for the paths stay.
proof fn lemma_plain_words(words: Seq<Seq<char>>, paths: Seq<Seq<char>>)
    requires
        !words.contains("%p"@),
    ensures
        with_paths(words, paths) == words,
    decreases words.len(),
{
    if words.len() > 0 {
        let less = words.drop_last();
        assert(words[words.len() - 1] != "%p"@);
        assert(!less.contains("%p"@)) by {
            if less.contains("%p"@) {
                let k = choose|k: int| 0 <= k < less.len() && less[k] == "%p"@;
                assert(words[k] == "%p"@);
            }
        }
        lemma_plain_words(less, paths);
        assert(less.push(words.last()) == words);
    }
}

/// The bytes of a vector are some, and four to a number; else it is said what is wrong with them.
pub proof fn vectors_hold_whole_numbers(bytes: Seq<u8>)
    ensures
        bytes.len() == 0 ==> numbers_in(bytes) == Err::<Seq<Scalar>, EmbedError>(EmbedError::Empty),
        bytes.len() > 0 && bytes.len() % 4 != 0 ==> numbers_in(bytes) == Err::<
            Seq<Scalar>,
            EmbedError,
        >(EmbedError::OddLength(bytes.len() as usize)),
        bytes.len() > 0 && bytes.len() % 4 == 0 ==> numbers_in(bytes) == Ok::<
            Seq<Scalar>,
            EmbedError,
        >(numbers_of(bytes)),
{
}

/// The output for several photos holds as many lines as photos, and gives one vector for each, in
/// order.
pub proof fn outputs_give_one_vector_a_line(stdout: Seq<u8>, expected: nat, i: int)
    requires
        vectors_in(stdout, expected) is Ok,
        0 <= i < expected,
    ensures
        valid_utf8(stdout),
        filled_lines_of(decode_utf8(stdout)).len() == expected,
        vectors_in(stdout, expected)->Ok_0.len() == expected,
        line_vector(filled_lines_of(decode_utf8(stdout))[i], (i + 1) as nat) == Ok::<
            Seq<Scalar>,
            EmbedError,
        >(vectors_in(stdout, expected)->Ok_0[i]),
{
    lemma_lines(filled_lines_of(decode_utf8(stdout)), i);
}

proof fn lemma_lines(lines: Seq<Seq<char>>, i: int)
    requires
        line_vectors(lines) is Ok,
    ensures
        line_vectors(lines)->Ok_0.len() == lines.len(),
        0 <= i < lines.len() ==> line_vector(lines[i], (i + 1) as nat) == Ok::<
            Seq<Scalar>,
            EmbedError,
        >(line_vectors(lines)->Ok_0[i]),
    decreases lines.len(),
{
    if lines.len() > 0 {
        lemma_lines(lines.drop_last(), i);
    }
}

/// A vector that is kept replaces any other under its name; everything else that is said of the
/// photo stays, in order.
pub proof fn one_vector_under_a_name(
    said: Seq<AnnotationView>,
    ns: Seq<char>,
    vector: Seq<Scalar>,
    a: AnnotationView,
)
    ensures
        ({
            let after = with_vector(said, ns, embedding_of(ns, vector));
            &&& after.last() == (AnnotationView::Embedding {
                namespace: ns,
                data: base64_text(bytes_of(vector)),
            })
            &&& forall|i: int|
                0 <= i < after.len() - 1 ==> !((#[trigger] after[i]) is Embedding
                    && after[i]->Embedding_namespace == ns)
            &&& !(a is Embedding && a->Embedding_namespace == ns) ==> with_vector(
                said.push(a),
                ns,
                embedding_of(ns, vector),
            ) == after.drop_last().push(a).push(after.last())
        }),
{
    let keeps = |x: AnnotationView| !is_embedding(x, ns);
    let kept = said.filter(keeps);
    let after = with_vector(said, ns, embedding_of(ns, vector));
    lemma_picked(said, keeps);
    assert(after.drop_last() == kept);
    assert forall|i: int| 0 <= i < after.len() - 1 implies !((#[trigger] after[i]) is Embedding
        && after[i]->Embedding_namespace == ns) by {
        assert(after[i] == kept[i]);
        assert(keeps(said.filter(keeps)[i]));
    }
    assert(said.push(a).filter(keeps) == if keeps(a) {
        kept.push(a)
    } else {
        kept
    }) by {
        reveal(Seq::filter);
        assert(said.push(a).drop_last() == said);
    }
}

/// When the vectors of a batch are stored, each photo of the batch gets its own, and nothing else
/// of it changes; no other photo does.
pub proof fn each_photo_gets_its_own_vector(
    photos: Seq<GalleryEntryView>,
    batch: Seq<usize>,
    vectors: Seq<Seq<Scalar>>,
    ns: Seq<char>,
)
    requires
        batch.len() <= vectors.len(),
        forall|i: int| 0 <= i < batch.len() ==> #[trigger] batch[i] < photos.len(),
        forall|i: int, j: int| 0 <= i < j < batch.len() ==> #[trigger] batch[i] != #[trigger] batch[j],
    ensures
        with_vectors(photos, batch, vectors, ns).len() == photos.len(),
        forall|i: int|
            0 <= i < batch.len() ==> {
                let was = photos[#[trigger] batch[i] as int];
                let is = with_vectors(photos, batch, vectors, ns)[batch[i] as int];
                &&& is.path == was.path
                &&& is.hash == was.hash
                &&& is.data.rating == was.data.rating
                &&& is.data.filters == was.data.filters
                &&& is.data.annotations.last() == (AnnotationView::Embedding {
                    namespace: ns,
                    data: base64_text(bytes_of(vectors[i])),
                })
                &&& is.data.annotations == with_vector(
                    was.data.annotations,
                    ns,
                    embedding_of(ns, vectors[i]),
                )
            },
        forall|p: int|
            0 <= p < photos.len() && (forall|i: int| 0 <= i < batch.len() ==> #[trigger] batch[i] != p)
                ==> #[trigger] with_vectors(photos, batch, vectors, ns)[p] == photos[p],
    decreases batch.len(),
{
    if batch.len() > 0 {
        let fewer = batch.drop_last();
        each_photo_gets_its_own_vector(photos, fewer, vectors, ns);
        let before = with_vectors(photos, fewer, vectors, ns);
        let after = with_vectors(photos, batch, vectors, ns);
        let n = batch.len() - 1;
        let at = batch[n] as int;
        assert forall|i: int| 0 <= i < fewer.len() implies #[trigger] fewer[i] != at by {
            assert(fewer[i] == batch[i]);
        }
        assert(before[at] == photos[at]);
        assert forall|i: int| 0 <= i < batch.len() implies {
            let was = photos[#[trigger] batch[i] as int];
            let is = after[batch[i] as int];
            &&& is.path == was.path
            &&& is.hash == was.hash
            &&& is.data.rating == was.data.rating
            &&& is.data.filters == was.data.filters
            &&& is.data.annotations.last() == (AnnotationView::Embedding {
                namespace: ns,
                data: base64_text(bytes_of(vectors[i])),
            })
            &&& is.data.annotations == with_vector(
                was.data.annotations,
                ns,
                embedding_of(ns, vectors[i]),
            )
        } by {
            if i < n {
                assert(fewer[i] == batch[i]);
                assert(after[batch[i] as int] == before[batch[i] as int]);
            }
        }
        assert forall|p: int|
            0 <= p < photos.len() && (forall|i: int|
                0 <= i < batch.len() ==> #[trigger] batch[i] != p) implies #[trigger] after[p]
            == photos[p] by {
            assert(p != at);
            assert forall|i: int| 0 <= i < fewer.len() implies #[trigger] fewer[i] != p by {
                assert(fewer[i] == batch[i]);
            }
            assert(after[p] == before[p]);
        }
    }
}

/// A message is there for three seconds from the moment it was said, and then gone.
pub proof fn messages_last_three_seconds(o: OverlayState, now: u64)
    requires
        o.toast is Some,
    ensures
        ({
            let born = o.toast->0.born_at;
            &&& now <= born ==> o.remaining(now) == Some(3_000_000_000u64)
            &&& born <= now < born + 3_000_000_000 ==> (o.remaining(now) matches Some(left) && now
                + left == born + 3_000_000_000)
            &&& now >= born + 3_000_000_000 ==> o.remaining(now) is None
        }),
{
}

/// A message that is said is the one that is shown, from now on; nothing else on the photo changes.
pub proof fn messages_are_shown(a: OverlayState, b: OverlayState, text: Seq<char>, now: u64)
    requires
        b.says(a, text, now),
    ensures
        b.message() == Some(text),
        b.toast is Some,
        b.toast->0.message@ == text,
        b.toast->0.born_at == now,
        b.remaining(now) == Some(3_000_000_000u64),
        b.show_filename == a.show_filename,
        b.show_rating == a.show_rating,
{
}

/// A photo has as many stars as its rating, from one to five.
pub proof fn stars_are_counted(rating: u8, i: int)
    requires
        1 <= rating <= 5,
        0 <= i < rating,
    ensures
        stars_of(rating) == rating,
        star_text(stars_of(rating)).len() == rating,
        star_text(stars_of(rating))[i] == '★',
        stars_of(0) == 1,
        rating < 5 ==> stars_of((rating + 5) as u8) == 5,
{
    reveal_strlit("★");
    reveal_strlit("★★");
    reveal_strlit("★★★");
    reveal_strlit("★★★★");
    reveal_strlit("★★★★★");
}

/// A photo has been shown since the slideshow last moved; a clock that went back counts as no time.
pub proof fn slideshows_count_from_the_last_move(state: crate::actions::AppState, now: u64)
    ensures
        now >= state.slideshow_last_at ==> shown_for(state, now) == now - state.slideshow_last_at,
        now < state.slideshow_last_at ==> shown_for(state, now) == 0,
{
}

/// After a search the photos that it finds are shown. The photo that was in focus stays there if it
/// is found; else the first one found comes into focus.
pub proof fn searches_keep_or_reset_the_focus(
    a: ActionContext,
    b: ActionContext,
    query: Seq<char>,
)
    requires
        a.wf(),
        refiltered(a, b, query),
        b.display@.len() > 0,
    ensures
        b.display@ == shown_by(a.collection.photos(), query),
        a.viewer.focus() < a.display@.len() && !b.display@.contains(a.display@[a.viewer.focus()])
            ==> place_of(b.display@, photo_in_focus(a)) == 0 && b.viewer == a.viewer.refocused(0),
        a.display@.len() == 0 ==> b.viewer == a.viewer.refocused(0),
        b.collection == a.collection,
        b.app_state == a.app_state,
        b.cache == a.cache,
{
}

/// Shift does not matter for the plus key, which cannot be typed without it on many keyboards;
/// every other key is taken with exactly the keys that are held down.
pub proof fn plus_is_typed_with_shift(key: Key, ctrl: bool, shift: bool, alt: bool)
    ensures
        effective_modifiers(key, ctrl, shift, alt).ctrl == ctrl,
        effective_modifiers(key, ctrl, shift, alt).alt == alt,
        key != Key::Plus ==> effective_modifiers(key, ctrl, shift, alt).shift == shift,
        !effective_modifiers(Key::Plus, ctrl, shift, alt).shift,
{
}

/// While the list of galleries is open, keys move its cursor within the list, choose a gallery for
/// the photo, or close the list; they do nothing else.
pub proof fn the_list_takes_the_keys(
    a: GalerieApp,
    key: Key,
    ctrl: bool,
    shift: bool,
    alt: bool,
    b: GalerieApp,
    outcome: KeyOutcome,
)
    requires
        a.gallery_selector_open,
        pressed(a, key, ctrl, shift, alt, b, outcome),
    ensures
        b.cx == a.cx,
        key == Key::ArrowUp || key == Key::K ==> b.gallery_selector_cursor == if (
        a.gallery_selector_cursor > 0) {
            a.gallery_selector_cursor - 1
        } else {
            0
        },
        key == Key::ArrowDown || key == Key::J ==> b.gallery_selector_cursor == if (
        a.gallery_selector_cursor + 1 < a.edit_galleries@.len()) {
            a.gallery_selector_cursor + 1
        } else {
            a.gallery_selector_cursor as int
        },
        b.gallery_selector_open <==> key != Key::T && key != Key::Escape,
        outcome is Nothing || outcome == (KeyOutcome::ToggleMembership {
            gallery: a.gallery_selector_cursor,
            announce: false,
        }),
        (key == Key::Space || key == Key::Enter) && a.cx.display@.len() > 0
            && a.gallery_selector_cursor < a.edit_galleries@.len() ==> outcome is ToggleMembership,
        outcome is ToggleMembership ==> key == Key::Space || key == Key::Enter,
{
    assert(a.edit_galleries@.len() == a.edit_galleries.len());
}

/// Escape leaves one thing at a time: first the annotations, then the full screen, then the search
/// in the grid.
pub proof fn escape_leaves_one_thing_at_a_time(
    a: GalerieApp,
    ctrl: bool,
    shift: bool,
    alt: bool,
    b: GalerieApp,
    outcome: KeyOutcome,
)
    requires
        !a.gallery_selector_open,
        pressed(a, Key::Escape, ctrl, shift, alt, b, outcome),
    ensures
        a.cx.app_state.show_annotations ==> outcome is Nothing && !b.cx.app_state.show_annotations
            && b.cx.app_state.is_fullscreen == a.cx.app_state.is_fullscreen && b.search_query
            == a.search_query,
        !a.cx.app_state.show_annotations && a.cx.app_state.is_fullscreen ==> outcome is Nothing
            && !b.cx.app_state.is_fullscreen && b.cx.app_state.fullscreen_pending == Some(false)
            && b.search_query == a.search_query,
        !a.cx.app_state.show_annotations && !a.cx.app_state.is_fullscreen && a.cx.viewer is Tiling
            && a.cx.display@.len() < a.cx.collection.photos().len() ==> outcome is Nothing
            && b.search_query@.len() == 0 && b.similar_state is None && b.cx.display@ == shown_by(
            a.cx.collection.photos(),
            b.search_query@,
        ),
{
}

/// The key for galleries puts the photo into the only edited gallery, or out of it, and opens the
/// list where there are several.
pub proof fn the_gallery_key_asks_where_needed(
    a: GalerieApp,
    shift: bool,
    b: GalerieApp,
    outcome: KeyOutcome,
)
    requires
        !a.gallery_selector_open,
        a.edit_galleries@.len() > 0,
        pressed(a, Key::T, false, shift, false, b, outcome),
    ensures
        a.cx.display@.len() == 0 ==> outcome is Nothing && b == a,
        a.cx.display@.len() > 0 && a.edit_galleries@.len() == 1 ==> b == a && outcome == (
        KeyOutcome::ToggleMembership { gallery: 0, announce: true }),
        a.cx.display@.len() > 0 && a.edit_galleries@.len() > 1 ==> outcome is Nothing
            && b.gallery_selector_open && b.gallery_selector_cursor == 0,
{
}

/// A key that is bound to an action runs that action; one that is bound to nothing does nothing.
pub proof fn bound_keys_run_their_action(
    a: GalerieApp,
    key: Key,
    ctrl: bool,
    shift: bool,
    alt: bool,
    b: GalerieApp,
    outcome: KeyOutcome,
    i: int,
)
    requires
        !a.gallery_selector_open,
        key != Key::Escape,
        key != Key::T,
        a.keybindings.wf(),
        pressed(a, key, ctrl, shift, alt, b, outcome),
    ensures
        ({
            let combo = KeyCombo { key, modifiers: effective_modifiers(key, ctrl, shift, alt) };
            let bound = a.keybindings.actions();
            &&& 0 <= i < bound.len() && bound[i].0 == combo ==> {
                let action = bound[i].1;
                &&& action is ToggleAnnotations ==> outcome is Nothing
                    && b.cx.app_state.show_annotations != a.cx.app_state.show_annotations
                &&& action is CycleBackground ==> outcome is CycleBackground && b == a
                &&& action is FindSimilar ==> b == a && (outcome matches KeyOutcome::FindSimilar {
                    namespace,
                    count,
                } && namespace@ == action->FindSimilar_namespace && count
                    == action->FindSimilar_count)
                &&& action is FindSimilarDiverse ==> b == a && (
                outcome matches KeyOutcome::FindSimilarDiverse { namespace, count, threshold }
                    && namespace@ == action->FindSimilarDiverse_namespace && count
                    == action->FindSimilarDiverse_count && threshold == action->threshold)
                &&& !(action is ToggleAnnotations || action is CycleBackground || action is FindSimilar
                    || action is FindSimilarDiverse) ==> b == a && (outcome matches KeyOutcome::Run(
                    run,
                ) && run.deep_view() == action)
            }
            &&& (forall|k: int| 0 <= k < bound.len() ==> (#[trigger] bound[k]).0 != combo) ==> outcome
                is Nothing && b == a
        }),
{
    let combo = KeyCombo { key, modifiers: effective_modifiers(key, ctrl, shift, alt) };
    let bound = a.keybindings.actions();
    if 0 <= i < bound.len() && bound[i].0 == combo {
        assert(crate::config::is_bound(bound, combo));
        let action = choose|action: ActionView|
            bound.contains((combo, action)) && #[trigger] crate::app::does(a, action, b, outcome);
        let k = choose|k: int| 0 <= k < bound.len() && bound[k] == (combo, action);
        if k < i {
            assert(bound[k].0 != bound[i].0);
        } else if i < k {
            assert(bound[i].0 != bound[k].0);
        }
        assert(bound[i].1 == action);
    }
}

/// Presets that are kept in a gallery are read back from it, and no other gallery has others than
/// before. The gallery is to be written if it is at hand.
#[verifier::spinoff_prover]
pub proof fn kept_presets_are_read_back(
    a: GalerieApp,
    b: GalerieApp,
    source: SourceView,
    presets: Seq<PresetView>,
    save: Option<SourceView>,
    other: SourceView,
)
    requires
        a.wf(),
        b.wf(),
        keeps_presets(a, b, source, presets, save),
        other != source,
    ensures
        save is Some ==> save == Some(source) && presets_in(b, source) == presets,
        save is None ==> presets_in(b, source) == presets_in(a, source),
        presets_in(b, other) == presets_in(a, other),
        b.cx.collection.photos() == a.cx.collection.photos(),
        source is Collection ==> (save is Some <==> exists|i: int|
            0 <= i < a.cx.collection.galleries().len() && (
            #[trigger] a.cx.collection.galleries()[i]).0 == source->Collection_0),
        source is EditGallery ==> (save is Some <==> source->EditGallery_0 < a.edit_galleries@.len()),
{
    let gs = a.cx.collection.galleries();
    let hs = b.cx.collection.galleries();
    if let SourceView::Collection(path) = source {
        let g = GalleryView { presets, ..gallery_at(gs, path) };
        if is_loaded(gs, path) {
            let i = choose|i: int| 0 <= i < gs.len() && (#[trigger] gs[i]).0 == path;
            one_gallery_changes(gs, path, g, i);
            assert(hs[i].0 == path);
        } else {
            assert(hs =~= gs);
        }
        if let SourceView::Collection(p) = other {
            if is_loaded(gs, p) {
                let i = choose|i: int| 0 <= i < gs.len() && (#[trigger] gs[i]).0 == p;
                one_gallery_changes(gs, path, g, i);
                assert(hs[i] == gs[i]);
                lemma_gallery_at(hs, p, i);
                lemma_gallery_at(gs, p, i);
            } else {
                if is_loaded(hs, p) {
                    let i = choose|i: int| 0 <= i < hs.len() && (#[trigger] hs[i]).0 == p;
                    assert(gs[i].0 == p);
                }
            }
        }
    }
}

/// Photos that are alike are shown in place of others in a grid, from the first one on, and what is
/// shown is said. The photos, the state and the search stay.
pub proof fn likeness_is_shown_from_the_start(
    a: GalerieApp,
    b: GalerieApp,
    display: Seq<usize>,
    text: Seq<char>,
    now: u64,
)
    requires
        shows_instead(a, b, display, text, now),
    ensures
        b.cx.display@ == display,
        b.cx.viewer is Tiling,
        b.cx.viewer.focus() == 0,
        b.cx.viewer->Tiling_0.cols * b.cx.viewer->Tiling_0.cols >= a.cx.tile_count,
        b.cx.overlay.message() == Some(text),
        b.cx.collection == a.cx.collection,
        b.cx.app_state == a.cx.app_state,
        b.search_query == a.search_query,
{
    let s = b.cx.viewer->Tiling_0;
    assert(s.page * s.tiles() + s.selected == 0) by {
        assert(0 * s.tiles() == 0) by (nonlinear_arith);
    }
}

/// The output for one photo is read as text where it is readable text, and else as plain bytes.
pub proof fn outputs_are_text_or_bytes(stdout: Seq<u8>)
    ensures
        !valid_utf8(stdout) ==> vector_in(stdout) == numbers_in(stdout),
        valid_utf8(stdout) && trimmed(decode_utf8(stdout)).len() > 0 ==> (base64_bytes(
            trimmed(decode_utf8(stdout)),
        ) matches Some(bytes) ==> vector_in(stdout) == numbers_in(bytes)),
        valid_utf8(stdout) && base64_bytes(trimmed(decode_utf8(stdout))) is None ==> vector_in(stdout)
            == numbers_in(stdout),
        valid_utf8(stdout) && trimmed(decode_utf8(stdout)).len() == 0 ==> vector_in(stdout)
            == numbers_in(stdout),
{
}

/// The output for several photos has to be text, with one readable vector on each of as many lines
/// as photos; what is wrong is told.
pub proof fn bad_outputs_are_told(stdout: Seq<u8>, expected: nat, lines: Seq<Seq<char>>, line: Seq<char>)
    ensures
        !valid_utf8(stdout) ==> vectors_in(stdout, expected) == Err::<Seq<Seq<Scalar>>, EmbedError>(
            EmbedError::NotText,
        ),
        valid_utf8(stdout) && filled_lines_of(decode_utf8(stdout)).len() != expected ==> vectors_in(
            stdout,
            expected,
        ) == Err::<Seq<Seq<Scalar>>, EmbedError>(
            EmbedError::WrongNumberOfLines {
                expected: expected as usize,
                got: filled_lines_of(decode_utf8(stdout)).len() as usize,
            },
        ),
        line_vectors(lines) is Ok && base64_bytes(line) is None ==> line_vectors(lines.push(line))
            == Err::<Seq<Seq<Scalar>>, EmbedError>(
            EmbedError::BadLine((lines.len() + 1) as usize),
        ),
        line_vectors(lines) is Err ==> line_vectors(lines.push(line)) == line_vectors(lines),
        line_vectors(lines) is Ok && (base64_bytes(line) matches Some(bytes) && numbers_in(bytes)
            is Ok) ==> line_vectors(lines.push(line)) == Ok::<Seq<Seq<Scalar>>, EmbedError>(
            line_vectors(lines)->Ok_0.push(numbers_in(base64_bytes(line)->0)->Ok_0),
        ),
{
    assert(lines.push(line).drop_last() == lines);
}

/// A photo that is taken into a gallery and then out of it, or out and in, leaves the members as
/// they were, and the second time the opposite is told.
pub proof fn membership_flips_back(
    a: GalerieApp,
    b: GalerieApp,
    c: GalerieApp,
    gallery: int,
    first: bool,
    second: bool,
)
    requires
        0 <= gallery < a.edit_galleries@.len(),
        membership_flips(a, b, gallery, first),
        membership_flips(b, c, gallery, second),
    ensures
        second == !first,
        c.edit_galleries@[gallery].members() == a.edit_galleries@[gallery].members(),
        forall|i: int|
            0 <= i < a.edit_galleries@.len() && i != gallery ==> #[trigger] c.edit_galleries@[i]
                == a.edit_galleries@[i],
{
    let was = a.edit_galleries@[gallery].members();
    let mid = b.edit_galleries@[gallery].members();
    let is = c.edit_galleries@[gallery].members();
    let path = a.cx.collection.photos()[a.cx.display@[a.cx.viewer.focus()] as int].path;
    assert forall|p: Seq<char>| is.contains(p) == was.contains(p) by {
        if p != path {
            assert(mid.contains(p) == was.contains(p));
        }
    }
    assert(is =~= was);
    assert forall|i: int| 0 <= i < a.edit_galleries@.len() && i != gallery implies
        #[trigger] c.edit_galleries@[i] == a.edit_galleries@[i] by {
        assert(b.edit_galleries@[i] == a.edit_galleries@[i]);
    }
}

/// Three changes of the background come back to the first, and the open gallery file then holds it.
pub proof fn three_backgrounds_come_round(
    a: ActionContext,
    b: ActionContext,
    c: ActionContext,
    d: ActionContext,
    s: Option<Seq<char>>,
    t: Option<Seq<char>>,
    u: Option<Seq<char>>,
)
    requires
        background_advances(a, b, s),
        background_advances(b, c, t),
        background_advances(c, d, u),
    ensures
        d.app_state.background_color == a.app_state.background_color,
        b.app_state.background_color != a.app_state.background_color,
        c.app_state.background_color != a.app_state.background_color,
        a.collection.galleries().len() == 1 ==> d.collection.galleries()[0].1.background_color
            == Some(a.app_state.background_color) && u == Some(a.collection.galleries()[0].0),
        d.collection.photos() == a.collection.photos(),
{
}

/// A search for photos that are alike can be changed in its number and its distance; of two changes
/// the later one counts.
pub proof fn later_changes_of_likeness_count(
    was: Option<SimilarState>,
    mid: Option<SimilarState>,
    is: Option<SimilarState>,
    m: usize,
    n: usize,
    s: Option<Scalar>,
    t: Option<Scalar>,
)
    requires
        similar_is_changed(was, mid, m, s),
        similar_is_changed(mid, is, n, t),
        was is Some,
    ensures
        is is Some,
        is->0.count == n,
        is->0.query_ci == was->0.query_ci,
        is->0.namespace == was->0.namespace,
        was->0.threshold is None ==> is->0.threshold is None,
        was->0.threshold is Some && t is Some ==> is->0.threshold == t,
        was->0.threshold is Some && t is None && s is Some ==> is->0.threshold == s,
{
}

/// A filter that is added and taken out again leaves the list and its open rows as they were.
pub proof fn added_filters_can_be_taken_out(
    was: Seq<FilterView>,
    mid: Seq<FilterView>,
    is: Seq<FilterView>,
    open: Set<usize>,
    mid_open: Set<usize>,
    now_open: Set<usize>,
    filter: FilterView,
    row: usize,
)
    requires
        was.len() < usize::MAX,
        filter_is_added(was, mid, open, mid_open, filter),
        filter_is_taken_out(mid, is, mid_open, now_open, was.len() as usize),
        row < was.len(),
    ensures
        is == was,
        now_open.contains(row) <==> open.contains(row),
        mid_open.contains(was.len() as usize),
        mid.last() == filter,
{
    assert forall|k: int| 0 <= k < was.len() implies is[k] == was[k] by {
        assert(now_open.contains(k as usize) <==> mid_open.contains(k as usize));
        assert(mid_open.contains(k as usize) <==> open.contains(k as usize));
    }
    assert(is =~= was);
    assert(now_open.contains(row) <==> mid_open.contains(row));
    assert(mid_open.contains(row) <==> open.contains(row));
}

/// When a filter is taken out, every other filter is still there, with its row as open as before.
pub proof fn rows_stay_with_their_filters(
    was: Seq<FilterView>,
    is: Seq<FilterView>,
    open: Set<usize>,
    now_open: Set<usize>,
    index: usize,
    row: usize,
)
    requires
        index < was.len() <= usize::MAX,
        filter_is_taken_out(was, is, open, now_open, index),
        row < was.len(),
        row != index,
    ensures
        ({
            let place = if row < index {
                row
            } else {
                (row - 1) as usize
            };
            is[place as int] == was[row as int] && (now_open.contains(place) <==> open.contains(row))
        }),
{
    if row < index {
        assert(now_open.contains(row) <==> open.contains(row));
    } else {
        let place = (row - 1) as usize;
        assert(now_open.contains(place) <==> open.contains((place + 1) as usize));
    }
}

/// The place of a photo among those shown is the first at which it stands; a photo that is not
/// shown, or none, has the first place of all.
pub proof fn photos_are_placed_first(display: Seq<usize>, p: usize, i: int)
    requires
        0 <= i < display.len(),
        display[i] == p,
    ensures
        0 <= place_of(display, Some(p)) <= i,
        display[place_of(display, Some(p))] == p,
        forall|k: int| 0 <= k < place_of(display, Some(p)) ==> #[trigger] display[k] != p,
        place_of(display, None) == 0,
{
    assert(display.contains(p));
    lemma_placed_first(display, p, i);
}

proof fn lemma_placed_first(display: Seq<usize>, p: usize, i: int)
    requires
        0 <= i < display.len(),
        display[i] == p,
    ensures
        0 <= first_place_of(display, p) <= i,
        display[first_place_of(display, p)] == p,
        forall|k: int| 0 <= k < first_place_of(display, p) ==> #[trigger] display[k] != p,
    decreases display.len(),
{
    if display[0] != p {
        let rest = display.drop_first();
        lemma_placed_first(rest, p, i - 1);
        let at = first_place_of(display, p);
        assert(rest[at - 1] == display[at]);
        assert forall|k: int| 0 <= k < at implies #[trigger] display[k] != p by {
            if k > 0 {
                assert(rest[k - 1] == display[k]);
            }
        }
    }
}

} // verus!
