//! Having a command compute vectors of photos, and keeping these.
use crate::gallery::{
    base64_bytes, base64_decode, bytes_to_numbers, first_vector, may_encode, numbers_of, vector_of,
    Annotation, AnnotationView, DataView, GalleryEntry, GalleryEntryView,
};
use crate::filters::Filter;
use crate::scalar::Scalar;
use crate::text::{self, decimal_text, filled_lines_of, replaced, trimmed, words_of};
use vstd::prelude::*;
use vstd::utf8::{decode_utf8, valid_utf8};

verus! {

broadcast use vstd::string::group_string_axioms;

/// What to compute vectors of, and how.
#[derive(Debug)]
pub struct EmbedConfig {
    pub namespace: String,
    /// The command, with `%p` for the paths of the photos.
    pub command_template: String,
    /// How many photos the command gets at once.
    pub batch_size: usize,
    /// Whether photos that have a vector get a new one.
    pub force: bool,
    /// What is done to a photo before the command gets it.
    pub filters: Vec<Filter>,
    pub galerie_path: String,
    /// How many threads prepare photos.
    pub concurrency: usize,
    /// How many batches are prepared ahead.
    pub prefetch_batches: usize,
}

/// Why the output of a command holds no vectors.
#[derive(Debug, Clone, Copy, PartialEq, Eq, Structural)]
pub enum EmbedError {
    NotText,
    WrongNumberOfLines { expected: usize, got: usize },
    /// The line of this number is not in base 64.
    BadLine(usize),
    Empty,
    /// So many bytes are not a number of numbers.
    OddLength(usize),
}

/// The annotation holds a vector of `ns`.
pub open spec fn is_embedding(a: AnnotationView, ns: Seq<char>) -> bool {
    a matches AnnotationView::Embedding { namespace, .. } && namespace == ns
}

/// One of the annotations holds a vector of `ns`.
pub open spec fn has_embedding(annotations: Seq<AnnotationView>, ns: Seq<char>) -> bool {
    exists|i: int| 0 <= i < annotations.len() && is_embedding(#[trigger] annotations[i], ns)
}

fn holds_embedding(a: &Annotation, ns: &str) -> (b: bool)
    ensures
        b == is_embedding(a.deep_view(), ns@),
{
    match a {
        Annotation::Embedding { namespace, .. } => text::same(namespace.as_str(), ns),
        _ => false,
    }
}

fn any_embedding(annotations: &Vec<Annotation>, ns: &str) -> (b: bool)
    ensures
        b == has_embedding(annotations.deep_view(), ns@),
{
    let ghost all = annotations.deep_view();
    let mut i: usize = 0;
    while i < annotations.len()
        invariant
            i <= annotations@.len(),
            all == annotations.deep_view(),
            forall|k: int| 0 <= k < i ==> !is_embedding(#[trigger] all[k], ns@),
        decreases annotations@.len() - i,
    {
        assert(all[i as int] == annotations@[i as int].deep_view());
        if holds_embedding(&annotations[i], ns) {
            return true;
        }
        i += 1;
    }
    false
}

/// The places of the photos to compute a vector of: those without one, or all.
pub open spec fn pending_photos(photos: Seq<GalleryEntryView>, ns: Seq<char>, force: bool) -> Seq<usize>
    decreases photos.len(),
{
    if photos.len() == 0 {
        Seq::empty()
    } else {
        let before = pending_photos(photos.drop_last(), ns, force);
        if force || !has_embedding(photos.last().data.annotations, ns) {
            before.push((photos.len() - 1) as usize)
        } else {
            before
        }
    }
}

/// The places of the photos to compute a vector of.
pub fn pending(photos: &Vec<GalleryEntry>, ns: &str, force: bool) -> (r: Vec<usize>)
    ensures
        r@ == pending_photos(photos.deep_view(), ns@, force),
        forall|i: int| 0 <= i < r@.len() ==> #[trigger] r@[i] < photos@.len(),
{
    let ghost all = photos.deep_view();
    let mut r: Vec<usize> = Vec::new();
    let mut i: usize = 0;
    while i < photos.len()
        invariant
            i <= photos@.len(),
            all == photos.deep_view(),
            r@ == pending_photos(all.take(i as int), ns@, force),
            forall|k: int| 0 <= k < r@.len() ==> #[trigger] r@[k] < i,
        decreases photos@.len() - i,
    {
        assert(all.take(i + 1).drop_last() == all.take(i as int));
        assert(all.take(i + 1).last() == photos@[i as int].deep_view());
        if force || !any_embedding(&photos[i].annotations, ns) {
            r.push(i);
        }
        i += 1;
    }
    assert(all.take(i as int) == all);
    r
}

/// The size that batches have: at least one photo.
pub open spec fn batch_len(size: usize) -> int {
    if size >= 1 {
        size as int
    } else {
        1
    }
}

/// The place of the first item of batch `i`, or the end where there are fewer items.
pub open spec fn batch_start(i: int, size: int, len: int) -> int {
    if i * size <= len {
        i * size
    } else {
        len
    }
}

/// `batches` are the runs of `size` items of `all`, of which the last may be shorter.
pub open spec fn are_batches(batches: Seq<Vec<usize>>, all: Seq<usize>, size: int) -> bool {
    &&& forall|i: int|
        0 <= i < batches.len() ==> (#[trigger] batches[i])@ == all.subrange(
            batch_start(i, size, all.len() as int),
            batch_start(i + 1, size, all.len() as int),
        ) && batches[i]@.len() > 0
    &&& batch_start(batches.len() as int, size, all.len() as int) == all.len()
}

/// The photos in batches of `size`.
pub fn batches(pending: &Vec<usize>, size: usize) -> (r: Vec<Vec<usize>>)
    ensures
        are_batches(r@, pending@, batch_len(size)),
{
    let size = if size >= 1 {
        size
    } else {
        1
    };
    let n = pending.len();
    let mut r: Vec<Vec<usize>> = Vec::new();
    let mut at: usize = 0;
    proof {
        assert(0 * size as int == 0);
    }
    while at < n
        invariant
            n == pending@.len(),
            size >= 1,
            at <= n,
            at == batch_start(r@.len() as int, size as int, n as int),
            forall|i: int|
                0 <= i < r@.len() ==> (#[trigger] r@[i])@ == pending@.subrange(
                    batch_start(i, size as int, n as int),
                    batch_start(i + 1, size as int, n as int),
                ) && r@[i]@.len() > 0,
        decreases n - at,
    {
        let left = n - at;
        let take = if size <= left {
            size
        } else {
            left
        };
        let mut batch: Vec<usize> = Vec::new();
        let mut j: usize = 0;
        while j < take
            invariant
                at + take <= n == pending@.len(),
                j <= take,
                batch@ == pending@.subrange(at as int, at + j),
            decreases take - j,
        {
            batch.push(pending[at + j]);
            assert(batch@ =~= pending@.subrange(at as int, at + j + 1));
            j += 1;
        }
        proof {
            let count = r@.len() as int;
            assert((count + 1) * size == count * size + size) by (nonlinear_arith);
            assert(at + take == batch_start(count + 1, size as int, n as int));
        }
        r.push(batch);
        at = at + take;
    }
    r
}

/// The first `n` batches one after the other.
pub open spec fn batched(batches: Seq<Vec<usize>>, n: int) -> Seq<usize>
    decreases n,
{
    if n <= 0 {
        Seq::empty()
    } else {
        batched(batches, n - 1) + batches[n - 1]@
    }
}

/// No photo is lost or doubled when photos are put in batches.
pub proof fn batches_hold_everything(batches: Seq<Vec<usize>>, all: Seq<usize>, size: int)
    requires
        size >= 1,
        are_batches(batches, all, size),
    ensures
        batched(batches, batches.len() as int) == all,
        forall|i: int| 0 <= i < batches.len() ==> 1 <= (#[trigger] batches[i])@.len() <= size,
{
    let len = all.len() as int;
    lemma_batched(batches, all, size, batches.len() as int);
    assert(all.take(len) == all);
    assert forall|i: int| 0 <= i < batches.len() implies 1 <= (#[trigger] batches[i])@.len()
        <= size by {
        lemma_batch_start(i, size, len);
    }
}

proof fn lemma_batch_start(i: int, size: int, len: int)
    requires
        0 <= i,
        size >= 1,
        0 <= len,
    ensures
        0 <= batch_start(i, size, len) <= batch_start(i + 1, size, len) <= len,
        batch_start(i + 1, size, len) <= batch_start(i, size, len) + size,
{
    assert((i + 1) * size == i * size + size) by (nonlinear_arith);
    assert(0 <= i * size) by (nonlinear_arith)
        requires
            0 <= i,
            size >= 1,
    ;
}

proof fn lemma_batched(batches: Seq<Vec<usize>>, all: Seq<usize>, size: int, n: int)
    requires
        size >= 1,
        are_batches(batches, all, size),
        0 <= n <= batches.len(),
    ensures
        batched(batches, n) == all.take(batch_start(n, size, all.len() as int)),
    decreases n,
{
    let len = all.len() as int;
    if n > 0 {
        lemma_batched(batches, all, size, n - 1);
        lemma_batch_start(n - 1, size, len);
        let from = batch_start(n - 1, size, len);
        let to = batch_start(n, size, len);
        assert(batches[n - 1]@ == all.subrange(from, to));
        assert(all.take(from) + all.subrange(from, to) =~= all.take(to));
    } else {
        assert(0 * size == 0);
        assert(all.take(0) =~= Seq::empty());
    }
}

/// The command for one photo, in words.
pub fn single_command(template: &str, path: &str) -> (r: Vec<String>)
    ensures
        r.deep_view() == words_of(replaced(template@, "%p"@, path@)),
{
    proof {
        reveal_strlit("%p");
    }
    let s = text::replace(template, "%p", path);
    text::words(s.as_str())
}

/// The words with each `%p` replaced by the paths.
pub open spec fn with_paths(words: Seq<Seq<char>>, paths: Seq<Seq<char>>) -> Seq<Seq<char>>
    decreases words.len(),
{
    if words.len() == 0 {
        Seq::empty()
    } else if words.last() == "%p"@ {
        with_paths(words.drop_last(), paths) + paths
    } else {
        with_paths(words.drop_last(), paths).push(words.last())
    }
}

/// The program and the arguments of the command for several photos. The paths stand where the
/// template says `%p`, or at the end. A template without words names no program.
pub open spec fn batch_command(template: Seq<char>, paths: Seq<Seq<char>>) -> Seq<Seq<char>> {
    let words = words_of(template);
    if words.len() == 0 {
        Seq::empty()
    } else {
        let rest = words.drop_first();
        seq![words[0]] + with_paths(rest, paths) + if rest.contains("%p"@) {
            Seq::empty()
        } else {
            paths
        }
    }
}

fn push_all(list: &mut Vec<String>, more: &Vec<String>)
    ensures
        final(list).deep_view() == old(list).deep_view() + more.deep_view(),
{
    let ghost first = list.deep_view();
    let mut i: usize = 0;
    assert(first + more.deep_view().take(0) =~= first);
    while i < more.len()
        invariant
            i <= more@.len(),
            list.deep_view() == first + more.deep_view().take(i as int),
        decreases more@.len() - i,
    {
        let ghost before = list.deep_view();
        list.push(more[i].clone());
        assert(list.deep_view() =~= before.push(more@[i as int]@));
        assert(list.deep_view() =~= first + more.deep_view().take(i + 1));
        i += 1;
    }
    assert(more.deep_view().take(i as int) == more.deep_view());
}

/// The program and the arguments of the command for several photos; nothing where the template names
/// no program.
pub fn build_batch_args(template: &str, paths: &Vec<String>) -> (r: Vec<String>)
    ensures
        r.deep_view() == batch_command(template@, paths.deep_view()),
{
    let words = text::words(template);
    let ghost w = words.deep_view();
    let mut r: Vec<String> = Vec::new();
    if words.len() == 0 {
        assert(r.deep_view() =~= Seq::empty());
        return r;
    }
    r.push(words[0].clone());
    let ghost rest = w.drop_first();
    let ghost p = paths.deep_view();
    let mut found = false;
    let mut i: usize = 1;
    assert(r.deep_view() =~= seq![w[0]] + with_paths(rest.take(0), p));
    while i < words.len()
        invariant
            1 <= i <= words@.len(),
            w == words.deep_view(),
            rest == w.drop_first(),
            p == paths.deep_view(),
            r.deep_view() == seq![w[0]] + with_paths(rest.take(i - 1), p),
            found == rest.take(i - 1).contains("%p"@),
        decreases words@.len() - i,
    {
        let ghost before = r.deep_view();
        let ghost upto = rest.take(i as int);
        proof {
            assert(upto.drop_last() == rest.take(i - 1));
            assert(upto.last() == words@[i as int]@);
            lemma_contains_more(rest, i - 1, "%p"@);
        }
        if text::same(words[i].as_str(), "%p") {
            found = true;
            push_all(&mut r, paths);
        } else {
            r.push(words[i].clone());
            assert(r.deep_view() =~= before.push(words@[i as int]@));
        }
        assert(r.deep_view() =~= seq![w[0]] + with_paths(upto, p));
        i += 1;
    }
    assert(rest.take(i - 1) == rest);
    if !found {
        push_all(&mut r, paths);
    }
    assert(r.deep_view() =~= batch_command(template@, p));
    r
}

proof fn lemma_contains_more(s: Seq<Seq<char>>, n: int, x: Seq<char>)
    requires
        0 <= n < s.len(),
    ensures
        s.take(n + 1).contains(x) == (s.take(n).contains(x) || s[n] == x),
{
    let less = s.take(n);
    let more = s.take(n + 1);
    if less.contains(x) {
        let i = choose|i: int| 0 <= i < less.len() && less[i] == x;
        assert(more[i] == x);
    }
    if s[n] == x {
        assert(more[n] == x);
    }
    if more.contains(x) && s[n] != x {
        let i = choose|i: int| 0 <= i < more.len() && more[i] == x;
        assert(less[i] == x);
    }
}

/// The numbers that bytes stand for, or why they stand for none.
pub open spec fn numbers_in(bytes: Seq<u8>) -> Result<Seq<Scalar>, EmbedError> {
    if bytes.len() == 0 {
        Err(EmbedError::Empty)
    } else if bytes.len() % 4 != 0 {
        Err(EmbedError::OddLength(bytes.len() as usize))
    } else {
        Ok(numbers_of(bytes))
    }
}

/// The contents of a list of numbers, or the error in their place.
pub open spec fn numbers_outcome(r: Result<Vec<Scalar>, EmbedError>) -> Result<
    Seq<Scalar>,
    EmbedError,
> {
    match r {
        Ok(v) => Ok(v@),
        Err(e) => Err(e),
    }
}

/// The contents of a list of lists of numbers, or the error in their place.
pub open spec fn vectors_outcome(r: Result<Vec<Vec<Scalar>>, EmbedError>) -> Result<
    Seq<Seq<Scalar>>,
    EmbedError,
> {
    match r {
        Ok(v) => Ok(v@.map_values(|x: Vec<Scalar>| x@)),
        Err(e) => Err(e),
    }
}

/// The numbers that bytes stand for.
pub fn bytes_to_floats(bytes: &Vec<u8>) -> (r: Result<Vec<Scalar>, EmbedError>)
    ensures
        numbers_outcome(r) == numbers_in(bytes@),
{
    if bytes.len() == 0 {
        return Err(EmbedError::Empty);
    }
    if bytes.len() % 4 != 0 {
        return Err(EmbedError::OddLength(bytes.len()));
    }
    Ok(bytes_to_numbers(bytes))
}

/// The vector in the output of the command for one photo: in base 64, or else as bytes.
pub open spec fn vector_in(stdout: Seq<u8>) -> Result<Seq<Scalar>, EmbedError> {
    if valid_utf8(stdout) && trimmed(decode_utf8(stdout)).len() > 0 && base64_bytes(
        trimmed(decode_utf8(stdout)),
    ) is Some {
        numbers_in(base64_bytes(trimmed(decode_utf8(stdout)))->0)
    } else {
        numbers_in(stdout)
    }
}

/// The vector in the output of the command for one photo.
pub fn parse_floats_from_stdout(stdout: &Vec<u8>) -> (r: Result<Vec<Scalar>, EmbedError>)
    ensures
        numbers_outcome(r) == vector_in(stdout@),
{
    if let Some(s) = text::from_utf8(stdout) {
        let t = text::trim(s.as_str());
        if text::to_chars(t.as_str()).len() > 0 {
            if let Some(bytes) = base64_decode(t.as_str()) {
                return bytes_to_floats(&bytes);
            }
        }
    }
    bytes_to_floats(stdout)
}

/// The vector in a line of this number.
pub open spec fn line_vector(line: Seq<char>, number: nat) -> Result<Seq<Scalar>, EmbedError> {
    match base64_bytes(line) {
        Some(bytes) => numbers_in(bytes),
        None => Err(EmbedError::BadLine(number as usize)),
    }
}

/// The vectors in lines, or what is wrong with the first bad one.
pub open spec fn line_vectors(lines: Seq<Seq<char>>) -> Result<Seq<Seq<Scalar>>, EmbedError>
    decreases lines.len(),
{
    if lines.len() == 0 {
        Ok(Seq::empty())
    } else {
        match line_vectors(lines.drop_last()) {
            Err(e) => Err(e),
            Ok(before) => match line_vector(lines.last(), lines.len()) {
                Err(e) => Err(e),
                Ok(v) => Ok(before.push(v)),
            },
        }
    }
}

/// The vectors in the output of the command for several photos, one to a line.
pub open spec fn vectors_in(stdout: Seq<u8>, expected: nat) -> Result<Seq<Seq<Scalar>>, EmbedError> {
    if !valid_utf8(stdout) {
        Err(EmbedError::NotText)
    } else {
        let lines = filled_lines_of(decode_utf8(stdout));
        if lines.len() != expected {
            Err(
                EmbedError::WrongNumberOfLines {
                    expected: expected as usize,
                    got: lines.len() as usize,
                },
            )
        } else {
            line_vectors(lines)
        }
    }
}

proof fn lemma_bad_line_stays(lines: Seq<Seq<char>>, n: int)
    requires
        0 <= n <= lines.len(),
        line_vectors(lines.take(n)) is Err,
    ensures
        line_vectors(lines) == line_vectors(lines.take(n)),
    decreases lines.len(),
{
    if n < lines.len() {
        let rest = lines.drop_last();
        assert(rest.take(n) == lines.take(n));
        lemma_bad_line_stays(rest, n);
    } else {
        assert(lines.take(n) == lines);
    }
}

/// The vectors in the output of the command for several photos, one to a line.
pub fn parse_batch_output(stdout: &Vec<u8>, expected: usize) -> (r: Result<
    Vec<Vec<Scalar>>,
    EmbedError,
>)
    ensures
        vectors_outcome(r) == vectors_in(stdout@, expected as nat),
{
    let s = match text::from_utf8(stdout) {
        Some(s) => s,
        None => {
            return Err(EmbedError::NotText);
        },
    };
    let lines = text::filled_lines(s.as_str());
    let n = lines.len();
    if n != expected {
        return Err(EmbedError::WrongNumberOfLines { expected, got: n });
    }
    let ghost l = lines.deep_view();
    let ghost f = |x: Vec<Scalar>| x@;
    let mut r: Vec<Vec<Scalar>> = Vec::new();
    let mut i: usize = 0;
    assert(r@.map_values(f) =~= Seq::empty());
    while i < n
        invariant
            i <= n == lines@.len(),
            l == lines.deep_view(),
            f == (|x: Vec<Scalar>| x@),
            valid_utf8(stdout@),
            l == filled_lines_of(decode_utf8(stdout@)),
            l.len() == expected,
            line_vectors(l.take(i as int)) == Ok::<Seq<Seq<Scalar>>, EmbedError>(
                r@.map_values(f),
            ),
        decreases n - i,
    {
        let ghost upto = l.take(i + 1);
        proof {
            assert(upto.drop_last() == l.take(i as int));
            assert(upto.last() == lines@[i as int]@);
        }
        match base64_decode(lines[i].as_str()) {
            None => {
                proof {
                    lemma_bad_line_stays(l, i + 1);
                }
                return Err(EmbedError::BadLine(i + 1));
            },
            Some(bytes) => match bytes_to_floats(&bytes) {
                Err(e) => {
                    proof {
                        lemma_bad_line_stays(l, i + 1);
                    }
                    return Err(e);
                },
                Ok(v) => {
                    let ghost before = r@.map_values(f);
                    r.push(v);
                    assert(r@.map_values(f) =~= before.push(v@));
                },
            },
        }
        i += 1;
    }
    assert(l.take(i as int) == l);
    Ok(r)
}

/// The annotations with `vector` in place of any other vector of `ns`.
pub open spec fn with_vector(
    annotations: Seq<AnnotationView>,
    ns: Seq<char>,
    embedding: AnnotationView,
) -> Seq<AnnotationView> {
    annotations.filter(|a: AnnotationView| !is_embedding(a, ns)).push(embedding)
}

/// The annotation that holds a vector.
pub open spec fn embedding_of(ns: Seq<char>, vector: Seq<Scalar>) -> AnnotationView {
    AnnotationView::Embedding {
        namespace: ns,
        data: crate::gallery::base64_text(crate::gallery::bytes_of(vector)),
    }
}

/// Keeps a vector of a photo in place of any other under `ns`.
pub fn store_vector(annotations: &mut Vec<Annotation>, ns: &str, vector: &Vec<Scalar>)
    requires
        may_encode(4 * vector@.len()),
    ensures
        final(annotations).deep_view() == with_vector(
            old(annotations).deep_view(),
            ns@,
            embedding_of(ns@, vector@),
        ),
        first_vector(final(annotations).deep_view(), ns@) == Some(vector@),
{
    let ghost all = annotations.deep_view();
    let ghost p = |a: AnnotationView| !is_embedding(a, ns@);
    let mut kept: Vec<Annotation> = Vec::new();
    let mut i: usize = 0;
    reveal(Seq::filter);
    assert(kept.deep_view() =~= all.take(0).filter(p));
    while i < annotations.len()
        invariant
            i <= annotations@.len(),
            *annotations == *old(annotations),
            all == annotations.deep_view(),
            p == (|a: AnnotationView| !is_embedding(a, ns@)),
            kept.deep_view() == all.take(i as int).filter(p),
        decreases annotations@.len() - i,
    {
        reveal(Seq::filter);
        assert(all.take(i + 1).drop_last() == all.take(i as int));
        assert(all.take(i + 1).last() == annotations@[i as int].deep_view());
        if !holds_embedding(&annotations[i], ns) {
            let ghost before = kept.deep_view();
            let a = annotations[i].clone();
            kept.push(a);
            assert(kept.deep_view() =~= before.push(a.deep_view()));
        }
        i += 1;
    }
    assert(all.take(i as int) == all);
    let ghost others = kept.deep_view();
    let a = Annotation::embedding(ns, vector);
    kept.push(a);
    assert(kept.deep_view() =~= others.push(a.deep_view()));
    proof {
        broadcast use vstd::seq_lib::group_filter_ensures;

        assert forall|k: int| 0 <= k < others.len() implies !is_embedding(
            #[trigger] others[k],
            ns@,
        ) by {
            assert(p(others[k]));
        }
        lemma_found_behind(others, a.deep_view(), ns@);
    }
    *annotations = kept;
}

/// A vector is found behind annotations that hold none.
proof fn lemma_found_behind(others: Seq<AnnotationView>, a: AnnotationView, ns: Seq<char>)
    requires
        forall|k: int| 0 <= k < others.len() ==> !is_embedding(#[trigger] others[k], ns),
        vector_of(a, ns) is Some,
    ensures
        first_vector(others.push(a), ns) == vector_of(a, ns),
    decreases others.len(),
{
    let all = others.push(a);
    if others.len() > 0 {
        assert(all[0] == others[0]);
        assert(!is_embedding(others[0], ns));
        assert(vector_of(others[0], ns) is None);
        let rest = others.drop_first();
        assert forall|k: int| 0 <= k < rest.len() implies !is_embedding(#[trigger] rest[k], ns) by {
            assert(rest[k] == others[k + 1]);
        }
        lemma_found_behind(rest, a, ns);
        assert(all.drop_first() == rest.push(a));
    }
}

/// The photos with the vectors of a batch.
pub open spec fn with_vectors(
    photos: Seq<GalleryEntryView>,
    batch: Seq<usize>,
    vectors: Seq<Seq<Scalar>>,
    ns: Seq<char>,
) -> Seq<GalleryEntryView>
    decreases batch.len(),
{
    if batch.len() == 0 {
        photos
    } else {
        let before = with_vectors(photos, batch.drop_last(), vectors, ns);
        let i = batch.last() as int;
        before.update(
            i,
            GalleryEntryView {
                data: DataView {
                    annotations: with_vector(
                        before[i].data.annotations,
                        ns,
                        embedding_of(ns, vectors[batch.len() - 1]),
                    ),
                    ..before[i].data
                },
                ..before[i]
            },
        )
    }
}

/// Keeps the vectors of a batch of photos.
pub fn store_vectors(
    photos: &mut Vec<GalleryEntry>,
    batch: &Vec<usize>,
    vectors: &Vec<Vec<Scalar>>,
    ns: &str,
)
    requires
        batch@.len() == vectors@.len(),
        forall|i: int| 0 <= i < batch@.len() ==> #[trigger] batch@[i] < old(photos)@.len(),
        forall|i: int|
            0 <= i < vectors@.len() ==> may_encode(4 * (#[trigger] vectors@[i])@.len()),
    ensures
        final(photos).deep_view() == with_vectors(
            old(photos).deep_view(),
            batch@,
            vectors@.map_values(|x: Vec<Scalar>| x@),
            ns@,
        ),
{
    let ghost first = photos.deep_view();
    let ghost v = vectors@.map_values(|x: Vec<Scalar>| x@);
    let mut i: usize = 0;
    while i < batch.len()
        invariant
            i <= batch@.len(),
            batch@.len() == vectors@.len(),
            v == vectors@.map_values(|x: Vec<Scalar>| x@),
            photos@.len() == first.len(),
            forall|k: int| 0 <= k < batch@.len() ==> #[trigger] batch@[k] < first.len(),
            forall|k: int|
                0 <= k < vectors@.len() ==> may_encode(4 * (#[trigger] vectors@[k])@.len()),
            photos.deep_view() == with_vectors(first, batch@.take(i as int), v, ns@),
        decreases batch@.len() - i,
    {
        let ghost before = photos.deep_view();
        let at = batch[i];
        proof {
            assert(batch@.take(i + 1).drop_last() == batch@.take(i as int));
            assert(before[at as int] == photos@[at as int].deep_view());
        }
        store_vector(&mut photos[at].annotations, ns, &vectors[i]);
        assert(photos.deep_view() =~= with_vectors(first, batch@.take(i + 1), v, ns@));
        i += 1;
    }
    assert(batch@.take(i as int) == batch@);
}

/// What is written of a photo that has a vector already.
pub fn skip_line(index: usize, total: usize, label: &str) -> (r: String)
    requires
        index < usize::MAX,
    ensures
        r@ == "["@ + decimal_text((index + 1) as nat) + "/"@ + decimal_text(total as nat) + "] "@
            + label@ + " … skip"@,
{
    let mut t = "[".to_owned();
    t.append(text::decimal(index as u64 + 1).as_str());
    t.append("/");
    t.append(text::decimal(total as u64).as_str());
    t.append("] ");
    t.append(label);
    t.append(" … skip");
    t
}

/// The text before the command is run on a batch. `one` says whether batches hold one photo each, and
/// `label` is the name of the first.
pub open spec fn batch_text(batch: Seq<usize>, one: bool, total: nat, label: Seq<char>) -> Seq<char> {
    if one {
        "["@ + decimal_text((batch[0] + 1) as nat) + "/"@ + decimal_text(total) + "] "@ + label
            + " … "@
    } else {
        "["@ + decimal_text((batch[0] + 1) as nat) + "-"@ + decimal_text((batch.last() + 1) as nat)
            + "/"@ + decimal_text(total) + "] batch of "@ + decimal_text(batch.len()) + " … "@
    }
}

/// What is written before the command is run on a batch.
pub fn batch_line(batch: &Vec<usize>, batch_size: usize, total: usize, label: &str) -> (r: String)
    requires
        batch@.len() > 0,
        batch@[0] < usize::MAX,
        batch@.last() < usize::MAX,
    ensures
        r@ == batch_text(batch@, batch_size <= 1, total as nat, label@),
{
    let mut t = "[".to_owned();
    t.append(text::decimal(batch[0] as u64 + 1).as_str());
    if batch_size <= 1 {
        t.append("/");
        t.append(text::decimal(total as u64).as_str());
        t.append("] ");
        t.append(label);
        t.append(" … ");
    } else {
        t.append("-");
        t.append(text::decimal(batch[batch.len() - 1] as u64 + 1).as_str());
        t.append("/");
        t.append(text::decimal(total as u64).as_str());
        t.append("] batch of ");
        t.append(text::decimal(batch.len() as u64).as_str());
        t.append(" … ");
    }
    t
}

/// Keeps what the command found for a batch, and says how much that was. Where the vectors are not as many
/// as the photos, keeps nothing, and says so.
pub fn settle_batch(
    photos: &mut Vec<GalleryEntry>,
    batch: &Vec<usize>,
    vectors: &Vec<Vec<Scalar>>,
    ns: &str,
) -> (r: Result<String, String>)
    requires
        batch@.len() > 0,
        forall|i: int| 0 <= i < batch@.len() ==> #[trigger] batch@[i] < old(photos)@.len(),
        forall|i: int|
            0 <= i < vectors@.len() ==> may_encode(4 * (#[trigger] vectors@[i])@.len()),
    ensures
        match r {
            Err(e) => {
                &&& batch@.len() != vectors@.len()
                &&& *final(photos) == *old(photos)
                &&& e@ == "expected "@ + decimal_text(batch@.len()) + " embeddings, got "@
                    + decimal_text(vectors@.len())
            },
            Ok(t) => {
                &&& batch@.len() == vectors@.len()
                &&& final(photos).deep_view() == with_vectors(
                    old(photos).deep_view(),
                    batch@,
                    vectors@.map_values(|x: Vec<Scalar>| x@),
                    ns@,
                )
                &&& t@ == if vectors@.len() == 1 {
                    "ok ("@ + decimal_text(vectors@[0]@.len()) + "d)"@
                } else {
                    "ok ("@ + decimal_text(vectors@.len()) + " embeddings, "@ + decimal_text(
                        vectors@[0]@.len(),
                    ) + "d each)"@
                }
            },
        },
{
    if batch.len() != vectors.len() {
        let mut e = "expected ".to_owned();
        e.append(text::decimal(batch.len() as u64).as_str());
        e.append(" embeddings, got ");
        e.append(text::decimal(vectors.len() as u64).as_str());
        return Err(e);
    }
    store_vectors(photos, batch, vectors, ns);
    let mut t = "ok (".to_owned();
    if vectors.len() > 1 {
        t.append(text::decimal(vectors.len() as u64).as_str());
        t.append(" embeddings, ");
        t.append(text::decimal(vectors[0].len() as u64).as_str());
        t.append("d each)");
    } else {
        t.append(text::decimal(vectors[0].len() as u64).as_str());
        t.append("d)");
    }
    Ok(t)
}

} // verus!
