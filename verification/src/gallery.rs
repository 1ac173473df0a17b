//! Photos, what is known of them, and the `.galerie` files that hold them.
use crate::filters::{copy_stack, Filter, FilterView};
use crate::scalar::Scalar;
use crate::text::{self, hex_text, lowercase_text};
use vstd::prelude::*;

verus! {

broadcast use vstd::string::group_string_axioms;

/// A named filter stack, stored in a gallery file, to which the stack of any photo can refer.
#[derive(Debug, PartialEq)]
pub struct FilterPreset {
    pub name: String,
    pub filters: Vec<Filter>,
}

/// The contents of a `FilterPreset`.
pub ghost struct PresetView {
    pub name: Seq<char>,
    pub filters: Seq<FilterView>,
}

impl DeepView for FilterPreset {
    type V = PresetView;

    open spec fn deep_view(&self) -> PresetView {
        PresetView { name: self.name@, filters: self.filters.deep_view() }
    }
}

impl Clone for FilterPreset {
    fn clone(&self) -> (p: Self)
        ensures
            p.deep_view() == self.deep_view(),
    {
        FilterPreset { name: self.name.clone(), filters: copy_stack(&self.filters) }
    }
}

/// A copy of a list of presets.
pub fn copy_presets(presets: &Vec<FilterPreset>) -> (r: Vec<FilterPreset>)
    ensures
        r.deep_view() == presets.deep_view(),
{
    let r = presets.clone();
    assert(r.deep_view() =~= presets.deep_view());
    r
}

/// What someone or something has to say of a photo.
#[derive(Debug, PartialEq)]
pub enum Annotation {
    Note { text: String },
    /// A vector, its numbers as bytes in base 64.
    Embedding { namespace: String, data: String },
    ClusterAssignment { namespace: String, cluster_id: u32 },
    /// An annotation of a kind that is not known here.
    Unknown,
}

/// The contents of an `Annotation`.
pub ghost enum AnnotationView {
    Note { text: Seq<char> },
    Embedding { namespace: Seq<char>, data: Seq<char> },
    ClusterAssignment { namespace: Seq<char>, cluster_id: u32 },
    Unknown,
}

impl DeepView for Annotation {
    type V = AnnotationView;

    open spec fn deep_view(&self) -> AnnotationView {
        match *self {
            Annotation::Note { text } => AnnotationView::Note { text: text@ },
            Annotation::Embedding { namespace, data } => AnnotationView::Embedding {
                namespace: namespace@,
                data: data@,
            },
            Annotation::ClusterAssignment { namespace, cluster_id } => {
                AnnotationView::ClusterAssignment { namespace: namespace@, cluster_id }
            },
            Annotation::Unknown => AnnotationView::Unknown,
        }
    }
}

impl Clone for Annotation {
    fn clone(&self) -> (a: Self)
        ensures
            a.deep_view() == self.deep_view(),
    {
        match self {
            Annotation::Note { text } => Annotation::Note { text: text.clone() },
            Annotation::Embedding { namespace, data } => Annotation::Embedding {
                namespace: namespace.clone(),
                data: data.clone(),
            },
            Annotation::ClusterAssignment { namespace, cluster_id } => {
                Annotation::ClusterAssignment {
                    namespace: namespace.clone(),
                    cluster_id: *cluster_id,
                }
            },
            Annotation::Unknown => Annotation::Unknown,
        }
    }
}

/// A copy of a list of annotations.
pub fn copy_annotations(annotations: &Vec<Annotation>) -> (r: Vec<Annotation>)
    ensures
        r.deep_view() == annotations.deep_view(),
{
    let r = annotations.clone();
    assert(r.deep_view() =~= annotations.deep_view());
    r
}

/// What `base64::Engine::encode` of the standard engine writes for some bytes.
pub uninterp spec fn base64_text(bytes: Seq<u8>) -> Seq<char>;

/// What `base64::Engine::decode` of the standard engine reads from a text; `None` where it fails.
pub uninterp spec fn base64_bytes(text: Seq<char>) -> Option<Seq<u8>>;

/// The text that `base64_encode` writes for `n` bytes can be held in memory.
pub open spec fn may_encode(n: nat) -> bool {
    4 * ((n + 2) / 3) <= isize::MAX
}

/// `base64::Engine::encode` of the standard engine writes bytes in base 64. `decode` reads them
/// back from what it writes.
#[verifier::external_body]
fn base64_encode(bytes: &Vec<u8>) -> (text: String)
    requires
        may_encode(bytes@.len()),
    ensures
        text@ == base64_text(bytes@),
        base64_bytes(text@) == Some(bytes@),
{
    base64::Engine::encode(&base64::engine::general_purpose::STANDARD, bytes)
}

/// `base64::Engine::decode` of the standard engine reads bytes in base 64. The text decides.
#[verifier::external_body]
pub(crate) fn base64_decode(text: &str) -> (bytes: Option<Vec<u8>>)
    ensures
        bytes is Some <==> base64_bytes(text@) is Some,
        bytes matches Some(b) ==> base64_bytes(text@) == Some(b@),
{
    base64::Engine::decode(&base64::engine::general_purpose::STANDARD, text).ok()
}

/// The number that four bytes stand for, the lowest first.
pub open spec fn number_of(a: u8, b: u8, c: u8, d: u8) -> int {
    a + 256 * b + 65536 * c + 16777216 * d
}

/// The bytes of numbers, four for each, the lowest first.
pub open spec fn bytes_of(numbers: Seq<Scalar>) -> Seq<u8>
    decreases numbers.len(),
{
    if numbers.len() == 0 {
        Seq::empty()
    } else {
        let n = numbers.last().bits as int;
        bytes_of(numbers.drop_last()) + seq![
            (n % 256) as u8,
            (n / 256 % 256) as u8,
            (n / 65536 % 256) as u8,
            (n / 16777216) as u8,
        ]
    }
}

/// The numbers that bytes stand for, four for each, the lowest first.
pub open spec fn numbers_of(bytes: Seq<u8>) -> Seq<Scalar> {
    Seq::new(
        bytes.len() / 4,
        |i: int|
            Scalar {
                bits: number_of(
                    bytes[4 * i],
                    bytes[4 * i + 1],
                    bytes[4 * i + 2],
                    bytes[4 * i + 3],
                ) as u32,
            },
    )
}

proof fn lemma_four_bytes(n: int)
    requires
        0 <= n < 0x1_0000_0000,
    ensures
        0 <= n / 16777216 < 256,
        n % 256 + 256 * (n / 256 % 256) + 65536 * (n / 65536 % 256) + 16777216 * (n / 16777216) == n,
{
    assert(n == 256 * (n / 256) + n % 256);
    assert(n / 256 == 256 * (n / 65536) + n / 256 % 256);
    assert(n / 65536 == 256 * (n / 16777216) + n / 65536 % 256);
}

/// The bytes of numbers stand for these numbers.
pub proof fn numbers_survive_as_bytes(numbers: Seq<Scalar>)
    ensures
        bytes_of(numbers).len() == 4 * numbers.len(),
        numbers_of(bytes_of(numbers)) == numbers,
    decreases numbers.len(),
{
    if numbers.len() > 0 {
        let rest = numbers.drop_last();
        numbers_survive_as_bytes(rest);
        let bytes = bytes_of(numbers);
        let before = bytes_of(rest);
        let n = numbers.last().bits as int;
        lemma_four_bytes(n);
        let last = numbers.len() - 1;
        assert(number_of(
            bytes[4 * last],
            bytes[4 * last + 1],
            bytes[4 * last + 2],
            bytes[4 * last + 3],
        ) == n);
        assert forall|i: int| 0 <= i < numbers.len() implies numbers_of(bytes)[i]
            == numbers[i] by {
            if i < rest.len() {
                assert(numbers_of(before)[i] == rest[i]);
                assert(bytes[4 * i] == before[4 * i]);
                assert(bytes[4 * i + 1] == before[4 * i + 1]);
                assert(bytes[4 * i + 2] == before[4 * i + 2]);
                assert(bytes[4 * i + 3] == before[4 * i + 3]);
            }
        }
        assert(numbers_of(bytes) =~= numbers);
    } else {
        assert(numbers_of(bytes_of(numbers)) =~= numbers);
    }
}

/// The numbers that the bytes stand for.
pub fn bytes_to_numbers(bytes: &Vec<u8>) -> (r: Vec<Scalar>)
    ensures
        r@ == numbers_of(bytes@),
{
    let mut r: Vec<Scalar> = Vec::new();
    let n = bytes.len() / 4;
    let mut i: usize = 0;
    while i < n
        invariant
            n == bytes@.len() / 4,
            i <= n,
            4 * n <= bytes.len(),
            r@ == numbers_of(bytes@).take(i as int),
        decreases n - i,
    {
        let at = 4 * i;
        let bits: u32 = bytes[at] as u32 + 256 * (bytes[at + 1] as u32) + 65536 * (bytes[at
            + 2] as u32) + 16777216 * (bytes[at + 3] as u32);
        r.push(Scalar { bits });
        assert(r@ =~= numbers_of(bytes@).take(i + 1));
        i += 1;
    }
    assert(numbers_of(bytes@).take(n as int) =~= numbers_of(bytes@));
    r
}

pub(crate) fn numbers_to_bytes(numbers: &Vec<Scalar>) -> (r: Vec<u8>)
    requires
        4 * numbers@.len() <= usize::MAX,
    ensures
        r@ == bytes_of(numbers@),
{
    let mut r: Vec<u8> = Vec::new();
    let mut i: usize = 0;
    while i < numbers.len()
        invariant
            i <= numbers@.len(),
            r@ == bytes_of(numbers@.take(i as int)),
        decreases numbers@.len() - i,
    {
        let ghost upto = numbers@.take(i + 1);
        let n: u32 = numbers[i].bits;
        r.push((n % 256) as u8);
        r.push((n / 256 % 256) as u8);
        r.push((n / 65536 % 256) as u8);
        r.push((n / 16777216) as u8);
        assert(upto.drop_last() == numbers@.take(i as int));
        assert(r@ =~= bytes_of(upto));
        i += 1;
    }
    assert(numbers@.take(i as int) == numbers@);
    r
}

/// The vector that an annotation holds under `ns`, if it is such an annotation and its data can be
/// read as numbers.
pub open spec fn vector_of(a: AnnotationView, ns: Seq<char>) -> Option<Seq<Scalar>> {
    match a {
        AnnotationView::Embedding { namespace, data } => if namespace != ns {
            None
        } else {
            match base64_bytes(data) {
                Some(bytes) => if bytes.len() % 4 != 0 {
                    None
                } else {
                    Some(numbers_of(bytes))
                },
                None => None,
            }
        },
        _ => None,
    }
}

impl Annotation {
    /// An annotation that holds a vector.
    pub fn embedding(namespace: &str, vec: &Vec<Scalar>) -> (a: Self)
        requires
            may_encode(4 * vec@.len()),
        ensures
            a.deep_view() == (AnnotationView::Embedding {
                namespace: namespace@,
                data: base64_text(bytes_of(vec@)),
            }),
            vector_of(a.deep_view(), namespace@) == Some(vec@),
    {
        proof {
            numbers_survive_as_bytes(vec@);
        }
        let data = base64_encode(&numbers_to_bytes(vec));
        Annotation::Embedding { namespace: namespace.to_owned(), data }
    }

    /// The vector that this annotation holds under `ns`.
    pub fn decode_embedding(&self, ns: &str) -> (r: Option<Vec<Scalar>>)
        ensures
            r is Some <==> vector_of(self.deep_view(), ns@) is Some,
            r matches Some(v) ==> vector_of(self.deep_view(), ns@) == Some(v@),
    {
        match self {
            Annotation::Embedding { namespace, data } => {
                if !text::same(namespace.as_str(), ns) {
                    return None;
                }
                match base64_decode(data.as_str()) {
                    Some(bytes) => {
                        if bytes.len() % 4 != 0 {
                            None
                        } else {
                            Some(bytes_to_numbers(&bytes))
                        }
                    },
                    None => None,
                }
            },
            _ => None,
        }
    }
}

/// The first vector that a list of annotations holds under `ns`.
pub open spec fn first_vector(annotations: Seq<AnnotationView>, ns: Seq<char>) -> Option<Seq<Scalar>>
    decreases annotations.len(),
{
    if annotations.len() == 0 {
        None
    } else if vector_of(annotations[0], ns) is Some {
        vector_of(annotations[0], ns)
    } else {
        first_vector(annotations.drop_first(), ns)
    }
}

/// The first vector that a list of annotations holds under `ns`.
pub fn find_vector(annotations: &Vec<Annotation>, ns: &str) -> (r: Option<Vec<Scalar>>)
    ensures
        r is Some <==> first_vector(annotations.deep_view(), ns@) is Some,
        r matches Some(v) ==> first_vector(annotations.deep_view(), ns@) == Some(v@),
{
    let ghost all = annotations.deep_view();
    let mut i: usize = 0;
    assert(all.skip(0) == all);
    while i < annotations.len()
        invariant
            i <= annotations@.len(),
            all == annotations.deep_view(),
            first_vector(all, ns@) == first_vector(all.skip(i as int), ns@),
        decreases annotations@.len() - i,
    {
        assert(all.skip(i as int)[0] == annotations@[i as int].deep_view());
        assert(all.skip(i as int).drop_first() == all.skip(i + 1));
        let r = annotations[i].decode_embedding(ns);
        if r.is_some() {
            return r;
        }
        i += 1;
    }
    None
}

/// The colour behind the photos.
#[derive(Debug, Clone, Copy, PartialEq, Eq, Structural)]
pub enum BackgroundColor {
    Black,
    Gray,
    White,
}

impl Default for BackgroundColor {
    fn default() -> (c: Self)
        ensures
            c == BackgroundColor::Black,
    {
        BackgroundColor::Black
    }
}

impl BackgroundColor {
    /// The colour after this one.
    pub open spec fn next(self) -> BackgroundColor {
        match self {
            BackgroundColor::Black => BackgroundColor::Gray,
            BackgroundColor::Gray => BackgroundColor::White,
            BackgroundColor::White => BackgroundColor::Black,
        }
    }

    /// The name of the colour.
    pub open spec fn name(self) -> Seq<char> {
        match self {
            BackgroundColor::Black => "black"@,
            BackgroundColor::Gray => "gray"@,
            BackgroundColor::White => "white"@,
        }
    }

    /// The colour after this one: black, gray, white, black.
    pub fn cycle(self) -> (c: Self)
        ensures
            c == self.next(),
    {
        match self {
            BackgroundColor::Black => BackgroundColor::Gray,
            BackgroundColor::Gray => BackgroundColor::White,
            BackgroundColor::White => BackgroundColor::Black,
        }
    }

    pub fn label(self) -> (s: &'static str)
        ensures
            s@ == self.name(),
    {
        match self {
            BackgroundColor::Black => "black",
            BackgroundColor::Gray => "gray",
            BackgroundColor::White => "white",
        }
    }
}

/// Three steps lead through all the colours and back.
pub proof fn backgrounds_come_round(c: BackgroundColor)
    ensures
        c.next() != c,
        c.next().next() != c,
        c.next().next().next() == c,
{
}

/// How much of a file its hash covers, in bytes.
pub const HASH_READ_BYTES: usize = 131_072;

/// What `seahash::hash` makes of some bytes.
pub uninterp spec fn seahash_of(bytes: Seq<u8>) -> u64;

/// `seahash::hash`, with its own fixed seeds. The bytes decide.
#[verifier::external_body]
pub(crate) fn seahash(bytes: &[u8]) -> (h: u64)
    ensures
        h == seahash_of(bytes@),
{
    seahash::hash(bytes)
}

/// The part of a file that its hash covers.
pub open spec fn head(file: Seq<u8>) -> Seq<u8> {
    if file.len() <= HASH_READ_BYTES {
        file
    } else {
        file.take(HASH_READ_BYTES as int)
    }
}

/// The hash of a photo, from the first bytes of its file, as 16 digits in base 16.
pub fn hash_photo_file(file: &Vec<u8>) -> (s: String)
    ensures
        s@ == hex_text(seahash_of(head(file@)) as nat, 16),
{
    let n = if file.len() <= HASH_READ_BYTES {
        file.len()
    } else {
        HASH_READ_BYTES
    };
    let part = vstd::slice::slice_subrange(file.as_slice(), 0, n);
    assert(part@ =~= head(file@));
    text::hex(seahash(part), 16)
}

/// `c` is a digit in base 16, in either case.
pub open spec fn is_hex_digit(c: char) -> bool {
    '0' <= c <= '9' || 'a' <= c <= 'f' || 'A' <= c <= 'F'
}

/// `s` is of the form of a hash: 16 digits in base 16.
pub open spec fn is_key(s: Seq<char>) -> bool {
    s.len() == 16 && forall|i: int| 0 <= i < s.len() ==> is_hex_digit(#[trigger] s[i])
}

/// Whether `s` is of the form of a hash.
pub fn is_hash_key(s: &str) -> (b: bool)
    ensures
        b == is_key(s@),
{
    let chars = text::to_chars(s);
    if chars.len() != 16 {
        return false;
    }
    let mut i: usize = 0;
    while i < chars.len()
        invariant
            i <= chars@.len(),
            chars@ == s@,
            forall|k: int| 0 <= k < i ==> is_hex_digit(#[trigger] chars@[k]),
        decreases chars@.len() - i,
    {
        let c = chars[i];
        if !('0' <= c && c <= '9' || 'a' <= c && c <= 'f' || 'A' <= c && c <= 'F') {
            return false;
        }
        i += 1;
    }
    true
}

proof fn lemma_hex_digits(n: nat, width: nat)
    ensures
        hex_text(n, width).len() == width,
        forall|i: int| 0 <= i < width ==> is_hex_digit(#[trigger] hex_text(n, width)[i]),
    decreases width,
{
    if width > 0 {
        lemma_hex_digits(n / 16, (width - 1) as nat);
        let before = hex_text(n / 16, (width - 1) as nat);
        assert forall|i: int| 0 <= i < width implies is_hex_digit(
            #[trigger] hex_text(n, width)[i],
        ) by {
            if i < width - 1 {
                assert(hex_text(n, width)[i] == before[i]);
            }
        }
    }
}

/// The hash of a photo is of the form of a hash.
pub proof fn hashes_are_keys(file: Seq<u8>)
    ensures
        is_key(hex_text(seahash_of(head(file)) as nat, 16)),
{
    lemma_hex_digits(seahash_of(head(file)) as nat, 16);
}

/// The extension of a file name: what follows its last dot, unless the name begins with that dot.
pub open spec fn extension_of(name: Seq<char>) -> Option<Seq<char>>
    decreases name.len(),
{
    if name.len() <= 1 {
        None
    } else if name.last() == '.' {
        Some(Seq::empty())
    } else {
        match extension_of(name.drop_last()) {
            Some(e) => Some(e.push(name.last())),
            None => None,
        }
    }
}

/// The extension of a file name.
pub fn extension(name: &str) -> (r: Option<String>)
    ensures
        r is Some <==> name@ != ".."@ && extension_of(name@) is Some,
        r matches Some(e) ==> extension_of(name@) == Some(e@),
{
    if text::same(name, "..") {
        return None;
    }
    let chars = text::to_chars(name);
    let n = chars.len();
    let mut i: usize = n;
    proof {
        assert(chars@.take(n as int) == chars@);
        if let Some(e) = extension_of(chars@) {
            assert(e + chars@.skip(n as int) =~= e);
        }
    }
    while i > 1
        invariant
            name@ != ".."@,
            i <= n == chars@.len(),
            chars@ == name@,
            n > 0 ==> i > 0,
            extension_of(name@) is Some <==> extension_of(chars@.take(i as int)) is Some,
            extension_of(chars@.take(i as int)) matches Some(e) ==> extension_of(name@) == Some(
                e + chars@.skip(i as int),
            ),
        decreases i,
    {
        let ghost here = chars@.take(i as int);
        assert(here.drop_last() == chars@.take(i - 1));
        if chars[i - 1] == '.' {
            let e = text::from_chars(&chars, i, n);
            assert(e@ == Seq::<char>::empty() + chars@.skip(i as int));
            return Some(e);
        }
        proof {
            if let Some(e) = extension_of(chars@.take(i - 1)) {
                assert(e.push(chars@[i - 1]) + chars@.skip(i as int) =~= e + chars@.skip(i - 1));
            }
        }
        i -= 1;
    }
    None
}

/// The extensions of the files that count as photos.
pub open spec fn supported() -> Seq<Seq<char>> {
    seq!["jpg"@, "jpeg"@, "png"@, "webp"@, "tif"@, "tiff"@]
}

/// A file of this name counts as a photo.
pub open spec fn is_photo_name(name: Seq<char>) -> bool {
    name != ".."@ && extension_of(name) is Some && supported().contains(
        lowercase_text(extension_of(name)->0),
    )
}

/// Whether an entry of a directory counts as a photo: a file with one of the known extensions.
pub fn is_supported_image(name: &str, is_file: bool) -> (b: bool)
    ensures
        b == (is_file && is_photo_name(name@)),
{
    if !is_file {
        return false;
    }
    match extension(name) {
        None => false,
        Some(e) => {
            let e = text::lowercase(e.as_str());
            let known = text::same(e.as_str(), "jpg") || text::same(e.as_str(), "jpeg")
                || text::same(e.as_str(), "png") || text::same(e.as_str(), "webp") || text::same(
                e.as_str(),
                "tif",
            ) || text::same(e.as_str(), "tiff");
            proof {
                let s = supported();
                assert(s[0] == "jpg"@ && s[1] == "jpeg"@ && s[2] == "png"@ && s[3] == "webp"@
                    && s[4] == "tif"@ && s[5] == "tiff"@);
            }
            known
        },
    }
}

/// What is kept of a photo.
#[derive(Debug, PartialEq)]
pub struct PhotoData {
    pub rating: Option<u8>,
    pub filters: Vec<Filter>,
    pub annotations: Vec<Annotation>,
}

/// The contents of a `PhotoData`.
pub ghost struct DataView {
    pub rating: Option<u8>,
    pub filters: Seq<FilterView>,
    pub annotations: Seq<AnnotationView>,
}

impl DeepView for PhotoData {
    type V = DataView;

    open spec fn deep_view(&self) -> DataView {
        DataView {
            rating: self.rating,
            filters: self.filters.deep_view(),
            annotations: self.annotations.deep_view(),
        }
    }
}

impl Clone for PhotoData {
    fn clone(&self) -> (d: Self)
        ensures
            d.deep_view() == self.deep_view(),
    {
        PhotoData {
            rating: self.rating,
            filters: copy_stack(&self.filters),
            annotations: copy_annotations(&self.annotations),
        }
    }
}

/// Nothing is known of the photo.
pub open spec fn no_data() -> DataView {
    DataView { rating: None, filters: Seq::empty(), annotations: Seq::empty() }
}

impl Default for PhotoData {
    fn default() -> (d: Self)
        ensures
            d.deep_view() == no_data(),
    {
        let d = PhotoData { rating: None, filters: Vec::new(), annotations: Vec::new() };
        assert(d.filters.deep_view() =~= Seq::empty());
        assert(d.annotations.deep_view() =~= Seq::empty());
        d
    }
}

/// A photo of the collection.
#[derive(Debug)]
pub struct PhotoEntry {
    pub index: usize,
    pub path: String,
    /// Of the file's first bytes, so that it survives renaming.
    pub hash: String,
    pub data: PhotoData,
    /// The gallery file that the photo comes from.
    pub galerie_source: Option<String>,
}

/// The contents of a `PhotoEntry`.
pub ghost struct EntryView {
    pub index: nat,
    pub path: Seq<char>,
    pub hash: Seq<char>,
    pub data: DataView,
    pub galerie_source: Option<Seq<char>>,
}

/// The characters of an optional text.
pub open spec fn text_of(s: Option<String>) -> Option<Seq<char>> {
    match s {
        Some(t) => Some(t@),
        None => None,
    }
}

impl DeepView for PhotoEntry {
    type V = EntryView;

    open spec fn deep_view(&self) -> EntryView {
        EntryView {
            index: self.index as nat,
            path: self.path@,
            hash: self.hash@,
            data: self.data.deep_view(),
            galerie_source: text_of(self.galerie_source),
        }
    }
}

/// A photo of a gallery file.
#[derive(Debug)]
pub struct GalleryEntry {
    pub path: String,
    /// Empty where it was never computed.
    pub hash: String,
    pub filters: Vec<Filter>,
    pub rating: Option<u8>,
    pub annotations: Vec<Annotation>,
}

/// The contents of a `GalleryEntry`.
pub ghost struct GalleryEntryView {
    pub path: Seq<char>,
    pub hash: Seq<char>,
    pub data: DataView,
}

impl DeepView for GalleryEntry {
    type V = GalleryEntryView;

    open spec fn deep_view(&self) -> GalleryEntryView {
        GalleryEntryView {
            path: self.path@,
            hash: self.hash@,
            data: DataView {
                rating: self.rating,
                filters: self.filters.deep_view(),
                annotations: self.annotations.deep_view(),
            },
        }
    }
}

impl Clone for GalleryEntry {
    fn clone(&self) -> (e: Self)
        ensures
            e.deep_view() == self.deep_view(),
    {
        GalleryEntry {
            path: self.path.clone(),
            hash: self.hash.clone(),
            filters: copy_stack(&self.filters),
            rating: self.rating,
            annotations: copy_annotations(&self.annotations),
        }
    }
}

/// A copy of the photos of a gallery.
pub fn copy_photos(photos: &Vec<GalleryEntry>) -> (r: Vec<GalleryEntry>)
    ensures
        r.deep_view() == photos.deep_view(),
{
    let r = photos.clone();
    assert(r.deep_view() =~= photos.deep_view());
    r
}

/// A gallery file.
#[derive(Debug)]
pub struct GalleryFile {
    pub name: String,
    pub photos: Vec<GalleryEntry>,
    pub background_color: Option<BackgroundColor>,
    /// Applied to every photo before its own filters.
    pub pre_filters: Vec<Filter>,
    /// Applied to every photo after its own filters.
    pub post_filters: Vec<Filter>,
    pub presets: Vec<FilterPreset>,
}

/// The contents of a `GalleryFile`.
pub ghost struct GalleryView {
    pub name: Seq<char>,
    pub photos: Seq<GalleryEntryView>,
    pub background_color: Option<BackgroundColor>,
    pub pre_filters: Seq<FilterView>,
    pub post_filters: Seq<FilterView>,
    pub presets: Seq<PresetView>,
}

impl DeepView for GalleryFile {
    type V = GalleryView;

    open spec fn deep_view(&self) -> GalleryView {
        GalleryView {
            name: self.name@,
            photos: self.photos.deep_view(),
            background_color: self.background_color,
            pre_filters: self.pre_filters.deep_view(),
            post_filters: self.post_filters.deep_view(),
            presets: self.presets.deep_view(),
        }
    }
}

impl Clone for GalleryFile {
    fn clone(&self) -> (g: Self)
        ensures
            g.deep_view() == self.deep_view(),
    {
        GalleryFile {
            name: self.name.clone(),
            photos: copy_photos(&self.photos),
            background_color: self.background_color,
            pre_filters: copy_stack(&self.pre_filters),
            post_filters: copy_stack(&self.post_filters),
            presets: copy_presets(&self.presets),
        }
    }
}

/// A photo of which a gallery file says nothing but its path.
pub open spec fn bare_entry(path: Seq<char>, hash: Seq<char>) -> GalleryEntryView {
    GalleryEntryView { path, hash, data: no_data() }
}

/// An entry for a photo of which nothing is known.
pub fn new_entry(path: String, hash: String) -> (e: GalleryEntry)
    ensures
        e.deep_view() == bare_entry(path@, hash@),
{
    let e = GalleryEntry {
        path,
        hash,
        filters: Vec::new(),
        rating: None,
        annotations: Vec::new(),
    };
    assert(e.filters.deep_view() =~= Seq::empty());
    assert(e.annotations.deep_view() =~= Seq::empty());
    e
}

/// The gallery that an old file of a name and plain paths stands for.
pub fn legacy_gallery(name: String, paths: Vec<String>) -> (g: GalleryFile)
    ensures
        g.deep_view() == (GalleryView {
            name: name@,
            photos: paths.deep_view().map_values(|p: Seq<char>| bare_entry(p, Seq::empty())),
            background_color: None,
            pre_filters: Seq::empty(),
            post_filters: Seq::empty(),
            presets: Seq::empty(),
        }),
{
    let mut photos: Vec<GalleryEntry> = Vec::new();
    let mut i: usize = 0;
    while i < paths.len()
        invariant
            i <= paths@.len(),
            photos@.len() == i,
            forall|k: int|
                0 <= k < i ==> (#[trigger] photos@[k]).deep_view() == bare_entry(
                    paths@[k]@,
                    Seq::empty(),
                ),
        decreases paths@.len() - i,
    {
        photos.push(new_entry(paths[i].clone(), String::new()));
        i += 1;
    }
    assert(photos.deep_view() =~= paths.deep_view().map_values(
        |p: Seq<char>| bare_entry(p, Seq::empty()),
    ));
    let g = GalleryFile {
        name,
        photos,
        background_color: None,
        pre_filters: Vec::new(),
        post_filters: Vec::new(),
        presets: Vec::new(),
    };
    assert(g.pre_filters.deep_view() =~= Seq::empty());
    assert(g.post_filters.deep_view() =~= Seq::empty());
    assert(g.presets.deep_view() =~= Seq::empty());
    g
}

/// What an argument of the command line names.
#[derive(Debug, PartialEq)]
pub enum InputArg {
    Directory(String),
    GalleryFile(String),
}

/// Whether `path` is one of `paths`.
pub fn is_among(paths: &Vec<String>, path: &str) -> (b: bool)
    ensures
        b == paths.deep_view().contains(path@),
{
    let mut i: usize = 0;
    while i < paths.len()
        invariant
            i <= paths@.len(),
            forall|k: int| 0 <= k < i ==> paths.deep_view()[k] != path@,
        decreases paths@.len() - i,
    {
        if text::same(paths[i].as_str(), path) {
            assert(paths.deep_view()[i as int] == path@);
            return true;
        }
        i += 1;
    }
    false
}

/// The texts that are there, by position.
pub open spec fn texts_of(texts: Seq<Option<String>>) -> Seq<Option<Seq<char>>> {
    Seq::new(texts.len(), |i: int| text_of(texts[i]))
}

/// The photos with their paths resolved, where they could be.
pub open spec fn with_resolved_paths(
    photos: Seq<GalleryEntryView>,
    resolved: Seq<Option<Seq<char>>>,
) -> Seq<GalleryEntryView> {
    Seq::new(
        photos.len(),
        |i: int|
            match resolved[i] {
                Some(p) => GalleryEntryView { path: p, ..photos[i] },
                None => photos[i],
            },
    )
}

/// The paths that could be resolved.
pub open spec fn resolved_paths(resolved: Seq<Option<Seq<char>>>) -> Set<Seq<char>> {
    Set::new(|p: Seq<char>| exists|i: int| 0 <= i < resolved.len() && resolved[i] == Some(p))
}

/// The members after `path` went in or out.
pub open spec fn toggled_members(members: Set<Seq<char>>, path: Seq<char>) -> Set<Seq<char>> {
    if members.contains(path) {
        members.remove(path)
    } else {
        members.insert(path)
    }
}

/// The photos without those at `path`.
pub open spec fn without_path(photos: Seq<GalleryEntryView>, path: Seq<char>) -> Seq<
    GalleryEntryView,
> {
    photos.filter(|e: GalleryEntryView| e.path != path)
}

/// The photos after `path` went in or out.
pub open spec fn toggled_photos(
    photos: Seq<GalleryEntryView>,
    members: Set<Seq<char>>,
    path: Seq<char>,
    hash: Seq<char>,
) -> Seq<GalleryEntryView> {
    if members.contains(path) {
        without_path(photos, path)
    } else {
        photos.push(bare_entry(path, hash))
    }
}

/// A gallery file that is open for editing.
pub struct EditGallery {
    pub path: String,
    pub name: String,
    pub entries: Vec<GalleryEntry>,
    pub member_paths: Vec<String>,
    pub background_color: Option<BackgroundColor>,
    pub presets: Vec<FilterPreset>,
}

impl EditGallery {
    /// No path is listed twice.
    pub open spec fn wf(self) -> bool {
        self.member_paths.deep_view().no_duplicates()
    }

    /// The paths of the photos that belong to the gallery.
    pub open spec fn members(self) -> Set<Seq<char>> {
        Set::new(|p: Seq<char>| self.member_paths.deep_view().contains(p))
    }

    /// The photos, in the order of the file.
    pub open spec fn photos(self) -> Seq<GalleryEntryView> {
        self.entries.deep_view()
    }

    /// What the gallery's file holds, with these filters around those of its photos.
    pub open spec fn written(self, pre: Seq<FilterView>, post: Seq<FilterView>) -> GalleryView {
        GalleryView {
            name: self.name@,
            photos: self.photos(),
            background_color: self.background_color,
            pre_filters: pre,
            post_filters: post,
            presets: self.presets.deep_view(),
        }
    }

    /// The gallery holds what the file does; the photos that can be found have their absolute paths and are
    /// its members.
    pub open spec fn opened_from(self, f: GalleryView, resolved: Seq<Option<Seq<char>>>) -> bool {
        &&& self.photos() == with_resolved_paths(f.photos, resolved)
        &&& self.members() == resolved_paths(resolved)
        &&& self.background_color == f.background_color
        &&& self.presets.deep_view() == f.presets
    }

    /// Opens a gallery: an empty one, or the one that `on_disk` holds. `stem` is the name of the
    /// file without its extension, and `resolved` holds the absolute path of each photo of the
    /// file that can be found.
    pub fn load_or_create(
        path: String,
        stem: Option<String>,
        on_disk: Option<GalleryFile>,
        resolved: &Vec<Option<String>>,
    ) -> (g: Self)
        requires
            on_disk matches Some(f) ==> resolved@.len() == f.photos@.len(),
        ensures
            g.wf(),
            g.path@ == path@,
            g.name@ == match stem {
                Some(s) => s@,
                None => "gallery"@,
            },
            on_disk is None ==> g.photos().len() == 0 && g.members() == Set::<Seq<char>>::empty()
                && g.background_color is None && g.presets@.len() == 0,
            on_disk matches Some(f) ==> {
                &&& g.photos() == with_resolved_paths(f.photos.deep_view(), texts_of(resolved@))
                &&& g.members() == resolved_paths(texts_of(resolved@))
                &&& g.background_color == f.background_color
                &&& g.presets.deep_view() == f.presets.deep_view()
            },
            on_disk matches Some(f) ==> g.opened_from(f.deep_view(), texts_of(resolved@)),
    {
        let name = match stem {
            Some(s) => s,
            None => "gallery".to_owned(),
        };
        match on_disk {
            None => {
                let g = EditGallery {
                    path,
                    name,
                    entries: Vec::new(),
                    member_paths: Vec::new(),
                    background_color: None,
                    presets: Vec::new(),
                };
                assert(g.members() =~= Set::empty());
                g
            },
            Some(f) => {
                let mut entries: Vec<GalleryEntry> = Vec::new();
                let mut member_paths: Vec<String> = Vec::new();
                let ghost r = texts_of(resolved@);
                let mut i: usize = 0;
                while i < f.photos.len()
                    invariant
                        i <= f.photos@.len(),
                        resolved@.len() == f.photos@.len(),
                        r == texts_of(resolved@),
                        entries@.len() == i,
                        forall|k: int|
                            0 <= k < i ==> (#[trigger] entries@[k]).deep_view()
                                == with_resolved_paths(f.photos.deep_view(), r)[k],
                        member_paths.deep_view().no_duplicates(),
                        forall|p: Seq<char>|
                            #![trigger member_paths.deep_view().contains(p)]
                            member_paths.deep_view().contains(p) <==> exists|k: int|
                                0 <= k < i && r[k] == Some(p),
                    decreases f.photos@.len() - i,
                {
                    let mut e = f.photos[i].clone();
                    let ghost before = member_paths.deep_view();
                    match &resolved[i] {
                        Some(p) => {
                            e.path = p.clone();
                            if !is_among(&member_paths, p.as_str()) {
                                member_paths.push(p.clone());
                                assert(member_paths.deep_view() =~= before.push(p@));
                            }
                            proof {
                                assert(r[i as int] == Some(p@));
                                assert forall|q: Seq<char>|
                                    #![trigger member_paths.deep_view().contains(q)]
                                    member_paths.deep_view().contains(q) <==> exists|k: int|
                                        0 <= k < i + 1 && r[k] == Some(q) by {
                                    if q == p@ {
                                        let after = member_paths.deep_view();
                                        if !before.contains(q) {
                                            assert(after[after.len() - 1] == q);
                                        }
                                    } else {
                                        if before.contains(q) {
                                            let j = choose|j: int|
                                                0 <= j < before.len() && before[j] == q;
                                            assert(member_paths.deep_view()[j] == q);
                                        }
                                        if member_paths.deep_view().contains(q) {
                                            let j = choose|j: int|
                                                0 <= j < member_paths.deep_view().len()
                                                    && member_paths.deep_view()[j] == q;
                                            assert(before[j] == q);
                                        }
                                    }
                                }
                            }
                        },
                        None => {
                            assert(r[i as int] is None);
                        },
                    }
                    entries.push(e);
                    i += 1;
                }
                let GalleryFile { background_color, presets, photos, .. } = f;
                let g = EditGallery {
                    path,
                    name,
                    entries,
                    member_paths,
                    background_color,
                    presets,
                };
                assert(g.photos() =~= with_resolved_paths(photos.deep_view(), r));
                assert(g.members() =~= resolved_paths(r));
                g
            },
        }
    }

    /// Whether the photo at `path` belongs to the gallery.
    pub fn contains(&self, path: &str) -> (b: bool)
        ensures
            b == self.members().contains(path@),
    {
        is_among(&self.member_paths, path)
    }

    /// Takes the photo at `path` in, or out if it was in. Says whether it went in.
    pub fn toggle(&mut self, path: &str, hash: &str) -> (added: bool)
        requires
            old(self).wf(),
        ensures
            final(self).wf(),
            added == !old(self).members().contains(path@),
            final(self).members() == toggled_members(old(self).members(), path@),
            final(self).photos() == toggled_photos(
                old(self).photos(),
                old(self).members(),
                path@,
                hash@,
            ),
            final(self).path == old(self).path,
            final(self).name == old(self).name,
            final(self).background_color == old(self).background_color,
            final(self).presets == old(self).presets,
    {
        if self.contains(path) {
            let mut at: usize = 0;
            let n = self.member_paths.len();
            let ghost before = self.member_paths.deep_view();
            while !text::same(self.member_paths[at].as_str(), path)
                invariant
                    n == before.len(),
                    before.no_duplicates(),
                    before == self.member_paths.deep_view(),
                    self.entries == old(self).entries,
                    self.path == old(self).path,
                    self.name == old(self).name,
                    self.background_color == old(self).background_color,
                    self.presets == old(self).presets,
                    before.contains(path@),
                    at < before.len(),
                    forall|k: int| 0 <= k < at ==> before[k] != path@,
                decreases before.len() - at,
            {
                proof {
                    let j = choose|j: int| 0 <= j < before.len() && before[j] == path@;
                    assert(j > at);
                }
                at += 1;
            }
            assert(before[at as int] == path@);
            let _ = self.member_paths.remove(at);
            proof {
                let after = self.member_paths.deep_view();
                assert(after =~= before.remove(at as int));
                assert forall|q: Seq<char>| after.contains(q) <==> before.contains(q) && q
                    != path@ by {
                    if after.contains(q) {
                        let j = choose|j: int| 0 <= j < after.len() && after[j] == q;
                        let b = if j < at {
                            j
                        } else {
                            j + 1
                        };
                        assert(before[b] == q);
                    }
                    if before.contains(q) && q != path@ {
                        let j = choose|j: int| 0 <= j < before.len() && before[j] == q;
                        let a = if j < at {
                            j
                        } else {
                            j - 1
                        };
                        assert(after[a] == q);
                    }
                }
                assert(self.members() =~= old(self).members().remove(path@));
            }
            let mut kept: Vec<GalleryEntry> = Vec::new();
            let mut i: usize = 0;
            let ghost all = self.entries.deep_view();
            reveal(Seq::filter);
            assert(kept.deep_view() =~= without_path(all.take(0), path@));
            while i < self.entries.len()
                invariant
                    i <= self.entries@.len(),
                    all == self.entries.deep_view(),
                    kept.deep_view() == without_path(all.take(i as int), path@),
                decreases self.entries@.len() - i,
            {
                reveal(Seq::filter);
                assert(all.take(i + 1).drop_last() == all.take(i as int));
                assert(all.take(i + 1).last() == self.entries@[i as int].deep_view());
                if !text::same(self.entries[i].path.as_str(), path) {
                    let e = self.entries[i].clone();
                    let ghost k = kept.deep_view();
                    kept.push(e);
                    assert(kept.deep_view() =~= k.push(e.deep_view()));
                }
                i += 1;
            }
            assert(all.take(i as int) == all);
            self.entries = kept;
            false
        } else {
            let ghost before = self.member_paths.deep_view();
            let ghost photos = self.entries.deep_view();
            self.member_paths.push(path.to_owned());
            self.entries.push(new_entry(path.to_owned(), hash.to_owned()));
            proof {
                let after = self.member_paths.deep_view();
                assert(after =~= before.push(path@));
                assert forall|q: Seq<char>| after.contains(q) <==> before.contains(q) || q
                    == path@ by {
                    if before.contains(q) {
                        let j = choose|j: int| 0 <= j < before.len() && before[j] == q;
                        assert(after[j] == q);
                    }
                    if q == path@ {
                        assert(after[before.len() as int] == q);
                    }
                }
                assert(self.members() =~= old(self).members().insert(path@));
                assert(self.entries.deep_view() =~= photos.push(bare_entry(path@, hash@)));
            }
            true
        }
    }

    /// What the gallery's file is to hold. `around` are the filters that the file on disk puts
    /// before and after those of the photos: these are kept.
    pub fn contents(&self, around: Option<(Vec<Filter>, Vec<Filter>)>) -> (f: GalleryFile)
        ensures
            f.deep_view() == (GalleryView {
                name: self.name@,
                photos: self.photos(),
                background_color: self.background_color,
                pre_filters: match around {
                    Some((pre, _)) => pre.deep_view(),
                    None => Seq::empty(),
                },
                post_filters: match around {
                    Some((_, post)) => post.deep_view(),
                    None => Seq::empty(),
                },
                presets: self.presets.deep_view(),
            }),
            around matches Some((pre, post)) ==> f.deep_view() == self.written(
                pre.deep_view(),
                post.deep_view(),
            ),
            around is None ==> f.deep_view() == self.written(Seq::empty(), Seq::empty()),
    {
        let (pre_filters, post_filters) = match around {
            Some((pre, post)) => (pre, post),
            None => {
                let none: Vec<Filter> = Vec::new();
                let nothing: Vec<Filter> = Vec::new();
                assert(none.deep_view() =~= Seq::empty());
                assert(nothing.deep_view() =~= Seq::empty());
                (none, nothing)
            },
        };
        GalleryFile {
            name: self.name.clone(),
            photos: copy_photos(&self.entries),
            background_color: self.background_color,
            pre_filters,
            post_filters,
            presets: copy_presets(&self.presets),
        }
    }
}

/// A photo that goes in and out, or out and in, is a member as it was before.
pub proof fn toggling_twice_restores_members(members: Set<Seq<char>>, path: Seq<char>)
    ensures
        toggled_members(toggled_members(members, path), path) == members,
{
    assert(toggled_members(toggled_members(members, path), path) =~= members);
}

/// A photo that goes in and out leaves the photos as they were.
pub proof fn toggling_twice_restores_photos(
    photos: Seq<GalleryEntryView>,
    members: Set<Seq<char>>,
    path: Seq<char>,
    hash: Seq<char>,
)
    requires
        !members.contains(path),
        forall|i: int| 0 <= i < photos.len() ==> (#[trigger] photos[i]).path != path,
    ensures
        toggled_photos(
            toggled_photos(photos, members, path, hash),
            toggled_members(members, path),
            path,
            hash,
        ) == photos,
{
    reveal(Seq::filter);
    let more = photos.push(bare_entry(path, hash));
    assert(more.drop_last() == photos);
    lemma_nothing_to_drop(photos, path);
}

proof fn lemma_nothing_to_drop(photos: Seq<GalleryEntryView>, path: Seq<char>)
    requires
        forall|i: int| 0 <= i < photos.len() ==> (#[trigger] photos[i]).path != path,
    ensures
        without_path(photos, path) == photos,
    decreases photos.len(),
{
    reveal(Seq::filter);
    if photos.len() > 0 {
        lemma_nothing_to_drop(photos.drop_last(), path);
        assert(photos.drop_last().push(photos.last()) == photos);
    }
}

} // verus!
