//! Actions, and how the configuration names them.
use crate::filters::{Filter, FilterView, Rgba, RotateFill};
use crate::scalar::{Scalar, HALF_BITS, ONE_BITS};
use crate::text;
use crate::viewer::{Direction, ModeTarget};
use vstd::prelude::*;

verus! {

broadcast use vstd::string::group_string_axioms;

/// Something that a key can do.
#[derive(Debug, PartialEq)]
#[allow(inconsistent_fields)]
pub enum Action {
    /// Moves the selection by a number of photos.
    Navigate { direction: Direction, count: usize },
    SwitchMode { mode: ModeTarget },
    ToggleSlideshow,
    ToggleFilterSidebar,
    Quit,
    CycleRating { values: Vec<u8> },
    RunScript {
        path: String,
        /// With `%p` for the photo's path, `%d1` for its width, `%d2` for its height, `%r` for their
        /// ratio and `%%` for a per cent sign.
        args: Vec<String>,
        /// Whether the script is to read the photo's filters.
        pass_filters_stdin: bool,
    },
    /// Applies a filter to the photo in focus.
    ApplyFilter { filter: Filter },
    /// Makes the grid coarser, or finer where `delta` is negative.
    ZoomTiling { delta: i32 },
    CycleBackground,
    ToggleHistogram,
    /// Moves the selection by one row of the grid.
    NavigateTilingRow { direction: Direction },
    ZoomSingle { delta: Scalar },
    ZoomSingleFit,
    /// Shows each pixel of the photo as one pixel of the screen.
    ZoomSingleToOne,
    ToggleFullscreen,
    /// Applies a filter to every photo.
    ApplyFilterToAll { filter: Filter },
    ToggleAnnotations,
    /// Shows the photos that are most like the one in focus.
    FindSimilar { namespace: String, count: usize },
    /// The same, but no two of them closer to each other than `threshold`.
    FindSimilarDiverse { namespace: String, count: usize, threshold: Scalar },
}

/// The contents of an `Action`.
#[allow(inconsistent_fields)]
pub ghost enum ActionView {
    Navigate { direction: Direction, count: usize },
    SwitchMode { mode: ModeTarget },
    ToggleSlideshow,
    ToggleFilterSidebar,
    Quit,
    CycleRating { values: Seq<u8> },
    RunScript { path: Seq<char>, args: Seq<Seq<char>>, pass_filters_stdin: bool },
    ApplyFilter { filter: FilterView },
    ZoomTiling { delta: i32 },
    CycleBackground,
    ToggleHistogram,
    NavigateTilingRow { direction: Direction },
    ZoomSingle { delta: Scalar },
    ZoomSingleFit,
    ZoomSingleToOne,
    ToggleFullscreen,
    ApplyFilterToAll { filter: FilterView },
    ToggleAnnotations,
    FindSimilar { namespace: Seq<char>, count: usize },
    FindSimilarDiverse { namespace: Seq<char>, count: usize, threshold: Scalar },
}

impl DeepView for Action {
    type V = ActionView;

    open spec fn deep_view(&self) -> ActionView {
        match *self {
            Action::Navigate { direction, count } => ActionView::Navigate { direction, count },
            Action::SwitchMode { mode } => ActionView::SwitchMode { mode },
            Action::ToggleSlideshow => ActionView::ToggleSlideshow,
            Action::ToggleFilterSidebar => ActionView::ToggleFilterSidebar,
            Action::Quit => ActionView::Quit,
            Action::CycleRating { values } => ActionView::CycleRating { values: values@ },
            Action::RunScript { path, args, pass_filters_stdin } => ActionView::RunScript {
                path: path@,
                args: args.deep_view(),
                pass_filters_stdin,
            },
            Action::ApplyFilter { filter } => ActionView::ApplyFilter {
                filter: filter.deep_view(),
            },
            Action::ZoomTiling { delta } => ActionView::ZoomTiling { delta },
            Action::CycleBackground => ActionView::CycleBackground,
            Action::ToggleHistogram => ActionView::ToggleHistogram,
            Action::NavigateTilingRow { direction } => ActionView::NavigateTilingRow { direction },
            Action::ZoomSingle { delta } => ActionView::ZoomSingle { delta },
            Action::ZoomSingleFit => ActionView::ZoomSingleFit,
            Action::ZoomSingleToOne => ActionView::ZoomSingleToOne,
            Action::ToggleFullscreen => ActionView::ToggleFullscreen,
            Action::ApplyFilterToAll { filter } => ActionView::ApplyFilterToAll {
                filter: filter.deep_view(),
            },
            Action::ToggleAnnotations => ActionView::ToggleAnnotations,
            Action::FindSimilar { namespace, count } => ActionView::FindSimilar {
                namespace: namespace@,
                count,
            },
            Action::FindSimilarDiverse { namespace, count, threshold } => {
                ActionView::FindSimilarDiverse { namespace: namespace@, count, threshold }
            },
        }
    }
}

fn copy_texts(texts: &Vec<String>) -> (r: Vec<String>)
    ensures
        r.deep_view() == texts.deep_view(),
{
    let r = texts.clone();
    assert(r.deep_view() =~= texts.deep_view());
    r
}

fn copy_numbers(values: &Vec<u8>) -> (r: Vec<u8>)
    ensures
        r@ == values@,
{
    let r = values.clone();
    assert(r@ == values@);
    r
}

impl Clone for Action {
    fn clone(&self) -> (a: Self)
        ensures
            a.deep_view() == self.deep_view(),
    {
        match self {
            Action::Navigate { direction, count } => Action::Navigate {
                direction: *direction,
                count: *count,
            },
            Action::SwitchMode { mode } => Action::SwitchMode { mode: *mode },
            Action::ToggleSlideshow => Action::ToggleSlideshow,
            Action::ToggleFilterSidebar => Action::ToggleFilterSidebar,
            Action::Quit => Action::Quit,
            Action::CycleRating { values } => Action::CycleRating { values: copy_numbers(values) },
            Action::RunScript { path, args, pass_filters_stdin } => Action::RunScript {
                path: path.clone(),
                args: copy_texts(args),
                pass_filters_stdin: *pass_filters_stdin,
            },
            Action::ApplyFilter { filter } => Action::ApplyFilter { filter: filter.clone() },
            Action::ZoomTiling { delta } => Action::ZoomTiling { delta: *delta },
            Action::CycleBackground => Action::CycleBackground,
            Action::ToggleHistogram => Action::ToggleHistogram,
            Action::NavigateTilingRow { direction } => Action::NavigateTilingRow {
                direction: *direction,
            },
            Action::ZoomSingle { delta } => Action::ZoomSingle { delta: *delta },
            Action::ZoomSingleFit => Action::ZoomSingleFit,
            Action::ZoomSingleToOne => Action::ZoomSingleToOne,
            Action::ToggleFullscreen => Action::ToggleFullscreen,
            Action::ApplyFilterToAll { filter } => Action::ApplyFilterToAll {
                filter: filter.clone(),
            },
            Action::ToggleAnnotations => Action::ToggleAnnotations,
            Action::FindSimilar { namespace, count } => Action::FindSimilar {
                namespace: namespace.clone(),
                count: *count,
            },
            Action::FindSimilarDiverse { namespace, count, threshold } => {
                Action::FindSimilarDiverse {
                    namespace: namespace.clone(),
                    count: *count,
                    threshold: *threshold,
                }
            },
        }
    }
}

/// An item of a list in the configuration.
#[derive(Debug, PartialEq)]
pub enum ListItem {
    Integer(i64),
    Text(String),
    Other,
}

/// A value in the configuration.
#[derive(Debug, PartialEq)]
pub enum ArgValue {
    Text(String),
    Integer(i64),
    Float(Scalar),
    Boolean(bool),
    List(Vec<ListItem>),
    Other,
}

/// An argument of an action in the configuration.
#[derive(Debug, PartialEq)]
pub struct Arg {
    pub name: String,
    pub value: ArgValue,
}

/// The contents of a `ListItem`.
pub ghost enum ItemView {
    Integer(i64),
    Text(Seq<char>),
    Other,
}

/// The contents of an `ArgValue`.
pub ghost enum ValueView {
    Text(Seq<char>),
    Integer(i64),
    Float(Scalar),
    Boolean(bool),
    List(Seq<ItemView>),
    Other,
}

impl DeepView for ListItem {
    type V = ItemView;

    open spec fn deep_view(&self) -> ItemView {
        match *self {
            ListItem::Integer(n) => ItemView::Integer(n),
            ListItem::Text(s) => ItemView::Text(s@),
            ListItem::Other => ItemView::Other,
        }
    }
}

impl DeepView for ArgValue {
    type V = ValueView;

    open spec fn deep_view(&self) -> ValueView {
        match *self {
            ArgValue::Text(s) => ValueView::Text(s@),
            ArgValue::Integer(n) => ValueView::Integer(n),
            ArgValue::Float(f) => ValueView::Float(f),
            ArgValue::Boolean(b) => ValueView::Boolean(b),
            ArgValue::List(l) => ValueView::List(l.deep_view()),
            ArgValue::Other => ValueView::Other,
        }
    }
}

impl DeepView for Arg {
    type V = (Seq<char>, ValueView);

    open spec fn deep_view(&self) -> (Seq<char>, ValueView) {
        (self.name@, self.value.deep_view())
    }
}

/// Why the configuration names no action.
#[derive(Debug, PartialEq)]
pub enum BindingError {
    /// An argument is missing, or not of the kind that it has to be.
    Requires(&'static str),
    UnknownDirection(String),
    UnknownMode(String),
    /// A rating is not a whole number.
    ValuesNotIntegers,
    UnknownFilter(String),
    UnknownFilterForAll(String),
    /// A colour has not four parts.
    ColorNotFourParts,
    UnknownAction(String),
}

/// The contents of a `BindingError`.
pub ghost enum ErrorView {
    Requires(Seq<char>),
    UnknownDirection(Seq<char>),
    UnknownMode(Seq<char>),
    ValuesNotIntegers,
    UnknownFilter(Seq<char>),
    UnknownFilterForAll(Seq<char>),
    ColorNotFourParts,
    UnknownAction(Seq<char>),
}

impl DeepView for BindingError {
    type V = ErrorView;

    open spec fn deep_view(&self) -> ErrorView {
        match *self {
            BindingError::Requires(s) => ErrorView::Requires(s@),
            BindingError::UnknownDirection(s) => ErrorView::UnknownDirection(s@),
            BindingError::UnknownMode(s) => ErrorView::UnknownMode(s@),
            BindingError::ValuesNotIntegers => ErrorView::ValuesNotIntegers,
            BindingError::UnknownFilter(s) => ErrorView::UnknownFilter(s@),
            BindingError::UnknownFilterForAll(s) => ErrorView::UnknownFilterForAll(s@),
            BindingError::ColorNotFourParts => ErrorView::ColorNotFourParts,
            BindingError::UnknownAction(s) => ErrorView::UnknownAction(s@),
        }
    }
}

/// The value of the argument `name`.
pub open spec fn arg_of(args: Seq<(Seq<char>, ValueView)>, name: Seq<char>) -> Option<ValueView>
    decreases args.len(),
{
    if args.len() == 0 {
        None
    } else if args[0].0 == name {
        Some(args[0].1)
    } else {
        arg_of(args.drop_first(), name)
    }
}

/// The text under `name`, if there is one.
pub open spec fn text_arg(args: Seq<(Seq<char>, ValueView)>, name: Seq<char>) -> Option<Seq<char>> {
    match arg_of(args, name) {
        Some(ValueView::Text(s)) => Some(s),
        _ => None,
    }
}

/// The whole number under `name`, if there is one.
pub open spec fn integer_arg(args: Seq<(Seq<char>, ValueView)>, name: Seq<char>) -> Option<i64> {
    match arg_of(args, name) {
        Some(ValueView::Integer(n)) => Some(n),
        _ => None,
    }
}

/// The fraction under `name`, if there is one. A whole number does not count as one.
pub open spec fn float_arg(args: Seq<(Seq<char>, ValueView)>, name: Seq<char>) -> Option<Scalar> {
    match arg_of(args, name) {
        Some(ValueView::Float(f)) => Some(f),
        _ => None,
    }
}

/// Whether there is a `true` under `name`.
pub open spec fn is_set(args: Seq<(Seq<char>, ValueView)>, name: Seq<char>) -> bool {
    arg_of(args, name) == Some(ValueView::Boolean(true))
}

/// The list under `name`, if there is one.
pub open spec fn list_arg(args: Seq<(Seq<char>, ValueView)>, name: Seq<char>) -> Option<Seq<ItemView>> {
    match arg_of(args, name) {
        Some(ValueView::List(l)) => Some(l),
        _ => None,
    }
}

fn find<'a>(args: &'a Vec<Arg>, name: &str) -> (r: Option<&'a ArgValue>)
    ensures
        r is Some <==> arg_of(args.deep_view(), name@) is Some,
        r matches Some(v) ==> arg_of(args.deep_view(), name@) == Some(v.deep_view()),
{
    let ghost all = args.deep_view();
    let mut i: usize = 0;
    assert(all.skip(0) == all);
    while i < args.len()
        invariant
            i <= args@.len(),
            all == args.deep_view(),
            arg_of(all, name@) == arg_of(all.skip(i as int), name@),
        decreases args@.len() - i,
    {
        assert(all.skip(i as int)[0] == args@[i as int].deep_view());
        assert(all.skip(i as int).drop_first() == all.skip(i + 1));
        if text::same(args[i].name.as_str(), name) {
            return Some(&args[i].value);
        }
        i += 1;
    }
    None
}

fn find_text<'a>(args: &'a Vec<Arg>, name: &str) -> (r: Option<&'a str>)
    ensures
        r is Some <==> text_arg(args.deep_view(), name@) is Some,
        r matches Some(s) ==> text_arg(args.deep_view(), name@) == Some(s@),
{
    match find(args, name) {
        Some(ArgValue::Text(s)) => Some(s.as_str()),
        _ => None,
    }
}

fn find_integer(args: &Vec<Arg>, name: &str) -> (r: Option<i64>)
    ensures
        r == integer_arg(args.deep_view(), name@),
{
    match find(args, name) {
        Some(ArgValue::Integer(n)) => Some(*n),
        _ => None,
    }
}

fn find_float(args: &Vec<Arg>, name: &str) -> (r: Option<Scalar>)
    ensures
        r == float_arg(args.deep_view(), name@),
{
    match find(args, name) {
        Some(ArgValue::Float(f)) => Some(*f),
        _ => None,
    }
}

fn find_list<'a>(args: &'a Vec<Arg>, name: &str) -> (r: Option<&'a Vec<ListItem>>)
    ensures
        r is Some <==> list_arg(args.deep_view(), name@) is Some,
        r matches Some(l) ==> list_arg(args.deep_view(), name@) == Some(l.deep_view()),
{
    match find(args, name) {
        Some(ArgValue::List(l)) => Some(l),
        _ => None,
    }
}

/// The lowest 8 bits of a number.
pub open spec fn low_byte(n: i64) -> u8 {
    (n as int % 256) as u8
}

/// The lowest 32 bits of a number.
pub open spec fn low_word(n: i64) -> u32 {
    (n as int % 0x1_0000_0000) as u32
}

/// The lowest 32 bits of a number, the highest of them for the sign.
pub open spec fn low_signed_word(n: i64) -> i32 {
    let m = n as int % 0x1_0000_0000;
    if m < 0x8000_0000 {
        m as i32
    } else {
        (m - 0x1_0000_0000) as i32
    }
}

fn to_byte(n: i64) -> (r: u8)
    ensures
        r == low_byte(n),
{
    match n.checked_rem_euclid(256) {
        Some(m) => m as u8,
        None => 0,
    }
}

fn to_word(n: i64) -> (r: u32)
    ensures
        r == low_word(n),
{
    match n.checked_rem_euclid(0x1_0000_0000) {
        Some(m) => m as u32,
        None => 0,
    }
}

fn to_signed_word(n: i64) -> (r: i32)
    ensures
        r == low_signed_word(n),
{
    match n.checked_rem_euclid(0x1_0000_0000) {
        Some(m) => {
            if m < 0x8000_0000 {
                m as i32
            } else {
                (m - 0x1_0000_0000) as i32
            }
        },
        None => 0,
    }
}

/// The ratings in a list, if all its items are whole numbers.
pub open spec fn ratings_of(items: Seq<ItemView>) -> Option<Seq<u8>> {
    if forall|i: int| 0 <= i < items.len() ==> (#[trigger] items[i]) is Integer {
        Some(Seq::new(items.len(), |i: int| low_byte(items[i]->Integer_0)))
    } else {
        None
    }
}

/// The parts of a colour in a list. What is not a whole number counts as 0.
pub open spec fn color_parts(items: Seq<ItemView>) -> Seq<u8> {
    Seq::new(
        items.len(),
        |i: int|
            match items[i] {
                ItemView::Integer(n) => low_byte(n),
                _ => 0,
            },
    )
}

/// The texts in a list. What is not a text is left out.
pub open spec fn texts_in(items: Seq<ItemView>) -> Seq<Seq<char>>
    decreases items.len(),
{
    if items.len() == 0 {
        Seq::empty()
    } else {
        let before = texts_in(items.drop_last());
        match items.last() {
            ItemView::Text(s) => before.push(s),
            _ => before,
        }
    }
}

fn ratings(items: &Vec<ListItem>) -> (r: Option<Vec<u8>>)
    ensures
        r is Some <==> ratings_of(items.deep_view()) is Some,
        r matches Some(v) ==> ratings_of(items.deep_view()) == Some(v@),
{
    let ghost all = items.deep_view();
    let mut r: Vec<u8> = Vec::new();
    let mut i: usize = 0;
    while i < items.len()
        invariant
            i <= items@.len(),
            all == items.deep_view(),
            r@.len() == i,
            forall|k: int|
                0 <= k < i ==> (#[trigger] all[k]) is Integer && r@[k] == low_byte(
                    all[k]->Integer_0,
                ),
        decreases items@.len() - i,
    {
        assert(all[i as int] == items@[i as int].deep_view());
        match &items[i] {
            ListItem::Integer(n) => r.push(to_byte(*n)),
            _ => {
                return None;
            },
        }
        i += 1;
    }
    assert(r@ =~= Seq::new(all.len(), |k: int| low_byte(all[k]->Integer_0)));
    Some(r)
}

fn colors(items: &Vec<ListItem>) -> (r: Vec<u8>)
    ensures
        r@ == color_parts(items.deep_view()),
{
    let ghost all = items.deep_view();
    let mut r: Vec<u8> = Vec::new();
    let mut i: usize = 0;
    while i < items.len()
        invariant
            i <= items@.len(),
            all == items.deep_view(),
            r@.len() == i,
            forall|k: int| 0 <= k < i ==> (#[trigger] r@[k]) == color_parts(all)[k],
        decreases items@.len() - i,
    {
        assert(all[i as int] == items@[i as int].deep_view());
        match &items[i] {
            ListItem::Integer(n) => r.push(to_byte(*n)),
            _ => r.push(0),
        }
        i += 1;
    }
    assert(r@ =~= color_parts(all));
    r
}

fn texts(items: &Vec<ListItem>) -> (r: Vec<String>)
    ensures
        r.deep_view() == texts_in(items.deep_view()),
{
    let ghost all = items.deep_view();
    let mut r: Vec<String> = Vec::new();
    let mut i: usize = 0;
    assert(r.deep_view() =~= texts_in(all.take(0)));
    while i < items.len()
        invariant
            i <= items@.len(),
            all == items.deep_view(),
            r.deep_view() == texts_in(all.take(i as int)),
        decreases items@.len() - i,
    {
        assert(all.take(i + 1).drop_last() == all.take(i as int));
        assert(all.take(i + 1).last() == items@[i as int].deep_view());
        if let ListItem::Text(s) = &items[i] {
            let ghost before = r.deep_view();
            r.push(s.clone());
            assert(r.deep_view() =~= before.push(s@));
        }
        i += 1;
    }
    assert(all.take(i as int) == all);
    r
}

/// A turn about the centre that leaves the corners transparent.
pub open spec fn simple_turn(degrees: i32) -> FilterView {
    FilterView::Rotate { degrees, center: None, fill: RotateFill::Transparent }
}

/// The number under `name`, or the filter's complaint that it is missing.
pub open spec fn needed(
    args: Seq<(Seq<char>, ValueView)>,
    name: Seq<char>,
    message: Seq<char>,
) -> Result<Scalar, ErrorView> {
    match float_arg(args, name) {
        Some(f) => Ok(f),
        None => Err(ErrorView::Requires(message)),
    }
}

/// The fraction under `name`, or `default`.
pub open spec fn float_or(args: Seq<(Seq<char>, ValueView)>, name: Seq<char>, default: u32) -> Scalar {
    match float_arg(args, name) {
        Some(f) => f,
        None => Scalar { bits: default },
    }
}

/// The crop that the arguments name, or what is wrong with them.
pub open spec fn crop_named(args: Seq<(Seq<char>, ValueView)>) -> Result<FilterView, ErrorView> {
    match needed(args, "width"@, "Crop filter requires args.width"@) {
        Ok(width) => match needed(args, "height"@, "Crop filter requires args.height"@) {
            Ok(height) => Ok(
                FilterView::Crop {
                    x: float_or(args, "x"@, 0),
                    y: float_or(args, "y"@, 0),
                    width,
                    height,
                },
            ),
            Err(e) => Err(e),
        },
        Err(e) => Err(e),
    }
}

/// The border that the arguments name, or what is wrong with them.
pub open spec fn border_named(args: Seq<(Seq<char>, ValueView)>) -> Result<FilterView, ErrorView> {
    match integer_arg(args, "thickness"@) {
        Some(n) => match list_arg(args, "color"@) {
            Some(items) => if items.len() == 4 {
                let c = color_parts(items);
                Ok(
                    FilterView::Border {
                        thickness: low_word(n),
                        color: Rgba { r: c[0], g: c[1], b: c[2], a: c[3] },
                    },
                )
            } else {
                Err(ErrorView::ColorNotFourParts)
            },
            None => Err(
                ErrorView::Requires("Border filter requires args.color as [r,g,b,a]"@),
            ),
        },
        None => Err(ErrorView::Requires("Border filter requires args.thickness"@)),
    }
}

/// The filter that `kind` names for the photo in focus.
pub open spec fn filter_named(kind: Seq<char>, args: Seq<(Seq<char>, ValueView)>) -> Result<
    FilterView,
    ErrorView,
> {
    if kind == "RotateRight"@ {
        Ok(simple_turn(90))
    } else if kind == "RotateLeft"@ {
        Ok(simple_turn(270))
    } else if kind == "Rotate180"@ {
        Ok(simple_turn(180))
    } else if kind == "Rotate"@ {
        match integer_arg(args, "degrees"@) {
            Some(n) => Ok(simple_turn(low_signed_word(n))),
            None => Err(ErrorView::Requires("Rotate filter requires args.degrees"@)),
        }
    } else if kind == "FlipHorizontal"@ {
        Ok(FilterView::FlipHorizontal)
    } else if kind == "FlipVertical"@ {
        Ok(FilterView::FlipVertical)
    } else if kind == "Exposure"@ {
        match needed(args, "stops"@, "Exposure filter requires args.stops"@) {
            Ok(stops) => Ok(FilterView::Exposure { stops }),
            Err(e) => Err(e),
        }
    } else if kind == "Contrast"@ {
        match needed(args, "factor"@, "Contrast filter requires args.factor"@) {
            Ok(factor) => Ok(FilterView::Contrast { factor }),
            Err(e) => Err(e),
        }
    } else if kind == "Scale"@ {
        match needed(args, "factor"@, "Scale filter requires args.factor"@) {
            Ok(factor) => Ok(FilterView::Scale { factor }),
            Err(e) => Err(e),
        }
    } else if kind == "Crop"@ {
        crop_named(args)
    } else if kind == "CapSize"@ {
        match integer_arg(args, "max_px"@) {
            Some(n) => Ok(FilterView::CapSize { max_px: low_word(n) }),
            None => Err(ErrorView::Requires("CapSize filter requires args.max_px"@)),
        }
    } else if kind == "Border"@ {
        border_named(args)
    } else if kind == "Sharpen"@ {
        match needed(args, "amount"@, "Sharpen filter requires args.amount"@) {
            Ok(amount) => Ok(FilterView::Sharpen { amount }),
            Err(e) => Err(e),
        }
    } else if kind == "MicroContrast"@ {
        match needed(args, "amount"@, "MicroContrast filter requires args.amount"@) {
            Ok(amount) => Ok(FilterView::MicroContrast { amount }),
            Err(e) => Err(e),
        }
    } else if kind == "Curves"@ {
        Ok(FilterView::Curves { r: Seq::empty(), g: Seq::empty(), b: Seq::empty() })
    } else {
        Err(ErrorView::UnknownFilter(kind))
    }
}

/// The filter that `kind` names for all photos.
pub open spec fn filter_named_for_all(kind: Seq<char>, args: Seq<(Seq<char>, ValueView)>) -> Result<
    FilterView,
    ErrorView,
> {
    if kind == "RotateRight"@ {
        Ok(simple_turn(90))
    } else if kind == "RotateLeft"@ {
        Ok(simple_turn(270))
    } else if kind == "Rotate180"@ {
        Ok(simple_turn(180))
    } else if kind == "FlipHorizontal"@ {
        Ok(FilterView::FlipHorizontal)
    } else if kind == "FlipVertical"@ {
        Ok(FilterView::FlipVertical)
    } else if kind == "Sharpen"@ {
        Ok(FilterView::Sharpen { amount: float_or(args, "amount"@, ONE_BITS) })
    } else if kind == "MicroContrast"@ {
        Ok(FilterView::MicroContrast { amount: float_or(args, "amount"@, HALF_BITS) })
    } else {
        Err(ErrorView::UnknownFilterForAll(kind))
    }
}

/// The direction under `name`, or what is wrong with it.
pub open spec fn direction_named(args: Seq<(Seq<char>, ValueView)>, message: Seq<char>) -> Result<
    Direction,
    ErrorView,
> {
    match text_arg(args, "direction"@) {
        Some(s) => if s == "next"@ {
            Ok(Direction::Next)
        } else if s == "prev"@ {
            Ok(Direction::Prev)
        } else {
            Err(ErrorView::UnknownDirection(s))
        },
        None => Err(ErrorView::Requires(message)),
    }
}

/// The change of mode that the arguments name, or what is wrong with them.
pub open spec fn mode_named(args: Seq<(Seq<char>, ValueView)>) -> Result<ActionView, ErrorView> {
    match text_arg(args, "mode"@) {
        Some(s) => if s == "tiling"@ {
            Ok(ActionView::SwitchMode { mode: ModeTarget::Tiling })
        } else if s == "single"@ {
            Ok(ActionView::SwitchMode { mode: ModeTarget::Single })
        } else if s == "toggle"@ {
            Ok(ActionView::SwitchMode { mode: ModeTarget::Toggle })
        } else {
            Err(ErrorView::UnknownMode(s))
        },
        None => Err(ErrorView::Requires("SwitchMode requires args.mode"@)),
    }
}

/// The script that the arguments name, or what is wrong with them. A script without arguments of
/// its own gets the photo's path.
pub open spec fn script_named(args: Seq<(Seq<char>, ValueView)>) -> Result<ActionView, ErrorView> {
    match text_arg(args, "path"@) {
        Some(path) => Ok(
            ActionView::RunScript {
                path,
                args: match list_arg(args, "args"@) {
                    Some(items) => texts_in(items),
                    None => seq!["%p"@],
                },
                pass_filters_stdin: is_set(args, "pass_filters_stdin"@),
            },
        ),
        None => Err(ErrorView::Requires("RunScript requires args.path"@)),
    }
}

/// How many photos to move by: at least one, and one where nothing is said.
pub open spec fn count_of(args: Seq<(Seq<char>, ValueView)>) -> usize {
    match integer_arg(args, "count"@) {
        Some(n) => if n >= 1 {
            n as usize
        } else {
            1
        },
        None => 1,
    }
}

/// The action that the configuration names, or what is wrong with it.
pub open spec fn action_named(action: Seq<char>, args: Seq<(Seq<char>, ValueView)>) -> Result<
    ActionView,
    ErrorView,
> {
    if action == "Navigate"@ {
        match direction_named(args, "Navigate requires args.direction"@) {
            Ok(direction) => Ok(ActionView::Navigate { direction, count: count_of(args) }),
            Err(e) => Err(e),
        }
    } else if action == "SwitchMode"@ {
        mode_named(args)
    } else if action == "ToggleSlideshow"@ {
        Ok(ActionView::ToggleSlideshow)
    } else if action == "ToggleFilterSidebar"@ {
        Ok(ActionView::ToggleFilterSidebar)
    } else if action == "Quit"@ {
        Ok(ActionView::Quit)
    } else if action == "CycleRating"@ {
        match list_arg(args, "values"@) {
            Some(items) => match ratings_of(items) {
                Some(values) => Ok(ActionView::CycleRating { values }),
                None => Err(ErrorView::ValuesNotIntegers),
            },
            None => Err(ErrorView::Requires("CycleRating requires args.values"@)),
        }
    } else if action == "RunScript"@ {
        script_named(args)
    } else if action == "ApplyFilter"@ {
        match text_arg(args, "filter"@) {
            Some(kind) => match filter_named(kind, args) {
                Ok(filter) => Ok(ActionView::ApplyFilter { filter }),
                Err(e) => Err(e),
            },
            None => Err(ErrorView::Requires("ApplyFilter requires args.filter"@)),
        }
    } else if action == "ZoomTiling"@ {
        match integer_arg(args, "delta"@) {
            Some(n) => Ok(ActionView::ZoomTiling { delta: low_signed_word(n) }),
            None => Err(ErrorView::Requires("ZoomTiling requires args.delta"@)),
        }
    } else if action == "CycleBackground"@ {
        Ok(ActionView::CycleBackground)
    } else if action == "ToggleHistogram"@ {
        Ok(ActionView::ToggleHistogram)
    } else if action == "ZoomSingle"@ {
        match float_arg(args, "delta"@) {
            Some(delta) => Ok(ActionView::ZoomSingle { delta }),
            None => Err(ErrorView::Requires("ZoomSingle requires args.delta"@)),
        }
    } else if action == "ZoomSingleFit"@ {
        Ok(ActionView::ZoomSingleFit)
    } else if action == "ZoomSingleToOne"@ {
        Ok(ActionView::ZoomSingleToOne)
    } else if action == "ToggleFullscreen"@ {
        Ok(ActionView::ToggleFullscreen)
    } else if action == "ApplyFilterToAll"@ {
        match text_arg(args, "filter"@) {
            Some(kind) => match filter_named_for_all(kind, args) {
                Ok(filter) => Ok(ActionView::ApplyFilterToAll { filter }),
                Err(e) => Err(e),
            },
            None => Err(ErrorView::Requires("ApplyFilterToAll requires args.filter"@)),
        }
    } else if action == "NavigateTilingRow"@ {
        match direction_named(args, "NavigateTilingRow requires args.direction"@) {
            Ok(direction) => Ok(ActionView::NavigateTilingRow { direction }),
            Err(e) => Err(e),
        }
    } else if action == "ToggleAnnotations"@ {
        Ok(ActionView::ToggleAnnotations)
    } else {
        Err(ErrorView::UnknownAction(action))
    }
}

/// The contents of what came of reading a filter.
pub open spec fn filter_outcome(r: Result<Filter, BindingError>) -> Result<FilterView, ErrorView> {
    match r {
        Ok(f) => Ok(f.deep_view()),
        Err(e) => Err(e.deep_view()),
    }
}

/// The contents of what came of reading an action.
pub open spec fn action_outcome(r: Result<Action, BindingError>) -> Result<ActionView, ErrorView> {
    match r {
        Ok(a) => Ok(a.deep_view()),
        Err(e) => Err(e.deep_view()),
    }
}

fn turn_by(degrees: i32) -> (f: Filter)
    ensures
        f.deep_view() == simple_turn(degrees),
{
    Filter::Rotate { degrees, center: None, fill: RotateFill::Transparent }
}

fn or_default(found: Option<Scalar>, default: Scalar) -> (f: Scalar)
    ensures
        f == match found {
            Some(v) => v,
            None => default,
        },
{
    match found {
        Some(v) => v,
        None => default,
    }
}

fn border_from(args: &Vec<Arg>) -> (r: Result<Filter, BindingError>)
    ensures
        filter_outcome(r) == border_named(args.deep_view()),
{
    let thickness = match find_integer(args, "thickness") {
        Some(n) => to_word(n),
        None => {
            return Err(BindingError::Requires("Border filter requires args.thickness"));
        },
    };
    match find_list(args, "color") {
        Some(items) => {
            let c = colors(items);
            if c.len() == 4 {
                Ok(Filter::Border { thickness, color: Rgba { r: c[0], g: c[1], b: c[2], a: c[3] } })
            } else {
                Err(BindingError::ColorNotFourParts)
            }
        },
        None => Err(BindingError::Requires("Border filter requires args.color as [r,g,b,a]")),
    }
}

fn crop_from(args: &Vec<Arg>) -> (r: Result<Filter, BindingError>)
    ensures
        filter_outcome(r) == crop_named(args.deep_view()),
{
    let x = or_default(find_float(args, "x"), Scalar::zero());
    let y = or_default(find_float(args, "y"), Scalar::zero());
    let width = match find_float(args, "width") {
        Some(w) => w,
        None => {
            return Err(BindingError::Requires("Crop filter requires args.width"));
        },
    };
    match find_float(args, "height") {
        Some(height) => Ok(Filter::Crop { x, y, width, height }),
        None => Err(BindingError::Requires("Crop filter requires args.height")),
    }
}

fn amount_named(args: &Vec<Arg>, name: &'static str, message: &'static str) -> (r: Result<
    Scalar,
    BindingError,
>)
    ensures
        match r {
            Ok(f) => needed(args.deep_view(), name@, message@) == Ok::<Scalar, ErrorView>(f),
            Err(e) => needed(args.deep_view(), name@, message@) == Err::<Scalar, ErrorView>(
                e.deep_view(),
            ),
        },
{
    match find_float(args, name) {
        Some(f) => Ok(f),
        None => Err(BindingError::Requires(message)),
    }
}

fn filter_from(kind: &str, args: &Vec<Arg>) -> (r: Result<Filter, BindingError>)
    ensures
        filter_outcome(r) == filter_named(kind@, args.deep_view()),
{
    if text::same(kind, "RotateRight") {
        Ok(turn_by(90))
    } else if text::same(kind, "RotateLeft") {
        Ok(turn_by(270))
    } else if text::same(kind, "Rotate180") {
        Ok(turn_by(180))
    } else if text::same(kind, "Rotate") {
        match find_integer(args, "degrees") {
            Some(n) => Ok(turn_by(to_signed_word(n))),
            None => Err(BindingError::Requires("Rotate filter requires args.degrees")),
        }
    } else if text::same(kind, "FlipHorizontal") {
        Ok(Filter::FlipHorizontal)
    } else if text::same(kind, "FlipVertical") {
        Ok(Filter::FlipVertical)
    } else if text::same(kind, "Exposure") {
        match amount_named(args, "stops", "Exposure filter requires args.stops") {
            Ok(stops) => Ok(Filter::Exposure { stops }),
            Err(e) => Err(e),
        }
    } else if text::same(kind, "Contrast") {
        match amount_named(args, "factor", "Contrast filter requires args.factor") {
            Ok(factor) => Ok(Filter::Contrast { factor }),
            Err(e) => Err(e),
        }
    } else if text::same(kind, "Scale") {
        match amount_named(args, "factor", "Scale filter requires args.factor") {
            Ok(factor) => Ok(Filter::Scale { factor }),
            Err(e) => Err(e),
        }
    } else if text::same(kind, "Crop") {
        crop_from(args)
    } else if text::same(kind, "CapSize") {
        match find_integer(args, "max_px") {
            Some(n) => Ok(Filter::CapSize { max_px: to_word(n) }),
            None => Err(BindingError::Requires("CapSize filter requires args.max_px")),
        }
    } else if text::same(kind, "Border") {
        border_from(args)
    } else if text::same(kind, "Sharpen") {
        match amount_named(args, "amount", "Sharpen filter requires args.amount") {
            Ok(amount) => Ok(Filter::Sharpen { amount }),
            Err(e) => Err(e),
        }
    } else if text::same(kind, "MicroContrast") {
        match amount_named(args, "amount", "MicroContrast filter requires args.amount") {
            Ok(amount) => Ok(Filter::MicroContrast { amount }),
            Err(e) => Err(e),
        }
    } else if text::same(kind, "Curves") {
        let f = Filter::Curves { r: Vec::new(), g: Vec::new(), b: Vec::new() };
        assert(f->Curves_r@ =~= Seq::empty());
        assert(f->Curves_g@ =~= Seq::empty());
        assert(f->Curves_b@ =~= Seq::empty());
        Ok(f)
    } else {
        Err(BindingError::UnknownFilter(kind.to_owned()))
    }
}

fn filter_for_all_from(kind: &str, args: &Vec<Arg>) -> (r: Result<Filter, BindingError>)
    ensures
        filter_outcome(r) == filter_named_for_all(kind@, args.deep_view()),
{
    if text::same(kind, "RotateRight") {
        Ok(turn_by(90))
    } else if text::same(kind, "RotateLeft") {
        Ok(turn_by(270))
    } else if text::same(kind, "Rotate180") {
        Ok(turn_by(180))
    } else if text::same(kind, "FlipHorizontal") {
        Ok(Filter::FlipHorizontal)
    } else if text::same(kind, "FlipVertical") {
        Ok(Filter::FlipVertical)
    } else if text::same(kind, "Sharpen") {
        Ok(Filter::Sharpen { amount: or_default(find_float(args, "amount"), Scalar::one()) })
    } else if text::same(kind, "MicroContrast") {
        Ok(Filter::MicroContrast { amount: or_default(find_float(args, "amount"), Scalar::half()) })
    } else {
        Err(BindingError::UnknownFilterForAll(kind.to_owned()))
    }
}

fn direction_from(args: &Vec<Arg>, message: &'static str) -> (r: Result<Direction, BindingError>)
    ensures
        match r {
            Ok(d) => direction_named(args.deep_view(), message@) == Ok::<Direction, ErrorView>(d),
            Err(e) => direction_named(args.deep_view(), message@) == Err::<Direction, ErrorView>(
                e.deep_view(),
            ),
        },
{
    match find_text(args, "direction") {
        Some(s) => {
            if text::same(s, "next") {
                Ok(Direction::Next)
            } else if text::same(s, "prev") {
                Ok(Direction::Prev)
            } else {
                Err(BindingError::UnknownDirection(s.to_owned()))
            }
        },
        None => Err(BindingError::Requires(message)),
    }
}

fn mode_from(args: &Vec<Arg>) -> (r: Result<Action, BindingError>)
    ensures
        action_outcome(r) == mode_named(args.deep_view()),
{
    match find_text(args, "mode") {
        Some(s) => {
            if text::same(s, "tiling") {
                Ok(Action::SwitchMode { mode: ModeTarget::Tiling })
            } else if text::same(s, "single") {
                Ok(Action::SwitchMode { mode: ModeTarget::Single })
            } else if text::same(s, "toggle") {
                Ok(Action::SwitchMode { mode: ModeTarget::Toggle })
            } else {
                Err(BindingError::UnknownMode(s.to_owned()))
            }
        },
        None => Err(BindingError::Requires("SwitchMode requires args.mode")),
    }
}

fn script_from(args: &Vec<Arg>) -> (r: Result<Action, BindingError>)
    ensures
        action_outcome(r) == script_named(args.deep_view()),
{
    match find_text(args, "path") {
        Some(path) => {
            let list = match find_list(args, "args") {
                Some(items) => texts(items),
                None => {
                    let mut v: Vec<String> = Vec::new();
                    v.push("%p".to_owned());
                    assert(v.deep_view() =~= seq!["%p"@]);
                    v
                },
            };
            let pass_filters_stdin = match find(args, "pass_filters_stdin") {
                Some(ArgValue::Boolean(b)) => *b,
                _ => false,
            };
            Ok(Action::RunScript { path: path.to_owned(), args: list, pass_filters_stdin })
        },
        None => Err(BindingError::Requires("RunScript requires args.path")),
    }
}

impl Action {
    /// The action that the configuration names.
    pub fn from_binding(action: &str, args: &Vec<Arg>) -> (r: Result<Self, BindingError>)
        ensures
            action_outcome(r) == action_named(action@, args.deep_view()),
    {
        if text::same(action, "Navigate") {
            match direction_from(args, "Navigate requires args.direction") {
                Ok(direction) => {
                    let count = match find_integer(args, "count") {
                        Some(n) => {
                            if n >= 1 {
                                n as usize
                            } else {
                                1
                            }
                        },
                        None => 1,
                    };
                    Ok(Action::Navigate { direction, count })
                },
                Err(e) => Err(e),
            }
        } else if text::same(action, "SwitchMode") {
            mode_from(args)
        } else if text::same(action, "ToggleSlideshow") {
            Ok(Action::ToggleSlideshow)
        } else if text::same(action, "ToggleFilterSidebar") {
            Ok(Action::ToggleFilterSidebar)
        } else if text::same(action, "Quit") {
            Ok(Action::Quit)
        } else if text::same(action, "CycleRating") {
            match find_list(args, "values") {
                Some(items) => match ratings(items) {
                    Some(values) => Ok(Action::CycleRating { values }),
                    None => Err(BindingError::ValuesNotIntegers),
                },
                None => Err(BindingError::Requires("CycleRating requires args.values")),
            }
        } else if text::same(action, "RunScript") {
            script_from(args)
        } else if text::same(action, "ApplyFilter") {
            match find_text(args, "filter") {
                Some(kind) => match filter_from(kind, args) {
                    Ok(filter) => Ok(Action::ApplyFilter { filter }),
                    Err(e) => Err(e),
                },
                None => Err(BindingError::Requires("ApplyFilter requires args.filter")),
            }
        } else if text::same(action, "ZoomTiling") {
            match find_integer(args, "delta") {
                Some(n) => Ok(Action::ZoomTiling { delta: to_signed_word(n) }),
                None => Err(BindingError::Requires("ZoomTiling requires args.delta")),
            }
        } else if text::same(action, "CycleBackground") {
            Ok(Action::CycleBackground)
        } else if text::same(action, "ToggleHistogram") {
            Ok(Action::ToggleHistogram)
        } else if text::same(action, "ZoomSingle") {
            match find_float(args, "delta") {
                Some(delta) => Ok(Action::ZoomSingle { delta }),
                None => Err(BindingError::Requires("ZoomSingle requires args.delta")),
            }
        } else if text::same(action, "ZoomSingleFit") {
            Ok(Action::ZoomSingleFit)
        } else if text::same(action, "ZoomSingleToOne") {
            Ok(Action::ZoomSingleToOne)
        } else if text::same(action, "ToggleFullscreen") {
            Ok(Action::ToggleFullscreen)
        } else if text::same(action, "ApplyFilterToAll") {
            match find_text(args, "filter") {
                Some(kind) => match filter_for_all_from(kind, args) {
                    Ok(filter) => Ok(Action::ApplyFilterToAll { filter }),
                    Err(e) => Err(e),
                },
                None => Err(BindingError::Requires("ApplyFilterToAll requires args.filter")),
            }
        } else if text::same(action, "NavigateTilingRow") {
            match direction_from(args, "NavigateTilingRow requires args.direction") {
                Ok(direction) => Ok(Action::NavigateTilingRow { direction }),
                Err(e) => Err(e),
            }
        } else if text::same(action, "ToggleAnnotations") {
            Ok(Action::ToggleAnnotations)
        } else {
            Err(BindingError::UnknownAction(action.to_owned()))
        }
    }
}

} // verus!
