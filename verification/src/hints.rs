//! The hints of a notification: its urgency and its image.

use crate::image::{
    icon_file, icon_path, image_from_data, opt_picture, picture, raw_picture, themed_icon,
    themed_name, Picture,
};
use crate::notification::Urgency;
use crate::text::opt_text;
use damascene_core::image::Image;
use vstd::prelude::*;

verus! {

/// The value of a hint, as far as hints are read.
#[derive(Debug)]
pub enum HintValue {
    Byte(u8),
    Int32(i32),
    Bool(bool),
    Text(String),
    Bytes(Vec<u8>),
    Structure(Vec<HintValue>),
    /// A value of any other type.
    Other,
}

/// A hint: its name and its value.
#[derive(Debug)]
struct Hint {
    name: String,
    value: HintValue,
}

/// The hints of a notification, one value for each name.
#[derive(Debug)]
pub struct Hints {
    entries: Vec<Hint>,
}

impl Hints {
    /// Whether entry `i` has the given name.
    spec fn named(self, i: int, name: Seq<char>) -> bool {
        0 <= i < self.entries@.len() && self.entries@[i].name@ == name
    }

    /// No name stands twice.
    pub closed spec fn wf(self) -> bool {
        forall|i: int, j: int, name: Seq<char>| #[trigger]
            self.named(i, name) && #[trigger] self.named(j, name) ==> i == j
    }
}

impl View for Hints {
    type V = Map<Seq<char>, HintValue>;

    closed spec fn view(&self) -> Map<Seq<char>, HintValue> {
        Map::new(
            |name: Seq<char>| exists|i: int| self.named(i, name),
            |name: Seq<char>| self.entries@[choose|i: int| self.named(i, name)].value,
        )
    }
}

impl Hints {
    /// No hints.
    pub fn new() -> (hints: Hints)
        ensures
            hints.wf(),
            hints@ == Map::<Seq<char>, HintValue>::empty(),
    {
        let hints = Hints { entries: Vec::new() };
        assert(hints@ =~= Map::<Seq<char>, HintValue>::empty());
        hints
    }

    /// Where the hint with the given name stands.
    fn position(&self, name: &str) -> (position: Option<usize>)
        ensures
            position matches Some(i) ==> self.named(i as int, name@),
            position is None ==> forall|i: int| !self.named(i, name@),
    {
        let mut at: usize = 0;
        while at < self.entries.len()
            invariant
                at <= self.entries@.len(),
                forall|i: int| 0 <= i < at ==> !self.named(i, name@),
            decreases self.entries@.len() - at,
        {
            if *self.entries[at].name.as_str() == *name {
                return Some(at);
            }
            at = at + 1;
        }
        None
    }

    /// Sets the value of a hint; it takes the place of an earlier one.
    pub fn insert(&mut self, name: String, value: HintValue)
        requires
            old(self).wf(),
        ensures
            final(self).wf(),
            final(self)@ == old(self)@.insert(name@, value),
    {
        let ghost before = *self;
        let ghost key = name@;
        match self.position(name.as_str()) {
            Some(at) => {
                self.entries[at] = Hint { name, value };
                assert forall|i: int, k: Seq<char>| #[trigger]
                    self.named(i, k) == before.named(i, k) by {}
                assert(before.named(at as int, key));
                assert(self.named(at as int, key));
            },
            None => {
                self.entries.push(Hint { name, value });
                let ghost last = self.entries@.len() - 1;
                assert(self.named(last, key));
                assert forall|i: int, k: Seq<char>| #[trigger] self.named(i, k) implies (if i
                    == last {
                    k == key
                } else {
                    before.named(i, k)
                }) by {}
                assert forall|i: int, k: Seq<char>| #[trigger] before.named(i, k) implies self.named(
                    i,
                    k,
                ) by {}
            },
        }
        assert(self.wf());
        assert(self@ =~= before@.insert(key, value)) by {
            assert forall|k: Seq<char>| self@.contains_key(k) == before@.insert(
                key,
                value,
            ).contains_key(k) by {
                if before@.contains_key(k) {
                    let i = choose|i: int| before.named(i, k);
                    assert(self.named(i, k));
                }
                if self@.contains_key(k) && k != key {
                    let i = choose|i: int| self.named(i, k);
                    assert(before.named(i, k));
                }
            }
            assert forall|k: Seq<char>| self@.contains_key(k) implies self@[k] == before@.insert(
                key,
                value,
            )[k] by {
                let i = choose|i: int| self.named(i, k);
                assert(self.named(i, k));
                if k != key {
                    assert(before.named(i, k));
                    let j = choose|j: int| before.named(j, k);
                    assert(before.named(j, k));
                    assert(i == j);
                }
            }
        }
    }

    /// The value of a hint.
    pub fn get(&self, name: &str) -> (value: Option<&HintValue>)
        requires
            self.wf(),
        ensures
            value is Some <==> self@.contains_key(name@),
            value matches Some(value) ==> *value == self@[name@],
    {
        match self.position(name) {
            Some(at) => {
                assert(self.named(at as int, name@));
                Some(&self.entries[at].value)
            },
            None => None,
        }
    }
}

/// The urgency that the hints ask for: byte 0 is low, byte 2 is critical, anything else normal.
pub open spec fn urgency_of(hints: Map<Seq<char>, HintValue>) -> Urgency {
    if !hints.contains_key("urgency"@) {
        Urgency::Normal
    } else if hints["urgency"@] == HintValue::Byte(0) {
        Urgency::Low
    } else if hints["urgency"@] == HintValue::Byte(2) {
        Urgency::Critical
    } else {
        Urgency::Normal
    }
}

/// The urgency that the hints ask for.
pub fn urgency_hint(hints: &Hints) -> (urgency: Urgency)
    requires
        hints.wf(),
    ensures
        urgency == urgency_of(hints@),
{
    match hints.get("urgency") {
        Some(HintValue::Byte(0)) => Urgency::Low,
        Some(HintValue::Byte(2)) => Urgency::Critical,
        _ => Urgency::Normal,
    }
}

/// The picture of an image structure: width, height, row stride, whether it has alpha, bits per
/// sample, channels and the raw data, in this order and of these types.
pub open spec fn value_picture(value: HintValue) -> Option<Picture> {
    match value {
        HintValue::Structure(fields) => if fields@.len() != 7 {
            None
        } else {
            match (fields@[0], fields@[1], fields@[2], fields@[3], fields@[4], fields@[5], fields@[6]) {
                (
                    HintValue::Int32(width),
                    HintValue::Int32(height),
                    HintValue::Int32(rowstride),
                    HintValue::Bool(has_alpha),
                    HintValue::Int32(bits_per_sample),
                    HintValue::Int32(channels),
                    HintValue::Bytes(data),
                ) => raw_picture(
                    width,
                    height,
                    rowstride,
                    has_alpha,
                    bits_per_sample,
                    channels,
                    data@,
                ),
                _ => None,
            }
        },
        _ => None,
    }
}

/// Decodes the `(iiibiiay)` image structure of a hint.
pub fn image_from_value(value: &HintValue) -> (image: Option<Image>)
    ensures
        opt_picture(image) == value_picture(*value),
{
    match value {
        HintValue::Structure(fields) => {
            if fields.len() != 7 {
                return None;
            }
            match (&fields[0], &fields[1], &fields[2], &fields[3], &fields[4], &fields[5], &fields[6]) {
                (
                    HintValue::Int32(width),
                    HintValue::Int32(height),
                    HintValue::Int32(rowstride),
                    HintValue::Bool(has_alpha),
                    HintValue::Int32(bits_per_sample),
                    HintValue::Int32(channels),
                    HintValue::Bytes(data),
                ) => image_from_data(
                    *width,
                    *height,
                    *rowstride,
                    *has_alpha,
                    *bits_per_sample,
                    *channels,
                    data.as_slice(),
                ),
                _ => None,
            }
        },
        _ => None,
    }
}

/// A place that the image of a notification may come from.
pub enum Source {
    /// Raw pixels in a hint, if there are any.
    Pixels(Option<Picture>),
    /// A file that a reference names, if it names one.
    File(Option<Seq<char>>),
}

/// The number of places that an image may come from.
pub const SOURCES: usize = 6;

/// The raw pixels of the hint with the given name.
pub open spec fn pixels_of(hints: Map<Seq<char>, HintValue>, name: Seq<char>) -> Option<Picture> {
    if hints.contains_key(name) {
        value_picture(hints[name])
    } else {
        None
    }
}

/// The text of the hint with the given name.
pub open spec fn text_of(hints: Map<Seq<char>, HintValue>, name: Seq<char>) -> Option<Seq<char>> {
    if hints.contains_key(name) {
        match hints[name] {
            HintValue::Text(text) => Some(text@),
            _ => None,
        }
    } else {
        None
    }
}

/// The file that the hint with the given name refers to.
pub open spec fn file_of(hints: Map<Seq<char>, HintValue>, name: Seq<char>) -> Option<Seq<char>> {
    match text_of(hints, name) {
        Some(reference) => icon_path(reference),
        None => None,
    }
}

/// The themed icon that the hint with the given name refers to.
pub open spec fn themed_of(hints: Map<Seq<char>, HintValue>, name: Seq<char>) -> Option<Seq<char>> {
    match text_of(hints, name) {
        Some(reference) => themed_name(reference),
        None => None,
    }
}

/// The places that an image may come from, in the order in which they are tried: the `image-data`
/// hint, the `image-path` hint, the `app_icon` parameter and the `icon_data` hint; the underscore
/// spellings of the first two follow them.
pub open spec fn source(hints: Map<Seq<char>, HintValue>, app_icon: Seq<char>, i: nat) -> Source {
    if i == 0 {
        Source::Pixels(pixels_of(hints, "image-data"@))
    } else if i == 1 {
        Source::Pixels(pixels_of(hints, "image_data"@))
    } else if i == 2 {
        Source::File(file_of(hints, "image-path"@))
    } else if i == 3 {
        Source::File(file_of(hints, "image_path"@))
    } else if i == 4 {
        Source::File(icon_path(app_icon))
    } else {
        Source::Pixels(pixels_of(hints, "icon_data"@))
    }
}

/// The themed icon that a place refers to in lieu of an image.
pub open spec fn themed(
    hints: Map<Seq<char>, HintValue>,
    app_icon: Seq<char>,
    i: nat,
) -> Option<Seq<char>> {
    if i == 2 {
        themed_of(hints, "image-path"@)
    } else if i == 3 {
        themed_of(hints, "image_path"@)
    } else if i == 4 {
        themed_name(app_icon)
    } else {
        None
    }
}

/// The picture that a place gives, where `load` is what comes of loading a file.
pub open spec fn found(source: Source, load: spec_fn(Seq<char>) -> Option<Picture>) -> Option<
    Picture,
> {
    match source {
        Source::Pixels(pixels) => pixels,
        Source::File(Some(path)) => load(path),
        Source::File(None) => None,
    }
}

/// The picture of a notification: that of the first place, from `from` on, that gives one.
pub open spec fn resolved(
    hints: Map<Seq<char>, HintValue>,
    app_icon: Seq<char>,
    from: nat,
    load: spec_fn(Seq<char>) -> Option<Picture>,
) -> Option<Picture>
    decreases SOURCES - from,
{
    if from >= SOURCES {
        None
    } else {
        match found(source(hints, app_icon, from), load) {
            Some(shown) => Some(shown),
            None => resolved(hints, app_icon, from + 1, load),
        }
    }
}

/// What is to be done next to find the image of a notification.
pub enum ImageStep {
    /// This is the image.
    Found(Image),
    /// Load this file; if no image comes of it, go on from `next`.
    Load { path: String, next: usize },
    /// The place names a themed icon, which is not looked up: go on from `next`.
    Themed { name: String, next: usize },
    /// There is no image.
    NotFound,
}

/// What a step says.
pub enum ImageStepView {
    Found(Picture),
    Load { path: Seq<char>, next: nat },
    Themed { name: Seq<char>, next: nat },
    NotFound,
}

impl View for ImageStep {
    type V = ImageStepView;

    open spec fn view(&self) -> ImageStepView {
        match *self {
            ImageStep::Found(image) => ImageStepView::Found(picture(image)),
            ImageStep::Load { path, next } => ImageStepView::Load {
                path: path@,
                next: next as nat,
            },
            ImageStep::Themed { name, next } => ImageStepView::Themed {
                name: name@,
                next: next as nat,
            },
            ImageStep::NotFound => ImageStepView::NotFound,
        }
    }
}

impl ImageStepView {
    /// What the search comes to after this step, where `load` is what comes of loading a file.
    pub open spec fn outcome(
        self,
        hints: Map<Seq<char>, HintValue>,
        app_icon: Seq<char>,
        load: spec_fn(Seq<char>) -> Option<Picture>,
    ) -> Option<Picture> {
        match self {
            ImageStepView::Found(shown) => Some(shown),
            ImageStepView::Load { path, next } => match load(path) {
                Some(shown) => Some(shown),
                None => resolved(hints, app_icon, next, load),
            },
            ImageStepView::Themed { next, .. } => resolved(hints, app_icon, next, load),
            ImageStepView::NotFound => None,
        }
    }
}

/// The next step of the search, from place `from` on: that of the first place that has an image,
/// refers to a file or names a themed icon.
pub open spec fn next_step(
    hints: Map<Seq<char>, HintValue>,
    app_icon: Seq<char>,
    from: nat,
) -> ImageStepView
    decreases SOURCES - from,
{
    if from >= SOURCES {
        ImageStepView::NotFound
    } else {
        match source(hints, app_icon, from) {
            Source::Pixels(Some(shown)) => ImageStepView::Found(shown),
            Source::File(Some(path)) => ImageStepView::Load { path, next: from + 1 },
            _ => match themed(hints, app_icon, from) {
                Some(name) => ImageStepView::Themed { name, next: from + 1 },
                None => next_step(hints, app_icon, from + 1),
            },
        }
    }
}

/// Whatever comes of loading files, the search that starts with the next step comes to the picture
/// of the first place that gives one.
pub proof fn law_steps_find_the_image(
    hints: Map<Seq<char>, HintValue>,
    app_icon: Seq<char>,
    from: nat,
    load: spec_fn(Seq<char>) -> Option<Picture>,
)
    ensures
        next_step(hints, app_icon, from).outcome(hints, app_icon, load) == resolved(
            hints,
            app_icon,
            from,
            load,
        ),
    decreases SOURCES - from,
{
    if from < SOURCES {
        law_steps_find_the_image(hints, app_icon, from + 1, load);
    }
}

/// The raw pixels of the hint with the given name as an image.
fn hint_image(hints: &Hints, name: &str) -> (image: Option<Image>)
    requires
        hints.wf(),
    ensures
        opt_picture(image) == pixels_of(hints@, name@),
{
    match hints.get(name) {
        Some(value) => image_from_value(value),
        None => None,
    }
}

/// The text of the hint with the given name.
fn hint_text<'a>(hints: &'a Hints, name: &str) -> (text: Option<&'a str>)
    requires
        hints.wf(),
    ensures
        text is Some <==> text_of(hints@, name@) is Some,
        text matches Some(text) ==> text@ == text_of(hints@, name@)->0,
{
    match hints.get(name) {
        Some(HintValue::Text(text)) => Some(text.as_str()),
        _ => None,
    }
}

/// Looks for the image of a notification, from place `from` on, up to the first one that has it,
/// that asks for a file to be loaded or that names a themed icon. Whatever comes of loading files,
/// the search that starts with the step returned comes to the picture of the first place that
/// gives one.
pub fn image_hint(hints: &Hints, app_icon: &str, from: usize) -> (step: ImageStep)
    requires
        hints.wf(),
    ensures
        step@ == next_step(hints@, app_icon@, from as nat),
        forall|load: spec_fn(Seq<char>) -> Option<Picture>| #[trigger]
            resolved(hints@, app_icon@, from as nat, load) == step@.outcome(
                hints@,
                app_icon@,
                load,
            ),
        step matches ImageStep::Load { path, next } ==> from < next <= SOURCES,
        step matches ImageStep::Themed { name, next } ==> from < next <= SOURCES,
{
    proof {
        assert forall|load: spec_fn(Seq<char>) -> Option<Picture>| #[trigger]
            resolved(hints@, app_icon@, from as nat, load) == next_step(
                hints@,
                app_icon@,
                from as nat,
            ).outcome(hints@, app_icon@, load) by {
            law_steps_find_the_image(hints@, app_icon@, from as nat, load);
        }
    }
    let mut at: usize = from;
    while at < SOURCES
        invariant
            from <= at,
            from < SOURCES ==> at <= SOURCES,
            hints.wf(),
            next_step(hints@, app_icon@, from as nat) == next_step(hints@, app_icon@, at as nat),
            forall|load: spec_fn(Seq<char>) -> Option<Picture>| #[trigger]
                resolved(hints@, app_icon@, from as nat, load) == next_step(
                    hints@,
                    app_icon@,
                    from as nat,
                ).outcome(hints@, app_icon@, load),
        decreases SOURCES - at,
    {
        let ghost here = source(hints@, app_icon@, at as nat);
        if at == 2 || at == 3 || at == 4 {
            let reference = if at == 2 {
                hint_text(hints, "image-path")
            } else if at == 3 {
                hint_text(hints, "image_path")
            } else {
                Some(app_icon)
            };
            if let Some(reference) = reference {
                let file = icon_file(reference);
                assert(here == Source::File(opt_text(file)));
                if let Some(path) = file {
                    return ImageStep::Load { path, next: at + 1 };
                }
                if let Some(name) = themed_icon(reference) {
                    return ImageStep::Themed { name, next: at + 1 };
                }
            }
        } else {
            let image = if at == 0 {
                hint_image(hints, "image-data")
            } else if at == 1 {
                hint_image(hints, "image_data")
            } else {
                hint_image(hints, "icon_data")
            };
            assert(here == Source::Pixels(opt_picture(image)));
            if let Some(image) = image {
                return ImageStep::Found(image);
            }
        }
        at = at + 1;
    }
    ImageStep::NotFound
}

/// The image comes from the first place that gives one: no earlier place does, and that place is
/// not passed over for a later one.
pub proof fn law_first_source_wins(
    hints: Map<Seq<char>, HintValue>,
    app_icon: Seq<char>,
    from: nat,
    at: nat,
    load: spec_fn(Seq<char>) -> Option<Picture>,
)
    requires
        from <= at < SOURCES,
        forall|i: nat|
            from <= i < at ==> found(#[trigger] source(hints, app_icon, i), load) is None,
        found(source(hints, app_icon, at), load) is Some,
    ensures
        resolved(hints, app_icon, from, load) == found(source(hints, app_icon, at), load),
    decreases at - from,
{
    if from < at {
        assert(found(source(hints, app_icon, from), load) is None);
        law_first_source_wins(hints, app_icon, from + 1, at, load);
    }
}

/// There is no image only where no place gives one.
pub proof fn law_no_image_without_source(
    hints: Map<Seq<char>, HintValue>,
    app_icon: Seq<char>,
    from: nat,
    load: spec_fn(Seq<char>) -> Option<Picture>,
)
    ensures
        resolved(hints, app_icon, from, load) is None <==> (forall|i: nat|
            from <= i < SOURCES ==> found(#[trigger] source(hints, app_icon, i), load) is None),
    decreases SOURCES - from,
{
    if from < SOURCES {
        law_no_image_without_source(hints, app_icon, from + 1, load);
        if resolved(hints, app_icon, from, load) is None {
            assert forall|i: nat| from <= i < SOURCES implies found(
                #[trigger] source(hints, app_icon, i),
                load,
            ) is None by {
                if i > from {
                    assert(from + 1 <= i);
                }
            }
        }
    }
}

/// Only a byte tells the urgency: 0 is low, 2 is critical. Anything else, and no hint, is normal.
pub proof fn law_urgency_is_a_byte(hints: Map<Seq<char>, HintValue>)
    ensures
        !hints.contains_key("urgency"@) ==> urgency_of(hints) == Urgency::Normal,
        hints.contains_key("urgency"@) ==> match hints["urgency"@] {
            HintValue::Byte(byte) => {
                &&& urgency_of(hints) == Urgency::Low <==> byte == 0
                &&& urgency_of(hints) == Urgency::Critical <==> byte == 2
                &&& urgency_of(hints) == Urgency::Normal <==> byte != 0 && byte != 2
            },
            _ => urgency_of(hints) == Urgency::Normal,
        },
{
}

/// A structure of three numbers, a flag, two numbers and bytes, in the order of the wire, is the raw
/// image that they tell; no other value is an image.
pub proof fn law_image_structures(value: HintValue)
    ensures
        !(value is Structure) ==> value_picture(value) is None,
        value matches HintValue::Structure(fields) ==> {
            let shape = fields@.len() == 7 && fields@[0] is Int32 && fields@[1] is Int32
                && fields@[2] is Int32 && fields@[3] is Bool && fields@[4] is Int32
                && fields@[5] is Int32 && fields@[6] is Bytes;
            &&& !shape ==> value_picture(value) is None
            &&& shape ==> value_picture(value) == raw_picture(
                fields@[0]->Int32_0,
                fields@[1]->Int32_0,
                fields@[2]->Int32_0,
                fields@[3]->Bool_0,
                fields@[4]->Int32_0,
                fields@[5]->Int32_0,
                fields@[6]->Bytes_0@,
            )
        },
{
}

/// The image comes from `image-data`, `image_data`, `image-path`, `image_path`, the `app_icon`
/// parameter or `icon_data`, tried in this order: a place that gives one is not passed over, and one
/// that gives none is. Each step is that of the first place with pixels, a file or a themed icon.
pub proof fn law_image_order(
    hints: Map<Seq<char>, HintValue>,
    app_icon: Seq<char>,
    from: nat,
    load: spec_fn(Seq<char>) -> Option<Picture>,
)
    ensures
        ({
            let name = if from == 0 {
                "image-data"@
            } else if from == 1 {
                "image_data"@
            } else if from == 2 {
                "image-path"@
            } else if from == 3 {
                "image_path"@
            } else {
                "icon_data"@
            };
            let reference = if from == 4 {
                Some(app_icon)
            } else if hints.contains_key(name) && hints[name] is Text {
                Some(hints[name]->Text_0@)
            } else {
                None
            };
            let here = if from == 0 || from == 1 || from == 5 {
                if hints.contains_key(name) {
                    value_picture(hints[name])
                } else {
                    None
                }
            } else if reference is Some && icon_path(reference->0) is Some {
                load(icon_path(reference->0)->0)
            } else {
                None
            };
            &&& from >= 6 ==> resolved(hints, app_icon, from, load) is None
            &&& from < 6 && here is Some ==> resolved(hints, app_icon, from, load) == here
            &&& from < 6 && here is None ==> resolved(hints, app_icon, from, load) == resolved(
                hints,
                app_icon,
                from + 1,
                load,
            )
            &&& from >= 6 ==> next_step(hints, app_icon, from) == ImageStepView::NotFound
            &&& from == 0 || from == 1 || from == 5 ==> next_step(hints, app_icon, from) == (
            if here is Some {
                ImageStepView::Found(here->0)
            } else {
                next_step(hints, app_icon, from + 1)
            })
            &&& 2 <= from <= 4 ==> next_step(hints, app_icon, from) == (if reference is Some
                && icon_path(reference->0) is Some {
                ImageStepView::Load { path: icon_path(reference->0)->0, next: from + 1 }
            } else if reference is Some && themed_name(reference->0) is Some {
                ImageStepView::Themed { name: themed_name(reference->0)->0, next: from + 1 }
            } else {
                next_step(hints, app_icon, from + 1)
            })
        }),
{
}

/// A step says what its fields say.
pub proof fn law_steps_say_their_fields(image: Image, text: String, next: usize)
    ensures
        ImageStep::Found(image)@ == ImageStepView::Found(picture(image)),
        (ImageStep::Load { path: text, next })@ == (ImageStepView::Load {
            path: text@,
            next: next as nat,
        }),
        (ImageStep::Themed { name: text, next })@ == (ImageStepView::Themed {
            name: text@,
            next: next as nat,
        }),
        ImageStep::NotFound@ == ImageStepView::NotFound,
{
}

/// A file that is loaded is the image if one comes of it; if none does, and where a themed icon is
/// named, the search goes on.
pub proof fn law_search_goes_on(
    hints: Map<Seq<char>, HintValue>,
    app_icon: Seq<char>,
    path: Seq<char>,
    next: nat,
    shown: Picture,
    load: spec_fn(Seq<char>) -> Option<Picture>,
)
    ensures
        ImageStepView::Found(shown).outcome(hints, app_icon, load) == Some(shown),
        (ImageStepView::Load { path, next }).outcome(hints, app_icon, load) == (if load(
            path,
        ) is Some {
            load(path)
        } else {
            resolved(hints, app_icon, next, load)
        }),
        (ImageStepView::Themed { name: path, next }).outcome(hints, app_icon, load) == resolved(
            hints,
            app_icon,
            next,
            load,
        ),
        ImageStepView::NotFound.outcome(hints, app_icon, load) is None,
{
}

} // verus!
