//! Slide-level decisions of the presentation reader.

use vstd::prelude::*;

use crate::text_util::opt_chars;

use vstd::string::StrSliceExecFns;

use crate::error::{warnings_view, ConvertWarning, WarningView};
use crate::ir::elements::ImageFormat;
use crate::text_util::{chars_of, concat2, owned, str_eq};
use crate::xml::{attr_value, get_attr, open_xml, read_xml_event, xml_event_at, XmlEvent, XmlTag};

verus! {

/// The tag of a start or self-closing event.
pub open spec fn event_tag(event: XmlEvent) -> Option<XmlTag> {
    match event {
        XmlEvent::Start(tag) => Some(tag),
        XmlEvent::Empty(tag) => Some(tag),
        _ => None,
    }
}

/// Event `n` of `source` is the first one that `stop` accepts.
pub open spec fn first_stop(source: Seq<char>, n: nat, stop: spec_fn(XmlEvent) -> bool) -> bool {
    &&& stop(xml_event_at(source, n))
    &&& forall|k: nat| k < n ==> !stop(#[trigger] xml_event_at(source, k))
}

/// A tag, or the end of the stream.
pub open spec fn tag_or_end(event: XmlEvent) -> bool {
    event_tag(event) is Some || event.is_terminal()
}

/// The root tag is a slide marked `show="0"` or `show="false"`.
pub open spec fn hides_slide(event: XmlEvent) -> bool {
    match event_tag(event) {
        Some(tag) => tag.name@ == "sld"@ && (attr_value(tag.attrs@, "show"@) == Some("0"@)
            || attr_value(tag.attrs@, "show"@) == Some("false"@)),
        None => false,
    }
}

/// True when the slide's root element is `<p:sld>` with `show="0"` or
/// `show="false"`: PowerPoint omits such hidden slides from PDF export.
pub fn is_hidden_slide(slide_xml: &str) -> (hidden: bool)
    ensures
        exists|n: nat| first_stop(slide_xml@, n, |e: XmlEvent| tag_or_end(e)) && hidden == hides_slide(
            #[trigger] xml_event_at(slide_xml@, n),
        ),
{
    let mut cursor = open_xml(slide_xml);
    loop
        invariant
            cursor.source() == slide_xml@,
            forall|k: nat| k < cursor.consumed() ==> !tag_or_end(#[trigger] xml_event_at(slide_xml@, k)),
        decreases cursor.remaining(),
    {
        let ghost n = cursor.consumed();
        let event = read_xml_event(&mut cursor);
        match &event {
            XmlEvent::Start(tag) | XmlEvent::Empty(tag) => {
                let hidden = str_eq(tag.name.as_str(), "sld") && match get_attr(tag, "show") {
                    Some(v) => str_eq(v.as_str(), "0") || str_eq(v.as_str(), "false"),
                    None => false,
                };
                assert(first_stop(slide_xml@, n, |e: XmlEvent| tag_or_end(e)));
                return hidden;
            },
            XmlEvent::Eof | XmlEvent::Error => {
                assert(first_stop(slide_xml@, n, |e: XmlEvent| tag_or_end(e)));
                return false;
            },
            _ => {},
        }
    }
}

/// A `dataModelExt` tag, or the end of the stream.
pub open spec fn data_model_ext_or_end(event: XmlEvent) -> bool {
    match event_tag(event) {
        Some(tag) => tag.name@ == "dataModelExt"@,
        None => event.is_terminal(),
    }
}

/// The `relId` of a `dataModelExt` tag.
pub open spec fn data_model_rel_id(event: XmlEvent) -> Option<Seq<char>> {
    match event_tag(event) {
        Some(tag) => attr_value(tag.attrs@, "relId"@),
        None => None,
    }
}

/// The relationship id that a SmartArt data part's `<dsp:dataModelExt>`
/// gives for its drawing (`relId`), from the first such tag.
pub fn extract_data_model_ext_rel_id(data_xml: &str) -> (rel_id: Option<String>)
    ensures
        exists|n: nat| first_stop(data_xml@, n, |e: XmlEvent| data_model_ext_or_end(e)) && opt_chars(rel_id)
            == data_model_rel_id(#[trigger] xml_event_at(data_xml@, n)),
{
    let mut cursor = open_xml(data_xml);
    loop
        invariant
            cursor.source() == data_xml@,
            forall|k: nat| k < cursor.consumed() ==> !data_model_ext_or_end(#[trigger] xml_event_at(data_xml@, k)),
        decreases cursor.remaining(),
    {
        let ghost n = cursor.consumed();
        let event = read_xml_event(&mut cursor);
        match &event {
            XmlEvent::Start(tag) | XmlEvent::Empty(tag) => {
                if str_eq(tag.name.as_str(), "dataModelExt") {
                    assert(first_stop(data_xml@, n, |e: XmlEvent| data_model_ext_or_end(e)));
                    return get_attr(tag, "relId");
                }
            },
            XmlEvent::Eof | XmlEvent::Error => {
                assert(first_stop(data_xml@, n, |e: XmlEvent| data_model_ext_or_end(e)));
                return None;
            },
            _ => {},
        }
    }
}

// ── Slide images ────────────────────────────────────────────────────

/// Whether an image of a slide can be rendered, and in which format.
#[derive(Debug, Clone, Copy, PartialEq, Eq, Structural)]
pub enum SlideImageSource {
    Supported(ImageFormat),
    Unsupported,
}

/// Whether a slide's XML hides the slide (what `is_hidden_slide` decides):
/// its first tag is a slide marked hidden.
pub open spec fn slide_hidden(xml: Seq<char>) -> bool {
    exists|n: nat| first_stop(xml, n, |e: XmlEvent| tag_or_end(e)) && hides_slide(#[trigger] xml_event_at(xml, n))
}

proof fn lemma_first_stop_unique(source: Seq<char>, n1: nat, n2: nat, stop: spec_fn(XmlEvent) -> bool)
    requires
        first_stop(source, n1, stop),
        first_stop(source, n2, stop),
    ensures
        n1 == n2,
{
    if n1 < n2 {
        assert(!stop(xml_event_at(source, n1)));
    } else if n2 < n1 {
        assert(!stop(xml_event_at(source, n2)));
    }
}

/// The positions of the slides that are exported, in order: hidden slides
/// are left out.
pub open spec fn exported_indices(slides: Seq<String>, n: nat) -> Seq<usize>
    decreases n,
{
    if n == 0 {
        seq![]
    } else {
        let prev = exported_indices(slides, (n - 1) as nat);
        if slide_hidden(slides[n - 1]@) {
            prev
        } else {
            prev.push((n - 1) as usize)
        }
    }
}

/// The positions of the slides to export, in order, leaving out every
/// hidden slide (PowerPoint omits them from PDF export).
pub fn exported_slide_indices(slide_xmls: &Vec<String>) -> (r: Vec<usize>)
    ensures
        r@ == exported_indices(slide_xmls@, slide_xmls@.len()),
{
    let mut r: Vec<usize> = Vec::new();
    let mut i: usize = 0;
    while i < slide_xmls.len()
        invariant
            0 <= i <= slide_xmls@.len(),
            r@ == exported_indices(slide_xmls@, i as nat),
        decreases slide_xmls@.len() - i,
    {
        let hidden = is_hidden_slide(slide_xmls[i].as_str());
        proof {
            let xml = slide_xmls@[i as int]@;
            let n = choose|n: nat| first_stop(xml, n, |e: XmlEvent| tag_or_end(e)) && hidden == hides_slide(
                #[trigger] xml_event_at(xml, n),
            );
            if slide_hidden(xml) {
                let m = choose|m: nat| first_stop(xml, m, |e: XmlEvent| tag_or_end(e)) && hides_slide(
                    #[trigger] xml_event_at(xml, m),
                );
                lemma_first_stop_unique(xml, n, m, |e: XmlEvent| tag_or_end(e));
            }
            assert(hidden == slide_hidden(xml));
        }
        if !hidden {
            r.push(i);
        }
        i = i + 1;
    }
    r
}

/// An image referenced by a slide relationship: its path in the package,
/// its bytes and whether it can be rendered.
#[derive(Debug)]
pub struct SlideImageAsset {
    pub path: String,
    pub data: Vec<u8>,
    pub source: SlideImageSource,
}

/// The values an image asset holds.
pub ghost struct AssetView {
    pub path: Seq<char>,
    pub data: Seq<u8>,
    pub source: SlideImageSource,
}

impl View for SlideImageAsset {
    type V = AssetView;

    open spec fn view(&self) -> AssetView {
        AssetView { path: self.path@, data: self.data@, source: self.source }
    }
}

/// The part of a path after its last `/` (the whole path if it has none).
pub open spec fn after_last_slash(path: Seq<char>) -> Seq<char>
    decreases path.len(),
{
    if path.len() == 0 {
        path
    } else if path.last() == '/' {
        Seq::empty()
    } else {
        after_last_slash(path.drop_last()).push(path.last())
    }
}

proof fn lemma_after_last_slash(path: Seq<char>, i: int)
    requires
        0 <= i <= path.len(),
        forall|j: int| i <= j < path.len() ==> path[j] != '/',
        i == 0 || path[i - 1] == '/',
    ensures
        after_last_slash(path) == path.subrange(i, path.len() as int),
    decreases path.len(),
{
    if path.len() == i {
        if i > 0 {
            assert(path.last() == '/');
        }
        assert(path.subrange(i, path.len() as int) =~= Seq::<char>::empty());
    } else {
        lemma_after_last_slash(path.drop_last(), i);
        assert(path.subrange(i, path.len() as int) =~= path.drop_last().subrange(i, path.len() - 1).push(path.last()));
    }
}

impl SlideImageAsset {
    /// The image format, where the image is supported.
    pub fn format(&self) -> (format: Option<ImageFormat>)
        ensures
            format == match self.source {
                SlideImageSource::Supported(f) => Some(f),
                SlideImageSource::Unsupported => None,
            },
    {
        match self.source {
            SlideImageSource::Supported(format) => Some(format),
            SlideImageSource::Unsupported => None,
        }
    }

    /// Whether the image can be rendered.
    pub fn is_supported(&self) -> (supported: bool)
        ensures
            supported == self.source is Supported,
    {
        match self.source {
            SlideImageSource::Supported(_) => true,
            SlideImageSource::Unsupported => false,
        }
    }

    /// The file name of the image: its path after the last `/`.
    pub fn file_name(&self) -> (name: &str)
        ensures
            name@ == after_last_slash(self.path@),
    {
        let chars = chars_of(self.path.as_str());
        let mut i: usize = chars.len();
        while i > 0 && chars[i - 1] != '/'
            invariant
                0 <= i <= chars@.len(),
                chars@ == self.path@,
                forall|j: int| i <= j < chars@.len() ==> chars@[j] != '/',
            decreases i,
        {
            i = i - 1;
        }
        proof {
            lemma_after_last_slash(self.path@, i as int);
        }
        self.path.as_str().substring_char(i, chars.len())
    }

    /// A copy of the asset.
    pub fn copy(&self) -> (c: SlideImageAsset)
        ensures
            c@ == self@,
    {
        let mut data: Vec<u8> = Vec::new();
        let mut i: usize = 0;
        while i < self.data.len()
            invariant
                0 <= i <= self.data@.len(),
                data@ == self.data@.take(i as int),
            decreases self.data@.len() - i,
        {
            data.push(self.data[i]);
            i = i + 1;
            assert(data@ =~= self.data@.take(i as int));
        }
        assert(self.data@.take(self.data@.len() as int) =~= self.data@);
        SlideImageAsset { path: self.path.clone(), data, source: self.source }
    }
}

/// A slide's images, each under its relationship id.
pub type SlideImageMap = Vec<(String, SlideImageAsset)>;

/// The image under a relationship id (the first entry with that id).
pub open spec fn image_for(images: Seq<(String, SlideImageAsset)>, rid: Seq<char>) -> Option<AssetView>
    decreases images.len(),
{
    if images.len() == 0 {
        None
    } else if images[0].0@ == rid {
        Some(images[0].1@)
    } else {
        image_for(images.drop_first(), rid)
    }
}

/// No relationship id occurs twice in a slide's image map (as with the keys
/// of a map).
pub open spec fn image_ids_unique(images: Seq<(String, SlideImageAsset)>) -> bool {
    forall|i: int, j: int| 0 <= i < j < images.len() ==> images[i].0@ != images[j].0@
}

/// In an image map whose ids are unique, the image under an id is the one
/// entry with that id, wherever it stands.
pub proof fn lemma_unique_image_lookup(images: Seq<(String, SlideImageAsset)>, k: int)
    requires
        image_ids_unique(images),
        0 <= k < images.len(),
    ensures
        image_for(images, images[k].0@) == Some(images[k].1@),
    decreases images.len(),
{
    if k > 0 {
        assert(images[0].0@ != images[k].0@);
        let rest = images.drop_first();
        assert forall|i: int, j: int| 0 <= i < j < rest.len() implies rest[i].0@ != rest[j].0@ by {
            assert(rest[i] == images[i + 1] && rest[j] == images[j + 1]);
        }
        lemma_unique_image_lookup(rest, k - 1);
        assert(rest[k - 1] == images[k]);
    }
}

/// Put an image under a relationship id, replacing the one there was (as
/// `HashMap::insert` does): ids stay unique, the id gives the new image,
/// and every other id gives what it gave.
pub fn insert_slide_image(images: &mut SlideImageMap, rid: String, asset: SlideImageAsset)
    requires
        image_ids_unique(old(images)@),
    ensures
        image_ids_unique(final(images)@),
        image_for(final(images)@, rid@) == Some(asset@),
        forall|other: Seq<char>| other != rid@ ==> image_for(final(images)@, other) == image_for(old(images)@, other),
{
    let ghost before = images@;
    let ghost a = asset@;
    match find_image(images, rid.as_str()) {
        Some(i) => {
            proof {
                lemma_unique_image_lookup(before, i as int);
            }
            images.set(i, (rid, asset));
            assert(images@ == before.update(i as int, images@[i as int]));
            assert forall|other: Seq<char>| other != images@[i as int].0@ implies image_for(images@, other) == image_for(before, other) by {
                lemma_image_for_update(before, i as int, images@[i as int], other);
            }
            assert(image_ids_unique(images@)) by {
                assert forall|x: int, y: int| 0 <= x < y < images@.len() implies images@[x].0@ != images@[y].0@ by {
                    assert(before[x].0@ != before[y].0@);
                    assert(images@[x].0@ == before[x].0@);
                    assert(images@[y].0@ == before[y].0@);
                }
            }
            proof {
                lemma_unique_image_lookup(images@, i as int);
            }
        },
        None => {
            proof {
                lemma_absent_id(before, rid@);
            }
            images.push((rid, asset));
            assert(images@.drop_last() =~= before);
            assert(image_ids_unique(images@)) by {
                assert forall|x: int, y: int| 0 <= x < y < images@.len() implies images@[x].0@ != images@[y].0@ by {
                    if y == images@.len() - 1 {
                        assert(images@[x] == before[x]);
                    } else {
                        assert(images@[x] == before[x] && images@[y] == before[y]);
                    }
                }
            }
            proof {
                lemma_image_for_push(before, images@.last(), rid@);
                assert forall|other: Seq<char>| other != images@.last().0@ implies image_for(images@, other) == image_for(before, other) by {
                    lemma_image_for_push(before, images@.last(), other);
                }
            }
        },
    }
}

proof fn lemma_absent_id(images: Seq<(String, SlideImageAsset)>, rid: Seq<char>)
    requires
        image_for(images, rid) is None,
    ensures
        forall|i: int| 0 <= i < images.len() ==> images[i].0@ != rid,
    decreases images.len(),
{
    if images.len() > 0 {
        lemma_absent_id(images.drop_first(), rid);
        assert forall|i: int| 0 <= i < images.len() implies images[i].0@ != rid by {
            if i > 0 {
                assert(images[i] == images.drop_first()[i - 1]);
            }
        }
    }
}

proof fn lemma_image_for_push(images: Seq<(String, SlideImageAsset)>, e: (String, SlideImageAsset), rid: Seq<char>)
    ensures
        image_for(images.push(e), rid) == if image_for(images, rid) is Some {
            image_for(images, rid)
        } else if e.0@ == rid {
            Some(e.1@)
        } else {
            None
        },
    decreases images.len(),
{
    if images.len() > 0 {
        assert(images.push(e)[0] == images[0]);
        assert(images.push(e).drop_first() =~= images.drop_first().push(e));
        lemma_image_for_push(images.drop_first(), e, rid);
    } else {
        assert(images.push(e)[0] == e);
        assert(images.push(e).drop_first() =~= Seq::<(String, SlideImageAsset)>::empty());
        assert(image_for(images.push(e).drop_first(), rid) is None);
        assert(image_for(images, rid) is None);
    }
}

proof fn lemma_image_for_update(images: Seq<(String, SlideImageAsset)>, i: int, e: (String, SlideImageAsset), rid: Seq<char>)
    requires
        0 <= i < images.len(),
        images[i].0@ == e.0@,
        rid != e.0@,
    ensures
        image_for(images.update(i, e), rid) == image_for(images, rid),
    decreases images.len(),
{
    if i > 0 {
        assert(images.update(i, e)[0] == images[0]);
        assert(images.update(i, e).drop_first() =~= images.drop_first().update(i - 1, e));
        lemma_image_for_update(images.drop_first(), i - 1, e, rid);
    } else {
        assert(images.update(i, e)[0] == e);
        assert(images.update(i, e).drop_first() =~= images.drop_first());
    }
}

/// The image under a relationship id, where it is supported.
pub open spec fn supported_image(images: Seq<(String, SlideImageAsset)>, rid: Seq<char>) -> Option<AssetView> {
    match image_for(images, rid) {
        Some(a) => if a.source is Supported {
            Some(a)
        } else {
            None
        },
        None => None,
    }
}

/// The position of the image under a relationship id.
fn find_image(images: &SlideImageMap, rid: &str) -> (r: Option<usize>)
    ensures
        match r {
            Some(i) => i < images@.len() && image_for(images@, rid@) == Some(images@[i as int].1@)
                && images@[i as int].0@ == rid@,
            None => image_for(images@, rid@) is None,
        },
{
    let mut i: usize = 0;
    assert(images@.skip(0) =~= images@);
    while i < images.len()
        invariant
            0 <= i <= images@.len(),
            image_for(images@, rid@) == image_for(images@.skip(i as int), rid@),
        decreases images@.len() - i,
    {
        assert(images@.skip(i as int).drop_first() =~= images@.skip(i as int + 1));
        assert(images@.skip(i as int)[0] == images@[i as int]);
        if str_eq(images[i].0.as_str(), rid) {
            return Some(i);
        }
        i = i + 1;
    }
    None
}

/// A copy of the image under a relationship id, where it is supported.
pub fn pick_supported_asset(rid: &str, images: &SlideImageMap) -> (asset: Option<SlideImageAsset>)
    ensures
        match asset {
            Some(a) => supported_image(images@, rid@) == Some(a@),
            None => supported_image(images@, rid@) is None,
        },
{
    match find_image(images, rid) {
        Some(i) => {
            if images[i].1.is_supported() {
                Some(images[i].1.copy())
            } else {
                None
            }
        },
        None => None,
    }
}

/// Names joined with `, `.
pub open spec fn describe(names: Seq<Seq<char>>) -> Seq<char>
    decreases names.len(),
{
    if names.len() == 0 {
        Seq::empty()
    } else if names.len() == 1 {
        names[0]
    } else {
        describe(names.drop_last()) + ", "@ + names.last()
    }
}

/// File names joined with `, `.
pub fn describe_assets(names: &Vec<String>) -> (s: String)
    ensures
        s@ == describe(names@.map_values(|n: String| n@)),
{
    let ghost view = names@.map_values(|n: String| n@);
    if names.len() == 0 {
        return String::new();
    }
    let mut s: String = names[0].clone();
    let mut i: usize = 1;
    assert(view.take(1) =~= seq![view[0]]);
    while i < names.len()
        invariant
            1 <= i <= names@.len(),
            view == names@.map_values(|n: String| n@),
            s@ == describe(view.take(i as int)),
        decreases names@.len() - i,
    {
        let with_comma = concat2(s.as_str(), ", ");
        s = concat2(with_comma.as_str(), names[i].as_str());
        assert(view.take(i + 1).drop_last() =~= view.take(i as int));
        i = i + 1;
    }
    assert(view.take(names@.len() as int) =~= view);
    s
}

/// The file names of the layer images present and not supported.
pub open spec fn unsupported_layer_names(images: Seq<(String, SlideImageAsset)>, rids: Seq<Seq<char>>) -> Seq<Seq<char>>
    decreases rids.len(),
{
    if rids.len() == 0 {
        Seq::empty()
    } else {
        let prev = unsupported_layer_names(images, rids.drop_last());
        match image_for(images, rids.last()) {
            Some(a) => if a.source is Supported {
                prev
            } else {
                prev.push(after_last_slash(a.path))
            },
            None => prev,
        }
    }
}

/// The file names of the images present under the given ids.
pub open spec fn present_names(images: Seq<(String, SlideImageAsset)>, rids: Seq<Seq<char>>) -> Seq<Seq<char>>
    decreases rids.len(),
{
    if rids.len() == 0 {
        Seq::empty()
    } else {
        let prev = present_names(images, rids.drop_last());
        match image_for(images, rids.last()) {
            Some(a) => prev.push(after_last_slash(a.path)),
            None => prev,
        }
    }
}

/// The first supported image among the given ids.
pub open spec fn first_supported(images: Seq<(String, SlideImageAsset)>, rids: Seq<Seq<char>>) -> Option<AssetView>
    decreases rids.len(),
{
    if rids.len() == 0 {
        None
    } else if supported_image(images, rids[0]) is Some {
        supported_image(images, rids[0])
    } else {
        first_supported(images, rids.drop_first())
    }
}

/// An optional id as a sequence of zero or one ids.
pub open spec fn opt_seq(rid: Option<&str>) -> Seq<Seq<char>> {
    match rid {
        Some(r) => seq![r@],
        None => Seq::empty(),
    }
}

/// The image a picture shows: its SVG if supported, else its base image
/// if supported, else its first supported layer image.
pub open spec fn selected_picture(
    images: Seq<(String, SlideImageAsset)>,
    base_rid: Option<&str>,
    svg_rid: Option<&str>,
    layers: Seq<Seq<char>>,
) -> Option<AssetView> {
    first_supported(images, opt_seq(svg_rid) + opt_seq(base_rid) + layers)
}

/// The warnings of a picture: layer images left out, and, where no image
/// can be shown, every image it names.
pub open spec fn picture_warnings(
    images: Seq<(String, SlideImageAsset)>,
    context: Seq<char>,
    base_rid: Option<&str>,
    svg_rid: Option<&str>,
    layers: Seq<Seq<char>>,
) -> Seq<WarningView> {
    let unsupported = unsupported_layer_names(images, layers);
    let omitted = present_names(images, opt_seq(svg_rid) + opt_seq(base_rid) + layers);
    let first = if unsupported.len() > 0 {
        seq![WarningView::PartialElement {
            format: "PPTX"@,
            element: context + " picture"@,
            detail: "unsupported image layer omitted: "@ + describe(unsupported),
        }]
    } else {
        Seq::empty()
    };
    if selected_picture(images, base_rid, svg_rid, layers) is None && omitted.len() > 0 {
        first.push(WarningView::UnsupportedElement {
            format: "PPTX"@,
            element: context + " image omitted: "@ + describe(omitted),
        })
    } else {
        first
    }
}

/// The ids a picture names, in the order they are tried: its SVG image,
/// its base image, then its layer images.
pub open spec fn picture_refs(base_rid: Option<&str>, svg_rid: Option<&str>, layers: Seq<Seq<char>>) -> Seq<Seq<char>> {
    opt_seq(svg_rid) + opt_seq(base_rid) + layers
}

/// An id names an image that is present but not supported.
pub open spec fn names_unsupported(images: Seq<(String, SlideImageAsset)>, rid: Seq<char>) -> bool {
    image_for(images, rid) is Some && !(image_for(images, rid)->0.source is Supported)
}

proof fn lemma_unsupported_names_nonempty(images: Seq<(String, SlideImageAsset)>, rids: Seq<Seq<char>>)
    ensures
        unsupported_layer_names(images, rids).len() > 0 <==> exists|i: int| 0 <= i < rids.len() && #[trigger] names_unsupported(images, rids[i]),
    decreases rids.len(),
{
    if rids.len() > 0 {
        let prev = rids.drop_last();
        lemma_unsupported_names_nonempty(images, prev);
        if names_unsupported(images, rids.last()) {
            assert(names_unsupported(images, rids[rids.len() - 1]));
        }
        if exists|i: int| 0 <= i < prev.len() && #[trigger] names_unsupported(images, prev[i]) {
            let i = choose|i: int| 0 <= i < prev.len() && #[trigger] names_unsupported(images, prev[i]);
            assert(names_unsupported(images, rids[i]));
        }
        if exists|i: int| 0 <= i < rids.len() && #[trigger] names_unsupported(images, rids[i]) {
            let i = choose|i: int| 0 <= i < rids.len() && #[trigger] names_unsupported(images, rids[i]);
            if i < rids.len() - 1 {
                assert(names_unsupported(images, prev[i]));
            }
        }
    }
}

proof fn lemma_present_names_nonempty(images: Seq<(String, SlideImageAsset)>, rids: Seq<Seq<char>>)
    ensures
        present_names(images, rids).len() > 0 <==> exists|i: int| 0 <= i < rids.len() && (#[trigger] image_for(images, rids[i])) is Some,
    decreases rids.len(),
{
    if rids.len() > 0 {
        let prev = rids.drop_last();
        lemma_present_names_nonempty(images, prev);
        if exists|i: int| 0 <= i < prev.len() && (#[trigger] image_for(images, prev[i])) is Some {
            let i = choose|i: int| 0 <= i < prev.len() && (#[trigger] image_for(images, prev[i])) is Some;
            assert(image_for(images, rids[i]) is Some);
        }
        if exists|i: int| 0 <= i < rids.len() && (#[trigger] image_for(images, rids[i])) is Some {
            let i = choose|i: int| 0 <= i < rids.len() && (#[trigger] image_for(images, rids[i])) is Some;
            if i < rids.len() - 1 {
                assert(image_for(images, prev[i]) is Some);
            }
        }
    }
}

proof fn lemma_first_supported_is_first(images: Seq<(String, SlideImageAsset)>, rids: Seq<Seq<char>>)
    ensures
        first_supported(images, rids) is None <==> forall|i: int| 0 <= i < rids.len() ==> (#[trigger] supported_image(images, rids[i])) is None,
        first_supported(images, rids) is Some ==> exists|i: int|
            0 <= i < rids.len() && first_supported(images, rids) == #[trigger] supported_image(images, rids[i])
                && forall|j: int| 0 <= j < i ==> (#[trigger] supported_image(images, rids[j])) is None,
    decreases rids.len(),
{
    if rids.len() > 0 {
        let rest = rids.drop_first();
        lemma_first_supported_is_first(images, rest);
        assert forall|i: int| 0 <= i < rest.len() implies rest[i] == rids[i + 1] by {}
        if supported_image(images, rids[0]) is Some {
            assert(first_supported(images, rids) == supported_image(images, rids[0]));
        } else if first_supported(images, rest) is Some {
            let i = choose|i: int|
                0 <= i < rest.len() && first_supported(images, rest) == #[trigger] supported_image(images, rest[i])
                    && forall|j: int| 0 <= j < i ==> (#[trigger] supported_image(images, rest[j])) is None;
            assert(supported_image(images, rids[i + 1]) == first_supported(images, rids));
            assert forall|j: int| 0 <= j < i + 1 implies (#[trigger] supported_image(images, rids[j])) is None by {
                if j > 0 {
                    assert(rids[j] == rest[j - 1]);
                }
            }
        } else {
            assert forall|i: int| 0 <= i < rids.len() implies (#[trigger] supported_image(images, rids[i])) is None by {
                if i > 0 {
                    assert(rids[i] == rest[i - 1]);
                }
            }
        }
    }
}

/// What a picture shows and what it warns of: it shows the image of the
/// first id it names (SVG, base, then layers) whose image is supported, and
/// nothing exactly when none is; it warns that layer images were left out
/// exactly when some layer id names a present, unsupported image; and it
/// warns that the image was omitted exactly when it shows nothing and some
/// id it names is present. Ids with no image play no part.
pub proof fn lemma_picture_selection(
    images: Seq<(String, SlideImageAsset)>,
    context: Seq<char>,
    base_rid: Option<&str>,
    svg_rid: Option<&str>,
    layers: Seq<Seq<char>>,
)
    ensures
        selected_picture(images, base_rid, svg_rid, layers) is None <==> forall|i: int|
            0 <= i < picture_refs(base_rid, svg_rid, layers).len() ==> (#[trigger] supported_image(
                images,
                picture_refs(base_rid, svg_rid, layers)[i],
            )) is None,
        selected_picture(images, base_rid, svg_rid, layers) is Some ==> exists|i: int|
            0 <= i < picture_refs(base_rid, svg_rid, layers).len() && selected_picture(images, base_rid, svg_rid, layers)
                == #[trigger] supported_image(images, picture_refs(base_rid, svg_rid, layers)[i]) && forall|j: int|
                0 <= j < i ==> (#[trigger] supported_image(images, picture_refs(base_rid, svg_rid, layers)[j])) is None,
        (exists|k: int|
            0 <= k < picture_warnings(images, context, base_rid, svg_rid, layers).len() && (#[trigger] picture_warnings(
                images,
                context,
                base_rid,
                svg_rid,
                layers,
            )[k]) is PartialElement) <==> exists|i: int| 0 <= i < layers.len() && #[trigger] names_unsupported(images, layers[i]),
        (exists|k: int|
            0 <= k < picture_warnings(images, context, base_rid, svg_rid, layers).len() && (#[trigger] picture_warnings(
                images,
                context,
                base_rid,
                svg_rid,
                layers,
            )[k]) is UnsupportedElement) <==> (selected_picture(images, base_rid, svg_rid, layers) is None && exists|i: int|
            0 <= i < picture_refs(base_rid, svg_rid, layers).len() && (#[trigger] image_for(
                images,
                picture_refs(base_rid, svg_rid, layers)[i],
            )) is Some),
{
    let refs = picture_refs(base_rid, svg_rid, layers);
    lemma_first_supported_is_first(images, refs);
    lemma_unsupported_names_nonempty(images, layers);
    lemma_present_names_nonempty(images, refs);
    let w = picture_warnings(images, context, base_rid, svg_rid, layers);
    if exists|i: int| 0 <= i < layers.len() && #[trigger] names_unsupported(images, layers[i]) {
        assert(w[0] is PartialElement);
    }
    let omitted = present_names(images, refs);
    if selected_picture(images, base_rid, svg_rid, layers) is None && omitted.len() > 0 {
        assert(w[w.len() - 1] is UnsupportedElement);
    } else {
        assert forall|k: int| 0 <= k < w.len() implies !(#[trigger] w[k] is UnsupportedElement) by {}
    }
}

/// The ids of a sequence of strings.
pub open spec fn rid_views(rids: Seq<String>) -> Seq<Seq<char>> {
    rids.map_values(|r: String| r@)
}

/// The file names of the layer images present and not supported.
fn collect_unsupported_layers(images: &SlideImageMap, rids: &Vec<String>) -> (names: Vec<String>)
    ensures
        rid_views(names@) == unsupported_layer_names(images@, rid_views(rids@)),
{
    let mut names: Vec<String> = Vec::new();
    let mut i: usize = 0;
    while i < rids.len()
        invariant
            0 <= i <= rids@.len(),
            rid_views(names@) == unsupported_layer_names(images@, rid_views(rids@).take(i as int)),
        decreases rids@.len() - i,
    {
        assert(rid_views(rids@).take(i + 1).drop_last() =~= rid_views(rids@).take(i as int));
        assert(rid_views(rids@).take(i + 1).last() == rids@[i as int]@);
        match find_image(images, rids[i].as_str()) {
            Some(k) => {
                if !images[k].1.is_supported() {
                    let ghost before = names@;
                    names.push(owned(images[k].1.file_name()));
                    assert(rid_views(names@) =~= rid_views(before).push(names@.last()@));
                }
            },
            None => {},
        }
        i = i + 1;
    }
    assert(rid_views(rids@).take(rids@.len() as int) =~= rid_views(rids@));
    names
}

/// The file names of the images present under the given ids.
fn collect_present(images: &SlideImageMap, rids: &Vec<String>) -> (names: Vec<String>)
    ensures
        rid_views(names@) == present_names(images@, rid_views(rids@)),
{
    let mut names: Vec<String> = Vec::new();
    let mut i: usize = 0;
    while i < rids.len()
        invariant
            0 <= i <= rids@.len(),
            rid_views(names@) == present_names(images@, rid_views(rids@).take(i as int)),
        decreases rids@.len() - i,
    {
        assert(rid_views(rids@).take(i + 1).drop_last() =~= rid_views(rids@).take(i as int));
        assert(rid_views(rids@).take(i + 1).last() == rids@[i as int]@);
        match find_image(images, rids[i].as_str()) {
            Some(k) => {
                let ghost before = names@;
                names.push(owned(images[k].1.file_name()));
                assert(rid_views(names@) =~= rid_views(before).push(names@.last()@));
            },
            None => {},
        }
        i = i + 1;
    }
    assert(rid_views(rids@).take(rids@.len() as int) =~= rid_views(rids@));
    names
}

/// The first supported image among the given ids.
fn first_supported_asset(images: &SlideImageMap, rids: &Vec<String>) -> (asset: Option<SlideImageAsset>)
    ensures
        match asset {
            Some(a) => first_supported(images@, rid_views(rids@)) == Some(a@),
            None => first_supported(images@, rid_views(rids@)) is None,
        },
{
    let mut i: usize = 0;
    assert(rid_views(rids@).skip(0) =~= rid_views(rids@));
    while i < rids.len()
        invariant
            0 <= i <= rids@.len(),
            first_supported(images@, rid_views(rids@)) == first_supported(images@, rid_views(rids@).skip(i as int)),
        decreases rids@.len() - i,
    {
        assert(rid_views(rids@).skip(i as int).drop_first() =~= rid_views(rids@).skip(i + 1));
        assert(rid_views(rids@).skip(i as int)[0] == rids@[i as int]@);
        match pick_supported_asset(rids[i].as_str(), images) {
            Some(a) => {
                return Some(a);
            },
            None => {},
        }
        i = i + 1;
    }
    None
}

/// Choose the image a picture shows: its SVG if supported, else its base
/// image if supported, else its first supported layer image. Warns of
/// unsupported layer images left out, and, where no image can be shown, of
/// every image the picture names.
pub fn select_picture_asset(
    images: &SlideImageMap,
    warning_context: &str,
    base_rid: Option<&str>,
    svg_rid: Option<&str>,
    img_layer_rids: &Vec<String>,
) -> (r: (Option<SlideImageAsset>, Vec<ConvertWarning>))
    ensures
        match r.0 {
            Some(a) => selected_picture(images@, base_rid, svg_rid, rid_views(img_layer_rids@)) == Some(a@),
            None => selected_picture(images@, base_rid, svg_rid, rid_views(img_layer_rids@)) is None,
        },
        warnings_view(r.1@) == picture_warnings(images@, warning_context@, base_rid, svg_rid, rid_views(img_layer_rids@)),
{
    let ghost layers = rid_views(img_layer_rids@);
    let mut warnings: Vec<ConvertWarning> = Vec::new();
    let unsupported = collect_unsupported_layers(images, img_layer_rids);
    if unsupported.len() > 0 {
        let detail = concat2("unsupported image layer omitted: ", describe_assets(&unsupported).as_str());
        warnings.push(ConvertWarning::PartialElement {
            format: owned("PPTX"),
            element: concat2(warning_context, " picture"),
            detail,
        });
    }
    let ghost first = warnings_view(warnings@);
    let mut all: Vec<String> = Vec::new();
    match svg_rid {
        Some(r) => all.push(owned(r)),
        None => {},
    }
    match base_rid {
        Some(r) => all.push(owned(r)),
        None => {},
    }
    let mut i: usize = 0;
    while i < img_layer_rids.len()
        invariant
            0 <= i <= img_layer_rids@.len(),
            rid_views(all@) == opt_seq(svg_rid) + opt_seq(base_rid) + rid_views(img_layer_rids@).take(i as int),
        decreases img_layer_rids@.len() - i,
    {
        let ghost before = all@;
        all.push(img_layer_rids[i].clone());
        assert(rid_views(all@) =~= rid_views(before).push(img_layer_rids@[i as int]@));
        assert(rid_views(img_layer_rids@).take(i + 1) =~= rid_views(img_layer_rids@).take(i as int).push(img_layer_rids@[i as int]@));
        i = i + 1;
    }
    assert(rid_views(img_layer_rids@).take(img_layer_rids@.len() as int) =~= layers);
    let selected = first_supported_asset(images, &all);
    if selected.is_some() {
        return (selected, warnings);
    }
    let omitted = collect_present(images, &all);
    if omitted.len() > 0 {
        let listed = describe_assets(&omitted);
        let head = concat2(warning_context, " image omitted: ");
        let ghost before = warnings@;
        warnings.push(ConvertWarning::UnsupportedElement {
            format: owned("PPTX"),
            element: concat2(head.as_str(), listed.as_str()),
        });
        assert(warnings_view(warnings@) =~= warnings_view(before).push(warnings@.last()@));
    }
    (None, warnings)
}

// ── Slide paths ─────────────────────────────────────────────────────

/// The package path of a slide a presentation relationship targets: an
/// absolute target without its leading `/`, a relative one under `ppt/`.
pub open spec fn slide_path(target: Seq<char>) -> Seq<char> {
    if target.len() > 0 && target[0] == '/' {
        target.drop_first()
    } else {
        "ppt/"@ + target
    }
}

/// Resolve a slide relationship target to its path in the package.
pub fn slide_path_for_target(target: &str) -> (path: String)
    ensures
        path@ == slide_path(target@),
{
    let chars = chars_of(target);
    if chars.len() > 0 && chars[0] == '/' {
        owned(target.substring_char(1, chars.len()))
    } else {
        concat2("ppt/", target)
    }
}
} // verus!
