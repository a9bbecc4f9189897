//! Vector images in the registry.
//!
//! The registry keeps the parsed image and hands it out for rendering;
//! what it draws is the rendered picture, an RGBA buffer of the size the
//! guest asked for.

use vstd::prelude::*;
use resvg::usvg::Tree;
use crate::blit::{blitted, graphics_image_from_host};
use crate::memory::{memory_view, read_guest_bytes};
use crate::resources::{Resources, ResourcesView};
use crate::state::{Frame, VideoState};
use crate::text::{guest_text, utf8_text};

verus! {

broadcast use vstd::std_specs::hash::group_hash_axioms;

/// Whether `usvg::Tree::from_str` accepts the text as a document with
/// the parser's default options: whether it is well-formed XML with an
/// `svg` root, within the parser's limit on nodes, that gives a valid
/// size.
pub uninterp spec fn svg_accepted(text: Seq<char>) -> bool;

/// Parses an SVG document with `usvg::Tree::from_str` and the parser's
/// default options.
///
/// The contract claims only that whether there is an image is a function
/// of the text, named [`svg_accepted`]. Nothing is claimed of the image,
/// which may hold pictures that the document refers to.
#[verifier::external_body]
fn svg_parse(text: &str) -> (r: Option<Tree>)
    ensures
        r is Some == svg_accepted(text@),
{
    Tree::from_str(text, &resvg::usvg::Options::default()).ok()
}

/// The registry after a vector image was stored under the next id and
/// `key` was made to lead to it.
pub open spec fn with_svg(before: ResourcesView, key: u64, tree: Tree) -> ResourcesView {
    ResourcesView {
        svgs: before.svgs.insert(before.next_id as u32, tree),
        keyed_svgs: before.keyed_svgs.insert(key, before.next_id as u32),
        next_id: before.next_id + 1,
        ..before
    }
}

/// Stores a parsed vector image under the next id and makes `key` lead
/// to it. Answers 1, or 0 where there is no image or no id is left; the
/// registry is then left as it was.
pub fn store_svg(res: &mut Resources, key: u64, tree: Option<Tree>) -> (r: u32)
    ensures
        match tree {
            Some(t) => if 0 < old(res)@.next_id < u32::MAX {
                r == 1 && final(res)@ == with_svg(old(res)@, key, t)
            } else {
                r == 0 && *final(res) == *old(res)
            },
            None => r == 0 && *final(res) == *old(res),
        },
{
    match tree {
        Some(t) => match res.fresh_id() {
            Some(id) => {
                res.svgs.insert(id, t);
                res.keyed_svgs.insert(key, id);
                1
            },
            None => 0,
        },
        None => 0,
    }
}

/// A vector image is created from the bytes at `ptr`: the bytes can be
/// read and are valid UTF-8, the parser accepts the text as a document,
/// and an id is left.
pub open spec fn svg_created(
    before: ResourcesView,
    memory: Option<Seq<u8>>,
    ptr: u32,
    len: u32,
) -> bool {
    &&& guest_text(memory, ptr, len) matches Some(text) && svg_accepted(text)
    &&& 0 < before.next_id < u32::MAX
}

/// Registers an SVG document that lies in guest memory under `key`.
/// Answers 1 when the image was created, under the next id, and the key
/// leads to it. Answers 0 when the bytes cannot be read or are not valid
/// UTF-8, the parser rejects the text or no id is left; the registry is
/// then left as it was.
pub fn graphics_svg_register(
    res: &mut Resources,
    memory: Option<&[u8]>,
    key: u64,
    data_ptr: u32,
    data_len: u32,
) -> (r: u32)
    ensures
        svg_created(old(res)@, memory_view(memory), data_ptr, data_len) ==> {
            &&& r == 1
            &&& exists|t: Tree| final(res)@ == with_svg(old(res)@, key, t)
        },
        !svg_created(old(res)@, memory_view(memory), data_ptr, data_len) ==> {
            &&& r == 0
            &&& *final(res) == *old(res)
        },
{
    let bytes = match read_guest_bytes(memory, data_ptr, data_len) {
        Ok(b) => b,
        Err(_) => {
            return 0;
        },
    };
    let tree = match utf8_text(bytes.as_slice()) {
        Some(text) => svg_parse(text),
        None => None,
    };
    store_svg(res, key, tree)
}

/// Frame `after` is frame `before` with the rendered picture of the
/// vector image under `id` copied to `(x, y)`; an unknown id draws
/// nothing.
pub open spec fn svg_drawn(
    before: Frame,
    after: Frame,
    res: ResourcesView,
    id: u32,
    x: int,
    y: int,
    w: u32,
    h: u32,
    rendered: Seq<u8>,
) -> bool {
    if res.svgs.contains_key(id) {
        blitted(before, after, x, y, w as int, h as int, rendered)
    } else {
        after == before
    }
}

/// Draws the vector image under `id` at `(x, y)`. `rendered` is the
/// image rendered to `w` by `h` RGBA pixels.
pub fn graphics_svg_draw(
    video: &mut VideoState,
    res: &Resources,
    id: u32,
    x: i32,
    y: i32,
    w: u32,
    h: u32,
    rendered: &[u8],
)
    requires
        old(video).wf(),
    ensures
        final(video).wf(),
        svg_drawn(old(video)@, final(video)@, res@, id, x as int, y as int, w, h, rendered@),
{
    if res.svgs.contains_key(&id) {
        graphics_image_from_host(video, x, y, w, h, rendered);
    }
}

/// Draws the vector image that `key` leads to at `(x, y)`; an unknown
/// key draws nothing. `rendered` is the image rendered to `w` by `h`
/// RGBA pixels.
pub fn graphics_svg_draw_key(
    video: &mut VideoState,
    res: &Resources,
    key: u64,
    x: i32,
    y: i32,
    w: u32,
    h: u32,
    rendered: &[u8],
)
    requires
        old(video).wf(),
    ensures
        final(video).wf(),
        match res@.keyed_svgs.get(key) {
            Some(id) => svg_drawn(
                old(video)@,
                final(video)@,
                res@,
                id,
                x as int,
                y as int,
                w,
                h,
                rendered@,
            ),
            None => final(video)@ == old(video)@,
        },
{
    match res.keyed_svgs.get(&key) {
        Some(id) => {
            graphics_svg_draw(video, res, *id, x, y, w, h, rendered);
        },
        None => {},
    }
}

/// Removes the vector image under `id`; an unknown id changes nothing.
pub fn graphics_svg_destroy(res: &mut Resources, id: u32)
    ensures
        final(res)@ == (ResourcesView { svgs: old(res)@.svgs.remove(id), ..old(res)@ }),
{
    res.svgs.remove(&id);
}

/// Unregisters `key` and removes the vector image that it led to; a key
/// that is not registered changes nothing.
pub fn graphics_svg_unregister(res: &mut Resources, key: u64)
    ensures
        final(res)@ == (match old(res)@.keyed_svgs.get(key) {
            Some(id) => ResourcesView {
                keyed_svgs: old(res)@.keyed_svgs.remove(key),
                svgs: old(res)@.svgs.remove(id),
                ..old(res)@
            },
            None => old(res)@,
        }),
{
    match res.keyed_svgs.remove(&key) {
        Some(id) => {
            graphics_svg_destroy(res, id);
        },
        None => {
            assert(res.keyed_svgs@ =~= old(res).keyed_svgs@);
        },
    }
}

} // verus!
