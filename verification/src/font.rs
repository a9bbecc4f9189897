//! Fonts in the registry: outline fonts parsed from TrueType data and
//! bitmap fonts parsed from BDF sources.

use vstd::prelude::*;
use fontdue::Font;
use crate::bdf::{bdf_glyphs, parse_bdf};
use crate::memory::{guest_read, memory_view, read_guest_bytes};
use crate::resources::{
    lemma_map_values_insert,
    lemma_map_values_remove,
    FontResource,
    FontView,
    Resources,
    ResourcesView,
};

verus! {

broadcast use vstd::std_specs::hash::group_hash_axioms;

/// Whether `fontdue::Font::from_bytes` accepts the bytes as a font with
/// the crate's default settings: whether they parse as a font face and
/// every glyph that the face's character map and substitutions lead to
/// lies within the face's glyph count.
pub uninterp spec fn font_accepted(data: Seq<u8>) -> bool;

/// Parses an outline font with `fontdue::Font::from_bytes` and the
/// crate's default settings.
///
/// The contract claims only that whether there is a font is a function
/// of the bytes, named [`font_accepted`]. Nothing is claimed of the font.
#[verifier::external_body]
fn font_parse(data: Vec<u8>) -> (r: Option<Font>)
    ensures
        r is Some == font_accepted(data@),
{
    Font::from_bytes(data, fontdue::FontSettings::default()).ok()
}

/// The registry after a font was stored under the next id.
pub open spec fn with_font(before: ResourcesView, font: FontView) -> ResourcesView {
    ResourcesView {
        fonts: before.fonts.insert(before.next_id as u32, font),
        next_id: before.next_id + 1,
        ..before
    }
}

/// The registry after a font was stored under the next id and `key` was
/// made to lead to it.
pub open spec fn with_keyed_font(before: ResourcesView, key: u64, font: FontView) -> ResourcesView {
    ResourcesView {
        keyed_fonts: before.keyed_fonts.insert(key, before.next_id as u32),
        ..with_font(before, font)
    }
}

/// The view of an optional font.
pub open spec fn font_view(r: Option<FontResource>) -> Option<FontView> {
    match r {
        Some(f) => Some(f@),
        None => None,
    }
}

/// Stores a font under the next id and answers with the id, or with 0
/// where there is no font or no id is left; the registry is then left as
/// it was.
pub fn store_font(res: &mut Resources, font: Option<FontResource>) -> (id: u32)
    ensures
        match font {
            Some(f) => if 0 < old(res)@.next_id < u32::MAX {
                id == old(res)@.next_id && final(res)@ == with_font(old(res)@, f@)
            } else {
                id == 0 && *final(res) == *old(res)
            },
            None => id == 0 && *final(res) == *old(res),
        },
{
    match font {
        Some(f) => match res.fresh_id() {
            Some(id) => {
                proof {
                    lemma_map_values_insert(old(res).fonts@, |f: FontResource| f@, id, f);
                }
                res.fonts.insert(id, f);
                id
            },
            None => 0,
        },
        None => 0,
    }
}

/// Makes `key` lead to the font under `id`, unless `id` is 0. Answers 1
/// where the key was set and 0 where it was not.
pub fn bind_font(res: &mut Resources, key: u64, id: u32) -> (r: u32)
    ensures
        id == 0 ==> r == 0 && *final(res) == *old(res),
        id != 0 ==> r == 1 && final(res)@ == (ResourcesView {
            keyed_fonts: old(res)@.keyed_fonts.insert(key, id),
            ..old(res)@
        }),
{
    if id == 0 {
        return 0;
    }
    res.keyed_fonts.insert(key, id);
    1
}

/// An outline font is created from the bytes at `ptr`: the bytes can be
/// read, the parser accepts them as a font, and an id is left.
pub open spec fn ttf_created(
    before: ResourcesView,
    memory: Option<Seq<u8>>,
    ptr: u32,
    len: u32,
) -> bool {
    &&& guest_read(memory, ptr, len) matches Ok(bytes) && font_accepted(bytes)
    &&& 0 < before.next_id < u32::MAX
}

/// Creates an outline font from TrueType data that lies in guest memory
/// and answers with its id: the next id, under which the parsed font
/// then stands. Answers 0 when the bytes cannot be read, the parser
/// rejects them or no id is left; the registry is then left as it was.
pub fn graphics_font_upload_ttf(
    res: &mut Resources,
    memory: Option<&[u8]>,
    ptr: u32,
    len: u32,
) -> (id: u32)
    ensures
        ttf_created(old(res)@, memory_view(memory), ptr, len) ==> {
            &&& id == old(res)@.next_id
            &&& exists|f: Font| final(res)@ == with_font(old(res)@, FontView::Ttf(f))
        },
        !ttf_created(old(res)@, memory_view(memory), ptr, len) ==> {
            &&& id == 0
            &&& *final(res) == *old(res)
        },
{
    let font = match read_guest_bytes(memory, ptr, len) {
        Ok(bytes) => match font_parse(bytes) {
            Some(f) => Some(FontResource::Ttf(f)),
            None => None,
        },
        Err(_) => None,
    };
    store_font(res, font)
}

/// Registers TrueType data that lies in guest memory as an outline font
/// under `key`. Answers 1 when the font was created, under the next id,
/// and the key leads to it. Answers 0 when the bytes cannot be read, the
/// parser rejects them or no id is left; the registry is then left as it
/// was.
pub fn graphics_font_register_ttf(
    res: &mut Resources,
    memory: Option<&[u8]>,
    key: u64,
    data_ptr: u32,
    data_len: u32,
) -> (r: u32)
    ensures
        ttf_created(old(res)@, memory_view(memory), data_ptr, data_len) ==> {
            &&& r == 1
            &&& exists|f: Font|
                final(res)@ == with_keyed_font(old(res)@, key, FontView::Ttf(f))
        },
        !ttf_created(old(res)@, memory_view(memory), data_ptr, data_len) ==> {
            &&& r == 0
            &&& *final(res) == *old(res)
        },
{
    let id = graphics_font_upload_ttf(res, memory, data_ptr, data_len);
    let ghost stored = res@;
    let r = bind_font(res, key, id);
    proof {
        if r == 1 {
            let f = choose|f: Font| stored == with_font(old(res)@, FontView::Ttf(f));
            assert(res@ == with_keyed_font(old(res)@, key, FontView::Ttf(f)));
        }
    }
    r
}

/// The glyph size of the bitmap font with a nominal size: 5 by 8 for
/// size 8, 8 by 16 for 16, 12 by 24 for 24, 16 by 32 for 32 and 32 by 64
/// for 64. There is no font of any other size.
pub open spec fn spleen_size(size: u32) -> Option<(u32, u32)> {
    if size == 8 {
        Some((5u32, 8u32))
    } else if size == 16 {
        Some((8u32, 16u32))
    } else if size == 24 {
        Some((12u32, 24u32))
    } else if size == 32 {
        Some((16u32, 32u32))
    } else if size == 64 {
        Some((32u32, 64u32))
    } else {
        None
    }
}

/// The number of bytes that a row of `width` pixels takes.
pub open spec fn row_stride(width: int) -> int {
    (width + 7) / 8
}

/// The bitmap font of a nominal size as a BDF source gives it.
pub open spec fn spleen_font(size: u32, bdf: Seq<u8>) -> Option<FontView> {
    match spleen_size(size) {
        Some((w, h)) => match bdf_glyphs(bdf, row_stride(w as int)) {
            Some(glyphs) => Some(FontView::Spleen { width: w as int, height: h as int, glyphs }),
            None => None,
        },
        None => None,
    }
}

/// Computes [`spleen_size`].
pub fn glyph_size(size: u32) -> (r: Option<(u32, u32)>)
    ensures
        r == spleen_size(size),
{
    match size {
        8 => Some((5, 8)),
        16 => Some((8, 16)),
        24 => Some((12, 24)),
        32 => Some((16, 32)),
        64 => Some((32, 64)),
        _ => None,
    }
}

/// Parses the bitmap font of a nominal size from its BDF source.
pub fn load_spleen(size: u32, bdf: &[u8]) -> (r: Option<FontResource>)
    ensures
        font_view(r) == spleen_font(size, bdf@),
{
    match glyph_size(size) {
        Some((w, h)) => match parse_bdf(bdf, ((w + 7) / 8) as usize) {
            Some(glyphs) => Some(FontResource::Spleen { width: w, height: h, glyphs }),
            None => None,
        },
        None => None,
    }
}

/// Creates the bitmap font of a nominal size from its BDF source and
/// answers with its id. Answers 0 for a size that has no font, for a
/// source that does not parse and when no id is left; the registry is
/// then left as it was.
pub fn graphics_font_use_spleen(res: &mut Resources, size: u32, bdf: &[u8]) -> (id: u32)
    ensures
        match spleen_font(size, bdf@) {
            Some(f) => if 0 < old(res)@.next_id < u32::MAX {
                id == old(res)@.next_id && final(res)@ == with_font(old(res)@, f)
            } else {
                id == 0 && *final(res) == *old(res)
            },
            None => id == 0 && *final(res) == *old(res),
        },
{
    let font = load_spleen(size, bdf);
    store_font(res, font)
}

/// Registers the bitmap font of a nominal size under `key`. Answers 1
/// when the font was created and the key leads to it, and 0 otherwise;
/// the registry is then left as it was.
pub fn graphics_font_register_spleen(
    res: &mut Resources,
    key: u64,
    size: u32,
    bdf: &[u8],
) -> (r: u32)
    ensures
        match spleen_font(size, bdf@) {
            Some(f) => if 0 < old(res)@.next_id < u32::MAX {
                r == 1 && final(res)@ == with_keyed_font(old(res)@, key, f)
            } else {
                r == 0 && *final(res) == *old(res)
            },
            None => r == 0 && *final(res) == *old(res),
        },
{
    let id = graphics_font_use_spleen(res, size, bdf);
    bind_font(res, key, id)
}

/// Unregisters `key` and removes the font that it led to; a key that is
/// not registered changes nothing.
pub fn graphics_font_unregister(res: &mut Resources, key: u64)
    ensures
        final(res)@ == (match old(res)@.keyed_fonts.get(key) {
            Some(id) => ResourcesView {
                keyed_fonts: old(res)@.keyed_fonts.remove(key),
                fonts: old(res)@.fonts.remove(id),
                ..old(res)@
            },
            None => old(res)@,
        }),
{
    match res.keyed_fonts.remove(&key) {
        Some(id) => {
            proof {
                lemma_map_values_remove(old(res).fonts@, |f: FontResource| f@, id);
            }
            res.fonts.remove(&id);
        },
        None => {
            assert(res.keyed_fonts@ =~= old(res).keyed_fonts@);
        },
    }
}

} // verus!
