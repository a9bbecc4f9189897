//! The resource registry: decoded assets under numeric ids, and string
//! keys (as 64-bit hashes) that lead to them.
//!
//! A key names at most one resource of each kind. Registering under a key
//! that is taken replaces what was there; unregistering a key that is not
//! there changes nothing.

use vstd::prelude::*;
use std::collections::HashMap;
use crate::gif::{GifResource, GifResourceView};

verus! {

broadcast use vstd::std_specs::hash::group_hash_axioms;

/// A parsed vector image of `resvg`; the registry only stores it.
#[verifier::external_type_specification]
#[verifier::external_body]
pub struct ExSvgTree(resvg::usvg::Tree);

/// A parsed outline font of `fontdue`; the registry only stores it.
#[verifier::external_type_specification]
#[verifier::external_body]
pub struct ExOutlineFont(fontdue::Font);

/// A decoded still image: `width * height` RGBA pixels, row after row.
#[derive(Debug, Clone)]
pub struct PngResource {
    pub rgba: Vec<u8>,
    pub width: u32,
    pub height: u32,
}

/// The mathematical value of a [`PngResource`].
pub ghost struct PngView {
    pub rgba: Seq<u8>,
    pub width: int,
    pub height: int,
}

impl View for PngResource {
    type V = PngView;

    open spec fn view(&self) -> PngView {
        PngView { rgba: self.rgba@, width: self.width as int, height: self.height as int }
    }
}

/// A font: either an outline font that is rasterized glyph by glyph, or a
/// table of fixed-size bitmap glyphs.
///
/// A bitmap glyph is keyed by its code point and holds its rows from top
/// to bottom, each row in `(width + 7) / 8` bytes with the leftmost pixel
/// in the highest bit of the first byte.
pub enum FontResource {
    Ttf(fontdue::Font),
    Spleen { width: u32, height: u32, glyphs: HashMap<u32, Vec<u8>> },
}

/// The mathematical value of a [`FontResource`].
pub ghost enum FontView {
    Ttf(fontdue::Font),
    Spleen { width: int, height: int, glyphs: Map<u32, Seq<u8>> },
}

impl View for FontResource {
    type V = FontView;

    open spec fn view(&self) -> FontView {
        match *self {
            FontResource::Ttf(f) => FontView::Ttf(f),
            FontResource::Spleen { width, height, glyphs } => FontView::Spleen {
                width: width as int,
                height: height as int,
                glyphs: glyphs@.map_values(|rows: Vec<u8>| rows@),
            },
        }
    }
}

/// Everything the guest has registered.
pub struct Resources {
    pub svgs: HashMap<u32, resvg::usvg::Tree>,
    pub gifs: HashMap<u32, GifResource>,
    pub fonts: HashMap<u32, FontResource>,
    pub keyed_svgs: HashMap<u64, u32>,
    pub keyed_gifs: HashMap<u64, u32>,
    pub keyed_pngs: HashMap<u64, PngResource>,
    pub keyed_fonts: HashMap<u64, u32>,
    /// The id that the next resource gets; never 0, which stands for
    /// "no resource".
    pub next_id: u32,
}

/// The mathematical value of [`Resources`]: every map with the values of
/// its resources.
pub ghost struct ResourcesView {
    pub svgs: Map<u32, resvg::usvg::Tree>,
    pub gifs: Map<u32, GifResourceView>,
    pub fonts: Map<u32, FontView>,
    pub keyed_svgs: Map<u64, u32>,
    pub keyed_gifs: Map<u64, u32>,
    pub keyed_pngs: Map<u64, PngView>,
    pub keyed_fonts: Map<u64, u32>,
    pub next_id: int,
}

impl View for Resources {
    type V = ResourcesView;

    open spec fn view(&self) -> ResourcesView {
        ResourcesView {
            svgs: self.svgs@,
            gifs: self.gifs@.map_values(|g: GifResource| g@),
            fonts: self.fonts@.map_values(|f: FontResource| f@),
            keyed_svgs: self.keyed_svgs@,
            keyed_gifs: self.keyed_gifs@,
            keyed_pngs: self.keyed_pngs@.map_values(|p: PngResource| p@),
            keyed_fonts: self.keyed_fonts@,
            next_id: self.next_id as int,
        }
    }
}

impl ResourcesView {
    /// Nothing is registered.
    pub open spec fn is_empty(self) -> bool {
        &&& self.svgs == Map::<u32, resvg::usvg::Tree>::empty()
        &&& self.gifs == Map::<u32, GifResourceView>::empty()
        &&& self.fonts == Map::<u32, FontView>::empty()
        &&& self.keyed_svgs == Map::<u64, u32>::empty()
        &&& self.keyed_gifs == Map::<u64, u32>::empty()
        &&& self.keyed_pngs == Map::<u64, PngView>::empty()
        &&& self.keyed_fonts == Map::<u64, u32>::empty()
    }
}

impl Default for Resources {
    fn default() -> (r: Self)
        ensures
            r@.is_empty(),
            r@.next_id == 1,
    {
        let r = Resources {
            svgs: HashMap::new(),
            gifs: HashMap::new(),
            fonts: HashMap::new(),
            keyed_svgs: HashMap::new(),
            keyed_gifs: HashMap::new(),
            keyed_pngs: HashMap::new(),
            keyed_fonts: HashMap::new(),
            next_id: 1,
        };
        assert(r@.gifs =~= Map::<u32, GifResourceView>::empty());
        assert(r@.fonts =~= Map::<u32, FontView>::empty());
        assert(r@.keyed_pngs =~= Map::<u64, PngView>::empty());
        r
    }
}

/// Mapping the values of a map commutes with inserting into it.
pub proof fn lemma_map_values_insert<K, V, W>(m: Map<K, V>, f: spec_fn(V) -> W, k: K, v: V)
    ensures
        m.insert(k, v).map_values(f) == m.map_values(f).insert(k, f(v)),
{
}

/// Mapping the values of a map commutes with removing from it.
pub proof fn lemma_map_values_remove<K, V, W>(m: Map<K, V>, f: spec_fn(V) -> W, k: K)
    ensures
        m.remove(k).map_values(f) == m.map_values(f).remove(k),
{
}

/// Registering under a key twice leaves exactly the second resource
/// reachable under it: the map is as if the first had never been
/// registered.
pub proof fn lemma_register_twice_keeps_second<K, V>(m: Map<K, V>, key: K, first: V, second: V)
    ensures
        m.insert(key, first).insert(key, second) == m.insert(key, second),
        m.insert(key, first).insert(key, second)[key] == second,
        m.insert(key, first).insert(key, second).dom() == m.dom().insert(key),
{
}

/// Unregistering a key that is not registered changes nothing.
pub proof fn lemma_unregister_absent<K, V>(m: Map<K, V>, key: K)
    requires
        !m.contains_key(key),
    ensures
        m.remove(key) == m,
{
}

/// The value that the hash of a key starts from.
pub const KEY_OFFSET: u64 = 0xcbf2_9ce4_8422_2325;

/// The factor that the hash of a key is multiplied by for every byte.
pub const KEY_PRIME: u64 = 0x0000_0100_0000_01b3;

/// The hash of the first `n` bytes of a key: for every byte, the hash so
/// far is combined with the byte by exclusive or and multiplied by
/// [`KEY_PRIME`], modulo 2 to the power of 64.
pub open spec fn key_fold(key: Seq<u8>, n: nat) -> u64
    decreases n,
{
    if n == 0 {
        KEY_OFFSET
    } else {
        (((key_fold(key, (n - 1) as nat) ^ (key[n - 1] as u64)) as int * KEY_PRIME as int)
            % 0x1_0000_0000_0000_0000) as u64
    }
}

/// The 64-bit key that stands for a string key: the same for the same
/// bytes, in every run.
pub fn hash_key(key: &[u8]) -> (h: u64)
    ensures
        h == key_fold(key@, key@.len()),
{
    let n = key.len();
    let mut h: u64 = KEY_OFFSET;
    let mut i: usize = 0;
    while i < n
        invariant
            i <= n,
            n == key@.len(),
            h == key_fold(key@, i as nat),
        decreases n - i,
    {
        let mixed: u64 = h ^ (key[i] as u64);
        assert(mixed * KEY_PRIME <= 0xFFFF_FFFF_FFFF_FFFF * 0x0000_0100_0000_01b3)
            by (nonlinear_arith)
            requires
                0 <= mixed <= 0xFFFF_FFFF_FFFF_FFFF,
                KEY_PRIME == 0x0000_0100_0000_01b3,
        ;
        let wide: u128 = (mixed as u128) * (KEY_PRIME as u128);
        h = (wide % 0x1_0000_0000_0000_0000) as u64;
        i += 1;
    }
    h
}

impl Resources {
    /// Takes the next id, if one is left. The id 0 is never handed out:
    /// it stands for "no resource".
    pub fn fresh_id(&mut self) -> (r: Option<u32>)
        ensures
            match r {
                Some(id) => {
                    &&& id == old(self).next_id
                    &&& 0 < id < u32::MAX
                    &&& *final(self) == (Resources { next_id: (id + 1) as u32, ..*old(self) })
                },
                None => !(0 < old(self).next_id < u32::MAX) && *final(self) == *old(self),
            },
    {
        let id = self.next_id;
        if id == 0 || id == u32::MAX {
            None
        } else {
            self.next_id = id + 1;
            Some(id)
        }
    }
}

} // verus!
