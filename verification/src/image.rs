//! The resource cache: a content-addressed decode cache for bitmap images,
//! keyed by source path. A path is decoded at most once; later lookups share
//! the stored pixels. Entries are never mutated after insertion and are only
//! discarded with the cache itself.
//!
//! The cache works on bytes: reading a file is the caller's business. A path
//! that the caller could not read is simply never entered, and the paint
//! emitter treats it as "image unavailable".

use vstd::prelude::*;

verus! {

/// A decoded bitmap: size in pixels and the RGBA8 buffer, four bytes per
/// pixel, rows top to bottom.
#[derive(Debug)]
pub struct DecodedImage {
    pub width: u32,
    pub height: u32,
    pub pixels: Vec<u8>,
}

impl DecodedImage {
    pub open spec fn wf(&self) -> bool {
        self.pixels@.len() == 4 * self.width as nat * self.height as nat
    }
}

/// What decoding a byte buffer yields: the size and RGBA8 pixels when the
/// bytes are a readable image, nothing otherwise. The outcome depends on the
/// bytes alone.
pub uninterp spec fn decoded_of(data: Seq<u8>) -> Option<(u32, u32, Seq<u8>)>;

/// Relies on the image crate's `Reader`: the format is sniffed from the
/// bytes themselves, the image decoded and converted to an RGBA8 buffer of
/// exactly `4 * width * height` bytes. Decoding is a pure function of the
/// bytes, failing exactly on bytes that are not a readable image.
#[verifier::external_body]
fn decode_rgba(data: &Vec<u8>) -> (r: Option<DecodedImage>)
    ensures
        match r {
            Some(img) => decoded_of(data@) == Some((img.width, img.height, img.pixels@))
                && img.pixels@.len() == 4 * img.width as nat * img.height as nat,
            None => decoded_of(data@) is None,
        },
{
    let reader = image::io::Reader::new(std::io::Cursor::new(data.as_slice()))
        .with_guessed_format()
        .ok()?;
    let decoded = reader.decode().ok()?;
    let width = decoded.width();
    let height = decoded.height();
    let pixels = decoded.into_rgba8().into_vec();
    Some(DecodedImage { width, height, pixels })
}

/// The cache's per-call error: the bytes handed in could not be decoded.
#[derive(Clone, Copy, PartialEq, Eq, Structural, Debug)]
pub enum ImageError {
    DecodeFailed,
}

/// The first cached image stored under `path`.
pub open spec fn spec_cache_get(entries: Seq<(String, DecodedImage)>, path: Seq<char>) -> Option<
    DecodedImage,
>
    decreases entries.len(),
{
    if entries.len() == 0 {
        None
    } else if entries[0].0@ == path {
        Some(entries[0].1)
    } else {
        spec_cache_get(entries.drop_first(), path)
    }
}

proof fn lemma_cache_get_none(entries: Seq<(String, DecodedImage)>, path: Seq<char>)
    requires
        spec_cache_get(entries, path) is None,
    ensures
        forall|i: int| 0 <= i < entries.len() ==> (#[trigger] entries[i]).0@ != path,
    decreases entries.len(),
{
    if entries.len() > 0 {
        lemma_cache_get_none(entries.drop_first(), path);
        assert forall|i: int| 0 <= i < entries.len() implies (#[trigger] entries[i]).0@
            != path by {
            if i > 0 {
                assert(entries[i] == entries.drop_first()[i - 1]);
            }
        }
    }
}

proof fn lemma_cache_get_push(
    entries: Seq<(String, DecodedImage)>,
    path: Seq<char>,
    entry: (String, DecodedImage),
)
    requires
        spec_cache_get(entries, path) is None,
    ensures
        entry.0@ == path ==> spec_cache_get(entries.push(entry), path) == Some(entry.1),
    decreases entries.len(),
{
    if entries.len() == 0 {
        assert(entries.push(entry)[0] == entry);
    } else {
        lemma_cache_get_push(entries.drop_first(), path, entry);
        assert(entries.push(entry)[0] == entries[0]);
        assert(entries.push(entry).drop_first() =~= entries.drop_first().push(entry));
    }
}

/// The decode cache itself: insertion-ordered entries with pairwise distinct
/// paths, every stored image a well-formed RGBA8 buffer.
#[derive(Debug)]
pub struct ImageCache {
    pub entries: Vec<(String, DecodedImage)>,
}

impl ImageCache {
    pub open spec fn wf(&self) -> bool {
        &&& forall|i: int, j: int|
            0 <= i < j < self.entries@.len() ==> (#[trigger] self.entries@[i]).0@ != (
            #[trigger] self.entries@[j]).0@
        &&& forall|i: int| 0 <= i < self.entries@.len() ==> (#[trigger] self.entries@[i]).1.wf()
    }

    pub fn new() -> (c: ImageCache)
        ensures
            c.wf(),
            c.entries@.len() == 0,
    {
        ImageCache { entries: Vec::new() }
    }

    /// The cached image under `path`, when there is one.
    #[verifier::loop_isolation(false)]
    pub fn get(&self, path: &String) -> (r: Option<&DecodedImage>)
        ensures
            match r {
                Some(img) => spec_cache_get(self.entries@, path@) == Some(*img),
                None => spec_cache_get(self.entries@, path@) is None,
            },
    {
        let n = self.entries.len();
        proof {
            assert(self.entries@.skip(0) =~= self.entries@);
        }
        let mut i: usize = 0;
        while i < n
            invariant
                i <= n,
                n == self.entries@.len(),
                spec_cache_get(self.entries@, path@) == spec_cache_get(
                    self.entries@.skip(i as int),
                    path@,
                ),
            decreases n - i,
        {
            proof {
                assert(self.entries@.skip(i as int)[0] == self.entries@[i as int]);
                assert(self.entries@.skip(i as int).drop_first() =~= self.entries@.skip(i + 1));
            }
            if self.entries[i].0.eq(path) {
                return Some(&self.entries[i].1);
            }
            i += 1;
        }
        proof {
            assert(self.entries@.skip(n as int) =~= Seq::<(String, DecodedImage)>::empty());
        }
        None
    }

    /// The cache contract. On a hit the stored image is returned unchanged —
    /// whatever bytes are handed in, no decode happens and the pixels are
    /// identical to the first call's. On a miss the bytes are decoded,
    /// stored under the path and returned; bytes that are no readable image
    /// are the per-call error, and the cache keeps its state.
    #[verifier::loop_isolation(false)]
    pub fn get_or_decode(&mut self, path: &String, data: &Vec<u8>) -> (r: Result<
        &DecodedImage,
        ImageError,
    >)
        requires
            old(self).wf(),
        ensures
            final(self).wf(),
            match r {
                Ok(img) => {
                    &&& img.wf()
                    &&& spec_cache_get(final(self).entries@, path@) == Some(*img)
                    &&& match spec_cache_get(old(self).entries@, path@) {
                        Some(cached) => *img == cached && final(self).entries@ == old(
                            self,
                        ).entries@,
                        None => {
                            &&& decoded_of(data@) == Some((img.width, img.height, img.pixels@))
                            &&& final(self).entries@.len() == old(self).entries@.len() + 1
                            &&& forall|t: int|
                                0 <= t < old(self).entries@.len() ==> final(self).entries@[t]
                                    == old(self).entries@[t]
                        },
                    }
                },
                Err(e) => {
                    &&& e == ImageError::DecodeFailed
                    &&& spec_cache_get(old(self).entries@, path@) is None
                    &&& decoded_of(data@) is None
                    &&& final(self).entries@ == old(self).entries@
                },
            },
    {
        let n = self.entries.len();
        proof {
            assert(self.entries@.skip(0) =~= self.entries@);
        }
        let mut i: usize = 0;
        while i < n
            invariant
                i <= n,
                n == self.entries@.len(),
                spec_cache_get(self.entries@, path@) == spec_cache_get(
                    self.entries@.skip(i as int),
                    path@,
                ),
            decreases n - i,
        {
            proof {
                assert(self.entries@.skip(i as int)[0] == self.entries@[i as int]);
                assert(self.entries@.skip(i as int).drop_first() =~= self.entries@.skip(i + 1));
            }
            if self.entries[i].0.eq(path) {
                return Ok(&self.entries[i].1);
            }
            i += 1;
        }
        proof {
            assert(self.entries@.skip(n as int) =~= Seq::<(String, DecodedImage)>::empty());
        }
        match decode_rgba(data) {
            Some(img) => {
                let key = path.clone();
                proof {
                    lemma_cache_get_none(self.entries@, path@);
                    lemma_cache_get_push(self.entries@, path@, (key, img));
                }
                self.entries.push((key, img));
                let last = self.entries.len() - 1;
                proof {
                    assert(self.entries@[last as int] == self.entries@.last());
                }
                Ok(&self.entries[last].1)
            },
            None => Err(ImageError::DecodeFailed),
        }
    }
}


/// An entry, once present, is stable: the cache only ever grows, and growing
/// it never changes what an already-cached path maps to. Together with the
/// `get_or_decode` contract this gives the round trip: decoding the same path
/// twice returns pixel-identical images and decodes at most once.
pub proof fn lemma_cache_entry_stable(
    entries: Seq<(String, DecodedImage)>,
    path: Seq<char>,
    img: DecodedImage,
    entry: (String, DecodedImage),
)
    requires
        spec_cache_get(entries, path) == Some(img),
    ensures
        spec_cache_get(entries.push(entry), path) == Some(img),
    decreases entries.len(),
{
    if entries.len() > 0 {
        assert(entries.push(entry)[0] == entries[0]);
        if entries[0].0@ != path {
            lemma_cache_entry_stable(entries.drop_first(), path, img, entry);
            assert(entries.push(entry).drop_first() =~= entries.drop_first().push(entry));
        }
    }
}

} // verus!
