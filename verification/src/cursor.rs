//! Cursor images: which images of a cursor theme suit a size, and which
//! frame of an animated cursor shows at a time.
use vstd::prelude::*;

verus! {

/// What the frame choice reads of one cursor image.
#[derive(Debug, Clone, Copy, PartialEq, Eq, Structural)]
pub struct CursorImage {
    /// The nominal size the image was drawn for
    pub size: u32,
    pub width: u32,
    pub height: u32,
    pub xhot: u32,
    pub yhot: u32,
    /// How long the frame shows, in milliseconds
    pub delay: u32,
}

/// The images of one cursor, and the pixels of each (RGBA bytes, in the
/// order of the file).
#[derive(Debug, Clone)]
pub struct CursorData {
    pub images: Vec<CursorImage>,
    pub pixels: Vec<Vec<u8>>,
}

/// Why a cursor could not be had.
#[derive(Debug, Clone, PartialEq, Eq)]
pub enum CursorError {
    /// Cursor not found in theme
    CursorNotFound,
    /// Failed to read cursor file
    IoError(String),
    /// Failed to parse cursor file
    ParseError,
}

/// The images that `xcursor::parser::parse_xcursor` reads from the bytes of
/// a cursor file (each with its RGBA pixels), none where they do not read.
pub uninterp spec fn xcursor_images(content: Seq<u8>) -> Option<Seq<(CursorImage, Seq<u8>)>>;

/// Whether the bytes start with the magic of a cursor file.
pub open spec fn has_xcursor_magic(content: Seq<u8>) -> bool {
    content.len() >= 4 && content[0] == 0x58u8 && content[1] == 0x63u8 && content[2] == 0x75u8 && content[3]
        == 0x72u8
}

/// Calls `xcursor::parser::parse_xcursor`, handing each image out as its
/// plain fields and its RGBA pixels. Claimed of it, as its source shows:
/// the result is the named one for these bytes; bytes that do not start
/// with `Xcur` give none; every image it gives is 1 to 0x7fff pixels wide
/// and high, its hot spot lies within it, and it has 4 bytes of pixels per
/// pixel. (Where the file claims more images than memory can hold, the
/// allocation it makes for them fails; that is not stated.)
#[verifier::external_body]
fn parse_xcursor_images(content: &[u8]) -> (r: Option<(Vec<CursorImage>, Vec<Vec<u8>>)>)
    ensures
        r is Some <==> xcursor_images(content@) is Some,
        !has_xcursor_magic(content@) ==> r is None,
        r matches Some(p) ==> {
            let named = xcursor_images(content@)->0;
            &&& p.0@.len() == named.len() && p.1@.len() == named.len()
            &&& forall|i: int| 0 <= i < named.len() ==> #[trigger] p.0@[i] == named[i].0 && p.1@[i]@ == named[i].1
            &&& forall|i: int|
                0 <= i < named.len() ==> 1 <= #[trigger] named[i].0.width <= 0x7fff && 1 <= named[i].0.height
                    <= 0x7fff && named[i].0.xhot <= named[i].0.width && named[i].0.yhot <= named[i].0.height
                    && named[i].1.len() == 4 * named[i].0.width * named[i].0.height
        },
{
    let images = xcursor::parser::parse_xcursor(content)?;
    let mut meta = Vec::new();
    let mut pixels = Vec::new();
    for i in images {
        meta.push(CursorImage { size: i.size, width: i.width, height: i.height, xhot: i.xhot, yhot: i.yhot, delay: i.delay });
        pixels.push(i.pixels_rgba);
    }
    Some((meta, pixels))
}

/// The built-in cursor used where the theme has no default cursor: one
/// image of 64 pixels square drawn for size 32, hot spot at (1, 1), with
/// the given RGBA pixels.
pub fn create_fallback_cursor(pixels_rgba: Vec<u8>) -> (c: CursorData)
    ensures
        c.images@ == seq![CursorImage { size: 32, width: 64, height: 64, xhot: 1, yhot: 1, delay: 1 }],
        c.pixels@.len() == 1,
        c.pixels@[0]@ == pixels_rgba@,
        c.wf(),
{
    let mut images = Vec::new();
    images.push(CursorImage { size: 32, width: 64, height: 64, xhot: 1, yhot: 1, delay: 1 });
    let mut pixels = Vec::new();
    pixels.push(pixels_rgba);
    CursorData { images, pixels }
}

/// The cursor that parsed images make: the images and their pixels, or a
/// parse error where the bytes did not read.
pub fn cursor_from_images(parsed: Option<(Vec<CursorImage>, Vec<Vec<u8>>)>) -> (r: Result<CursorData, CursorError>)
    ensures
        match parsed {
            Some(p) => r matches Ok(c) && c.images@ == p.0@ && c.pixels@ == p.1@,
            None => r == Err::<CursorData, CursorError>(CursorError::ParseError),
        },
{
    match parsed {
        Some((images, pixels)) => Ok(CursorData { images, pixels }),
        None => Err(CursorError::ParseError),
    }
}

/// Reads a cursor from the bytes of a cursor file: its images with their
/// pixels, or a parse error where the bytes do not read as one.
pub fn load_cursor_data(content: &[u8]) -> (r: Result<CursorData, CursorError>)
    ensures
        r is Ok <==> xcursor_images(content@) is Some,
        !has_xcursor_magic(content@) ==> r == Err::<CursorData, CursorError>(CursorError::ParseError),
        r matches Ok(c) ==> c.wf() && c.images@.len() == xcursor_images(content@)->0.len() && forall|i: int|
            0 <= i < c.images@.len() ==> #[trigger] c.images@[i] == xcursor_images(content@)->0[i].0
                && c.pixels@[i]@ == xcursor_images(content@)->0[i].1,
{
    cursor_from_images(parse_xcursor_images(content))
}

pub open spec fn size_gap(size: u32, image: CursorImage) -> int {
    let d = size as int - image.size as int;
    if d < 0 {
        -d
    } else {
        d
    }
}

/// The first image whose nominal size is nearest to `size`.
pub open spec fn nearest_index(images: Seq<CursorImage>, size: u32) -> Option<int>
    decreases images.len(),
{
    if images.len() == 0 {
        None
    } else {
        match nearest_index(images.drop_last(), size) {
            Some(i) => if size_gap(size, images.last()) < size_gap(size, images[i]) {
                Some(images.len() - 1)
            } else {
                Some(i)
            },
            None => Some(images.len() - 1),
        }
    }
}

/// The positions of the images of `images.take(n)` with the width and
/// height of image `k`, in order.
pub open spec fn same_shape(images: Seq<CursorImage>, k: int, n: int) -> Seq<usize>
    decreases n,
{
    if n <= 0 {
        Seq::empty()
    } else {
        let rest = same_shape(images, k, n - 1);
        if images[n - 1].width == images[k].width && images[n - 1].height == images[k].height {
            rest.push((n - 1) as usize)
        } else {
            rest
        }
    }
}

/// The images that suit `size`: all of the width and height of the image
/// whose size is nearest to it.
pub open spec fn nearest_set(images: Seq<CursorImage>, size: u32) -> Seq<usize> {
    match nearest_index(images, size) {
        Some(k) => same_shape(images, k, images.len() as int),
        None => Seq::empty(),
    }
}

/// The total delay of the images at positions `idx`.
pub open spec fn total_delay(images: Seq<CursorImage>, idx: Seq<usize>) -> int
    decreases idx.len(),
{
    if idx.len() == 0 {
        0
    } else {
        total_delay(images, idx.drop_last()) + images[idx.last() as int].delay
    }
}

/// The position, within `idx`, of the frame that shows `m` milliseconds
/// into the animation.
pub open spec fn frame_at(images: Seq<CursorImage>, idx: Seq<usize>, m: int) -> int
    decreases idx.len(),
{
    if idx.len() == 0 {
        0
    } else if m < images[idx[0] as int].delay {
        0
    } else {
        1 + frame_at(images, idx.drop_first(), m - images[idx[0] as int].delay)
    }
}

/// Whether a cursor animates: it has several images, or its one image has
/// a delay.
pub open spec fn animated(images: Seq<CursorImage>) -> bool {
    images.len() > 1 || (images.len() > 0 && images[0].delay > 0)
}

pub proof fn lemma_nearest_index(images: Seq<CursorImage>, size: u32)
    ensures
        nearest_index(images, size) matches Some(i) ==> 0 <= i < images.len(),
        nearest_index(images, size) is None <==> images.len() == 0,
    decreases images.len(),
{
    if images.len() > 0 {
        lemma_nearest_index(images.drop_last(), size);
    }
}

pub proof fn lemma_same_shape(images: Seq<CursorImage>, k: int, n: int)
    requires
        0 <= k < images.len(),
        n <= images.len(),
    ensures
        forall|j: int| 0 <= j < same_shape(images, k, n).len() ==> (#[trigger] same_shape(images, k, n)[j]) < n,
        k < n ==> same_shape(images, k, n).len() > 0,
    decreases n,
{
    if n > 0 {
        lemma_same_shape(images, k, n - 1);
        let rest = same_shape(images, k, n - 1);
        if images[n - 1].width == images[k].width && images[n - 1].height == images[k].height {
            assert forall|j: int| 0 <= j < rest.push((n - 1) as usize).len() implies (#[trigger] rest.push(
                (n - 1) as usize,
            )[j]) < n by {
                if j < rest.len() {
                    assert(rest.push((n - 1) as usize)[j] == rest[j]);
                }
            }
        }
    }
}

/// The positions of the images that suit `size`.
pub fn nearest_images(size: u32, images: &Vec<CursorImage>) -> (r: Vec<usize>)
    ensures
        r@ == nearest_set(images@, size),
        forall|j: int| 0 <= j < r@.len() ==> (#[trigger] r@[j]) < images@.len(),
{
    proof {
        lemma_nearest_index(images@, size);
    }
    if images.len() == 0 {
        return Vec::new();
    }
    let mut best: usize = 0;
    let mut i: usize = 1;
    assert(images@.take(1).drop_last() =~= images@.take(0));
    assert(nearest_index(images@.take(0), size) is None);
    assert(images@.take(1).len() == 1);
    assert(nearest_index(images@.take(1), size) == Some(0int));
    while i < images.len()
        invariant
            1 <= i <= images.len(),
            best < i,
            nearest_index(images@.take(i as int), size) == Some(best as int),
        decreases images.len() - i,
    {
        assert(images@.take(i + 1).drop_last() =~= images@.take(i as int));
        assert(images@.take(i + 1).last() == images@[i as int]);
        assert(images@.take(i as int)[best as int] == images@[best as int]);
        let gi: i64 = size as i64 - images[i].size as i64;
        let gb: i64 = size as i64 - images[best].size as i64;
        let gi = if gi < 0 { -gi } else { gi };
        let gb = if gb < 0 { -gb } else { gb };
        if gi < gb {
            best = i;
        }
        i += 1;
    }
    assert(images@.take(i as int) =~= images@);
    let w = images[best].width;
    let h = images[best].height;
    let mut r: Vec<usize> = Vec::new();
    let mut j: usize = 0;
    while j < images.len()
        invariant
            j <= images.len(),
            best < images.len(),
            w == images@[best as int].width,
            h == images@[best as int].height,
            r@ == same_shape(images@, best as int, j as int),
        decreases images.len() - j,
    {
        if images[j].width == w && images[j].height == h {
            r.push(j);
        }
        j += 1;
    }
    proof {
        lemma_same_shape(images@, best as int, images@.len() as int);
    }
    r
}

impl CursorData {
    /// Every image has its pixels.
    pub open spec fn wf(&self) -> bool {
        self.pixels@.len() == self.images@.len()
    }

    /// The image that shows `millis` milliseconds into the animation at
    /// size `size` (see `frame`), with its pixels; the fallback image has
    /// none.
    pub fn get_image(&self, size: u32, millis: u32) -> (r: (CursorImage, Vec<u8>))
        requires
            self.wf(),
            total_delay(self.images@, nearest_set(self.images@, size)) <= u32::MAX,
        ensures
            match frame_choice(self.images@, size, millis) {
                Some(i) => r.0 == self.images@[i] && r.1@ == self.pixels@[i]@,
                None => r.0 == fallback_image() && r.1@.len() == 0,
            },
    {
        match frame_index(millis, size, &self.images) {
            Some(i) => (self.images[i], self.pixels[i].clone()),
            None => (CursorImage { size: 24, width: 24, height: 24, xhot: 0, yhot: 0, delay: 0 }, Vec::new()),
        }
    }

    pub fn is_animated(&self) -> (b: bool)
        ensures
            b == animated(self.images@),
    {
        self.images.len() > 1 || (self.images.len() > 0 && self.images[0].delay > 0)
    }

    /// The position, among the images that suit `size`, of the frame that
    /// shows `millis` milliseconds in (the time taken modulo 2^32, as the
    /// clock's milliseconds are cut to 32 bits); 0 where the cursor does
    /// not animate.
    pub fn get_frame_index(&self, size: u32, millis: u64) -> (r: usize)
        requires
            total_delay(self.images@, nearest_set(self.images@, size)) <= u32::MAX,
        ensures
            r == (if !animated(self.images@) || nearest_set(self.images@, size).len() == 0
                || total_delay(self.images@, nearest_set(self.images@, size)) == 0 {
                0
            } else {
                frame_at(
                    self.images@,
                    nearest_set(self.images@, size),
                    (millis as u32) as int % total_delay(self.images@, nearest_set(self.images@, size)),
                )
            }),
    {
        if !self.is_animated() {
            return 0;
        }
        let nearest = nearest_images(size, &self.images);
        if nearest.len() == 0 {
            return 0;
        }
        let total = sum_delays(&self.images, &nearest);
        if total == 0 {
            return 0;
        }
        let m: u32 = (#[verifier::truncate] (millis as u32)) % total;
        proof {
            lemma_frame_at_lt(self.images@, nearest@, m as int);
        }
        frame_position(&self.images, &nearest, m)
    }
}

/// The total delay of the images at positions `idx`.
fn sum_delays(images: &Vec<CursorImage>, idx: &Vec<usize>) -> (t: u32)
    requires
        forall|j: int| 0 <= j < idx@.len() ==> (#[trigger] idx@[j]) < images@.len(),
        total_delay(images@, idx@) <= u32::MAX,
    ensures
        t == total_delay(images@, idx@),
{
    let mut t: u32 = 0;
    let mut j: usize = 0;
    while j < idx.len()
        invariant
            j <= idx.len(),
            forall|q: int| 0 <= q < idx@.len() ==> (#[trigger] idx@[q]) < images@.len(),
            t == total_delay(images@, idx@.take(j as int)),
            total_delay(images@, idx@) <= u32::MAX,
        decreases idx.len() - j,
    {
        assert(idx@.take(j + 1).drop_last() =~= idx@.take(j as int));
        assert(idx@.take(j + 1).last() == idx@[j as int]);
        proof {
            lemma_total_delay_prefix(images@, idx@, j + 1);
        }
        t = t + images[idx[j]].delay;
        j += 1;
    }
    assert(idx@.take(j as int) =~= idx@);
    t
}

/// A prefix of the images delays no longer than all of them.
pub proof fn lemma_total_delay_prefix(images: Seq<CursorImage>, idx: Seq<usize>, n: int)
    requires
        0 <= n <= idx.len(),
    ensures
        total_delay(images, idx.take(n)) <= total_delay(images, idx),
    decreases idx.len() - n,
{
    if n < idx.len() {
        lemma_total_delay_prefix(images, idx, n + 1);
        assert(idx.take(n + 1).drop_last() =~= idx.take(n));
    } else {
        assert(idx.take(n) =~= idx);
    }
}

/// The position of the frame that shows `m` milliseconds in.
fn frame_position(images: &Vec<CursorImage>, idx: &Vec<usize>, m: u32) -> (r: usize)
    requires
        forall|j: int| 0 <= j < idx@.len() ==> (#[trigger] idx@[j]) < images@.len(),
    ensures
        r as int == frame_at(images@, idx@, m as int) || (r == 0 && frame_at(images@, idx@, m as int)
            >= idx@.len()),
{
    let mut millis: u32 = m;
    let mut k: usize = 0;
    assert(idx@.skip(0) =~= idx@);
    while k < idx.len()
        invariant
            k <= idx.len(),
            forall|j: int| 0 <= j < idx@.len() ==> (#[trigger] idx@[j]) < images@.len(),
            frame_at(images@, idx@, m as int) == k + frame_at(images@, idx@.skip(k as int), millis as int),
        decreases idx.len() - k,
    {
        let d = images[idx[k]].delay;
        assert(idx@.skip(k as int)[0] == idx@[k as int]);
        if millis < d {
            return k;
        }
        assert(idx@.skip(k as int).drop_first() =~= idx@.skip(k + 1));
        millis = millis - d;
        k += 1;
    }
    proof {
        lemma_frame_at_bound(images@, idx@.skip(k as int), millis as int);
    }
    0
}

/// The total delay is that of the first image and the rest.
pub proof fn lemma_total_delay_first(images: Seq<CursorImage>, idx: Seq<usize>)
    requires
        idx.len() > 0,
    ensures
        total_delay(images, idx) == images[idx[0] as int].delay + total_delay(images, idx.drop_first()),
    decreases idx.len(),
{
    if idx.len() > 1 {
        lemma_total_delay_first(images, idx.drop_last());
        assert(idx.drop_last().drop_first() =~= idx.drop_first().drop_last());
        assert(idx.drop_first().last() == idx.last());
        assert(idx.drop_last()[0] == idx[0]);
        assert(total_delay(images, idx) == total_delay(images, idx.drop_last()) + images[idx.last() as int].delay);
        assert(total_delay(images, idx.drop_first()) == total_delay(images, idx.drop_first().drop_last())
            + images[idx.drop_first().last() as int].delay);
    } else {
        assert(idx.drop_first().len() == 0);
        assert(idx.drop_last().len() == 0);
        assert(idx.last() == idx[0]);
        assert(total_delay(images, idx.drop_last()) == 0);
        assert(total_delay(images, idx.drop_first()) == 0);
        assert(total_delay(images, idx) == total_delay(images, idx.drop_last()) + images[idx.last() as int].delay);
    }
}

/// A time within the animation falls in one of its frames.
pub proof fn lemma_frame_at_lt(images: Seq<CursorImage>, idx: Seq<usize>, m: int)
    requires
        0 <= m < total_delay(images, idx),
    ensures
        0 <= frame_at(images, idx, m) < idx.len(),
    decreases idx.len(),
{
    if idx.len() == 0 {
    } else {
        lemma_total_delay_first(images, idx);
        if m >= images[idx[0] as int].delay {
            lemma_frame_at_lt(images, idx.drop_first(), m - images[idx[0] as int].delay);
        }
    }
}

pub proof fn lemma_frame_at_bound(images: Seq<CursorImage>, idx: Seq<usize>, m: int)
    ensures
        frame_at(images, idx, m) >= 0,
    decreases idx.len(),
{
    if idx.len() > 0 {
        lemma_frame_at_bound(images, idx.drop_first(), m - images[idx[0] as int].delay);
    }
}

/// The image shown where a cursor has no images: 24 pixels square, hot
/// spot at its corner, not animated.
pub open spec fn fallback_image() -> CursorImage {
    CursorImage { size: 24, width: 24, height: 24, xhot: 0, yhot: 0, delay: 0 }
}

/// The position of the image that shows `millis` milliseconds into the
/// animation at size `size`: among the images that suit the size, the
/// first where nothing animates, else the one whose delay covers the time
/// modulo the total; none where no image suits.
pub open spec fn frame_choice(images: Seq<CursorImage>, size: u32, millis: u32) -> Option<int> {
    let idx = nearest_set(images, size);
    let total = total_delay(images, idx);
    if idx.len() == 0 {
        None
    } else if total == 0 {
        Some(idx[0] as int)
    } else {
        Some(idx[frame_at(images, idx, millis as int % total)] as int)
    }
}

/// The position of the image that shows (see `frame_choice`).
pub fn frame_index(millis: u32, size: u32, images: &Vec<CursorImage>) -> (r: Option<usize>)
    requires
        total_delay(images@, nearest_set(images@, size)) <= u32::MAX,
    ensures
        r == (match frame_choice(images@, size, millis) {
            Some(i) => Some(i as usize),
            None => None,
        }),
        r matches Some(i) ==> i < images@.len(),
{
    let nearest = nearest_images(size, images);
    let total = sum_delays(images, &nearest);
    if nearest.len() == 0 {
        return None;
    }
    if total == 0 {
        return Some(nearest[0]);
    }
    let m = millis % total;
    proof {
        lemma_frame_at_lt(images@, nearest@, m as int);
    }
    let k = frame_position(images, &nearest, m);
    Some(nearest[k])
}

/// The image of a cursor that shows `millis` milliseconds into its
/// animation at size `size` (see `frame_choice`); where no image suits, an
/// image of 24 pixels square that does not animate.
pub fn frame(millis: u32, size: u32, images: &Vec<CursorImage>) -> (r: CursorImage)
    requires
        total_delay(images@, nearest_set(images@, size)) <= u32::MAX,
    ensures
        r == (match frame_choice(images@, size, millis) {
            Some(i) => images@[i],
            None => fallback_image(),
        }),
{
    match frame_index(millis, size, images) {
        Some(i) => images[i],
        None => CursorImage { size: 24, width: 24, height: 24, xhot: 0, yhot: 0, delay: 0 },
    }
}

} // verus!
