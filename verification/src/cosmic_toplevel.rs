//! The logic of the plugin that lists the open windows of a COSMIC session: which windows a
//! search shows, how the list of windows follows the compositor, and the window thumbnails.
use crate::protocol::{ThumbnailData, WorkspaceFilter};
use crate::text::{ascii_lowercase, ascii_words, chars_of, contains, contains_seq, split_ascii_whitespace, to_ascii_lowercase};
use std::collections::HashMap;
use vstd::prelude::*;

verus! {

broadcast use vstd::std_specs::hash::group_hash_axioms;

/// The workspaces of a list of workspace coordinates.
pub open spec fn coords_set(v: Seq<Vec<u32>>) -> Set<Seq<u32>> {
    v.map_values(|c: Vec<u32>| c@).to_set()
}

/// A window on the workspaces `entry` passes the filter when the active workspaces are
/// `active`: every window passes `All`; for `Current`, both must be known and share a
/// workspace.
pub open spec fn passes_filter(active: Set<Seq<u32>>, entry: Set<Seq<u32>>, filter: WorkspaceFilter) -> bool {
    ||| filter == WorkspaceFilter::All
    ||| (!active.is_empty() && !entry.is_empty() && exists|c: Seq<u32>| entry.contains(c) && active.contains(c))
}

/// Whether two workspace coordinates are the same.
fn same_coords(a: &Vec<u32>, b: &Vec<u32>) -> (r: bool)
    ensures
        r == (a@ == b@),
{
    if a.len() != b.len() {
        return false;
    }
    let mut i: usize = 0;
    while i < a.len()
        invariant
            a@.len() == b@.len(),
            0 <= i <= a@.len(),
            forall|j: int| 0 <= j < i ==> a@[j] == b@[j],
        decreases a@.len() - i,
    {
        if a[i] != b[i] {
            return false;
        }
        i = i + 1;
    }
    proof {
        assert(a@ =~= b@);
    }
    true
}

/// Whether the workspace `c` is one of `set`.
fn has_coords(set: &Vec<Vec<u32>>, c: &Vec<u32>) -> (r: bool)
    ensures
        r == coords_set(set@).contains(c@),
{
    let mut i: usize = 0;
    while i < set.len()
        invariant
            0 <= i <= set@.len(),
            forall|j: int| 0 <= j < i ==> set@[j]@ != c@,
        decreases set@.len() - i,
    {
        if same_coords(&set[i], c) {
            proof {
                assert(set@.map_values(|x: Vec<u32>| x@)[i as int] == c@);
            }
            return true;
        }
        i = i + 1;
    }
    proof {
        if coords_set(set@).contains(c@) {
            let m = set@.map_values(|x: Vec<u32>| x@);
            let j = choose|j: int| 0 <= j < m.len() && m[j] == c@;
            assert(set@[j]@ == c@);
        }
    }
    false
}

/// Whether a window on the workspaces `entry` passes `filter`, the active workspaces being
/// `active`.
pub fn matches_workspace_filter(active: &Vec<Vec<u32>>, entry: &Vec<Vec<u32>>, filter: WorkspaceFilter) -> (r: bool)
    ensures
        r == passes_filter(coords_set(active@), coords_set(entry@), filter),
{
    if filter == WorkspaceFilter::All {
        return true;
    }
    proof {
        assert(active@.len() == 0 ==> coords_set(active@) =~= Set::<Seq<u32>>::empty());
        assert(entry@.len() == 0 ==> coords_set(entry@) =~= Set::<Seq<u32>>::empty());
        if active@.len() > 0 {
            assert(coords_set(active@).contains(active@[0]@)) by {
                assert(active@.map_values(|x: Vec<u32>| x@)[0] == active@[0]@);
            }
        }
        if entry@.len() > 0 {
            assert(coords_set(entry@).contains(entry@[0]@)) by {
                assert(entry@.map_values(|x: Vec<u32>| x@)[0] == entry@[0]@);
            }
        }
    }
    if active.len() == 0 || entry.len() == 0 {
        return false;
    }
    let mut i: usize = 0;
    while i < entry.len()
        invariant
            0 <= i <= entry@.len(),
            forall|j: int| 0 <= j < i ==> !coords_set(active@).contains(#[trigger] entry@[j]@),
        decreases entry@.len() - i,
    {
        if has_coords(active, &entry[i]) {
            proof {
                assert(coords_set(entry@).contains(entry@[i as int]@)) by {
                    assert(entry@.map_values(|x: Vec<u32>| x@)[i as int] == entry@[i as int]@);
                }
            }
            return true;
        }
        i = i + 1;
    }
    proof {
        assert forall|c: Seq<u32>| !(coords_set(entry@).contains(c) && coords_set(active@).contains(c)) by {
            if coords_set(entry@).contains(c) {
                let m = entry@.map_values(|x: Vec<u32>| x@);
                let j = choose|j: int| 0 <= j < m.len() && m[j] == c;
                assert(entry@[j]@ == c);
            }
        }
    }
    false
}

} // verus!

verus! {

/// The height of a thumbnail `tw` pixels wide of a `w` by `h` window: the height that keeps
/// the proportions, rounded down, and at least 1.
pub open spec fn thumb_height(w: u32, h: u32, tw: u32) -> int {
    let q = (tw as int * h as int) / (w as int);
    if q < 1 {
        1
    } else {
        q
    }
}

/// Where the pixel (`x`, `y`) of a `tw` by `th` thumbnail is read in the captured buffer of a
/// `w` by `h` window whose rows are `stride` bytes apart: the nearest pixel below and to the
/// left in proportion, 4 bytes per pixel.
pub open spec fn source_index(w: u32, h: u32, stride: u32, tw: u32, th: int, y: int, x: int) -> int {
    ((y * h as int) / th) * stride as int + ((x * w as int) / tw as int) * 4
}

/// Every pixel of the thumbnail is read from within the buffer of `len` bytes.
pub open spec fn source_fits(len: int, w: u32, h: u32, stride: u32, tw: u32) -> bool {
    let th = thumb_height(w, h, tw);
    forall|y: int, x: int|
        0 <= y < th && 0 <= x < tw ==> #[trigger] source_index(w, h, stride, tw, th, y, x) + 3 < len
}

/// `pixels` holds the first `n` pixels of the thumbnail, row by row, each as the 4 bytes read
/// from the buffer.
pub open spec fn thumb_prefix(raw: Seq<u8>, w: u32, h: u32, stride: u32, tw: u32, pixels: Seq<u8>, n: int) -> bool {
    let th = thumb_height(w, h, tw);
    &&& pixels.len() == n * 4
    &&& forall|p: int, k: int|
        0 <= p < n && 0 <= k < 4 ==> #[trigger] pixels[p * 4 + k] == raw[source_index(
            w,
            h,
            stride,
            tw,
            th,
            p / tw as int,
            p % tw as int,
        ) + k]
}

proof fn lemma_not_fits(len: int, w: u32, h: u32, stride: u32, tw: u32, y: int, x: int)
    requires
        0 <= y < thumb_height(w, h, tw),
        0 <= x < tw,
        source_index(w, h, stride, tw, thumb_height(w, h, tw), y, x) + 3 >= len,
    ensures
        !source_fits(len, w, h, stride, tw),
{
}

proof fn lemma_row_bound(y: int, h: int, th: int)
    requires
        0 <= y < th,
        0 < h,
        0 < th,
    ensures
        0 <= (y * h) / th < h,
{
    assert(0 <= y * h) by (nonlinear_arith)
        requires
            0 <= y,
            0 < h,
    ;
    assert(y * h < th * h) by (nonlinear_arith)
        requires
            y < th,
            0 < h,
    ;
    assert((y * h) / th < h) by (nonlinear_arith)
        requires
            y * h < th * h,
            0 < th,
            0 <= y * h,
    ;
    assert(0 <= (y * h) / th) by (nonlinear_arith)
        requires
            0 <= y * h,
            0 < th,
    ;
}

proof fn lemma_pixel_pos(y: int, x: int, tw: int)
    requires
        0 <= x < tw,
        0 <= y,
    ensures
        (y * tw + x) / tw == y,
        (y * tw + x) % tw == x,
{
    assert((y * tw + x) / tw == y && (y * tw + x) % tw == x) by (nonlinear_arith)
        requires
            0 <= x < tw,
            0 <= y,
    ;
}

/// Scales a captured window buffer (`w` by `h` pixels of 4 bytes, rows `stride` bytes apart)
/// down to an RGBA thumbnail `target_width` pixels wide, by nearest-pixel sampling.
///
/// There is no thumbnail for an empty window or width, or when a sampled pixel lies beyond the
/// buffer.
pub fn build_thumbnail_rgba(raw: &[u8], w: u32, h: u32, stride: u32, target_width: u32) -> (r: Option<ThumbnailData>)
    requires
        w > 0 && h > 0 && target_width > 0 ==> target_width as int * thumb_height(w, h, target_width) * 4
            <= u32::MAX,
    ensures
        (w == 0 || h == 0 || target_width == 0) ==> r is None,
        (w > 0 && h > 0 && target_width > 0) ==> {
            &&& r is Some <==> source_fits(raw@.len() as int, w, h, stride, target_width)
            &&& r matches Some(t) ==> {
                &&& t.width == target_width
                &&& t.height == thumb_height(w, h, target_width)
                &&& thumb_prefix(raw@, w, h, stride, target_width, t.pixels@, target_width * t.height)
            }
        },
{
    if w == 0 || h == 0 || target_width == 0 {
        return None;
    }
    proof {
        assert((target_width as int) * (h as int) <= 0xffff_ffff * 0xffff_ffffint) by (nonlinear_arith)
            requires
                target_width <= 0xffff_ffff,
                h <= 0xffff_ffff,
                0 <= target_width,
                0 <= h,
        ;
    }
    let q: u64 = (target_width as u64) * (h as u64) / (w as u64);
    let th64: u64 = if q < 1 { 1 } else { q };
    proof {
        assert(th64 == thumb_height(w, h, target_width));
        assert(target_width as int * th64 * 4 <= u32::MAX);
        assert(th64 <= u32::MAX) by (nonlinear_arith)
            requires
                target_width as int * th64 * 4 <= u32::MAX,
                target_width >= 1,
        ;
    }
    let th: u32 = th64 as u32;
    let tw = target_width;
    let ghost thi: int = th as int;
    let mut pixels: Vec<u8> = Vec::new();
    let mut y: u32 = 0;
    while y < th
        invariant
            thi == th,
            tw == target_width,
            th == thumb_height(w, h, tw),
            tw as int * th * 4 <= u32::MAX,
            w > 0,
            h > 0,
            tw > 0,
            0 <= y <= th,
            thumb_prefix(raw@, w, h, stride, tw, pixels@, y * tw as int),
            forall|yy: int, x: int|
                0 <= yy < y && 0 <= x < tw ==> #[trigger] source_index(w, h, stride, tw, thi, yy, x) + 3
                    < raw@.len(),
        decreases th - y,
    {
        proof {
            assert((y as int) * (h as int) <= 0xffff_ffff * 0xffff_ffffint) by (nonlinear_arith)
                requires
                    y <= 0xffff_ffff,
                    h <= 0xffff_ffff,
                    0 <= y,
                    0 <= h,
            ;
        }
        let sy: u128 = (y as u128) * (h as u128) / (th as u128);
        proof {
            lemma_row_bound(y as int, h as int, th as int);
        }
        let mut x: u32 = 0;
        while x < tw
            invariant
                thi == th,
                tw == target_width,
                th == thumb_height(w, h, tw),
                w > 0,
                h > 0,
                tw > 0,
                0 <= y < th,
                0 <= x <= tw,
                sy == (y as int * h as int) / (th as int),
                sy < h,
                thumb_prefix(raw@, w, h, stride, tw, pixels@, y * tw as int + x),
                forall|yy: int, xx: int|
                    0 <= yy < y && 0 <= xx < tw ==> #[trigger] source_index(w, h, stride, tw, thi, yy, xx) + 3
                        < raw@.len(),
                forall|xx: int| 0 <= xx < x ==> #[trigger] source_index(w, h, stride, tw, thi, y as int, xx) + 3
                    < raw@.len(),
            decreases tw - x,
        {
            proof {
                assert((x as int) * (w as int) <= 0xffff_ffff * 0xffff_ffffint) by (nonlinear_arith)
                    requires
                        x <= 0xffff_ffff,
                        w <= 0xffff_ffff,
                        0 <= x,
                        0 <= w,
                ;
            }
            let sx: u128 = (x as u128) * (w as u128) / (tw as u128);
            proof {
                lemma_row_bound(x as int, w as int, tw as int);
                assert(sy * stride <= (h as int) * (stride as int)) by (nonlinear_arith)
                    requires
                        sy < h,
                        0 <= stride,
                ;
                assert((h as int) * (stride as int) <= 0xffff_ffff * 0xffff_ffffint) by (nonlinear_arith)
                    requires
                        h <= 0xffff_ffff,
                        stride <= 0xffff_ffff,
                        0 <= h,
                        0 <= stride,
                ;
            }
            let idx: u128 = sy * (stride as u128) + sx * 4;
            proof {
                assert(idx == source_index(w, h, stride, tw, thi, y as int, x as int));
            }
            if idx + 3 >= raw.len() as u128 {
                proof {
                    lemma_not_fits(raw@.len() as int, w, h, stride, tw, y as int, x as int);
                }
                return None;
            }
            let i = idx as usize;
            let ghost before = pixels@;
            let ghost n: int = y * tw as int + x;
            pixels.push(raw[i]);
            pixels.push(raw[i + 1]);
            pixels.push(raw[i + 2]);
            pixels.push(raw[i + 3]);
            proof {
                lemma_pixel_pos(y as int, x as int, tw as int);
                assert forall|p: int, k: int| 0 <= p < n + 1 && 0 <= k < 4 implies #[trigger] pixels@[p * 4 + k]
                    == raw@[source_index(w, h, stride, tw, thi, p / tw as int, p % tw as int) + k] by {
                    if p < n {
                        assert(p * 4 + k < n * 4) by (nonlinear_arith)
                            requires
                                p < n,
                                k < 4,
                        ;
                        assert(pixels@[p * 4 + k] == before[p * 4 + k]);
                    } else {
                        assert(p * 4 + k == n * 4 + k);
                    }
                }
            }
            x = x + 1;
        }
        proof {
            assert(y * tw as int + tw as int == (y + 1) * tw as int) by (nonlinear_arith);
        }
        y = y + 1;
    }
    proof {
        assert forall|yy: int, x: int|
            0 <= yy < thi && 0 <= x < tw implies #[trigger] source_index(w, h, stride, tw, thi, yy, x) + 3
            < raw@.len() by {}
        assert(tw as int * th as int == th as int * tw as int) by (nonlinear_arith);
    }
    Some(ThumbnailData { width: tw, height: th, pixels })
}

} // verus!

verus! {

/// The width of the thumbnails of windows.
pub const THUMBNAIL_TARGET_WIDTH: u32 = 160;

/// Where the thumbnail of a window stands.
#[derive(Debug)]
pub enum ThumbnailState {
    /// A capture session was created.
    Pending,
    /// A frame of this size is being captured.
    Capturing { width: u32, height: u32, stride: u32 },
    /// The thumbnail is ready.
    Ready(ThumbnailData),
}

/// A thumbnail of a `width` by `height` window fits the RGBA buffer size that the thumbnail
/// builder can hold.
pub open spec fn thumbnail_fits(width: u32, height: u32) -> bool {
    width > 0 && height > 0 ==> THUMBNAIL_TARGET_WIDTH as int * thumb_height(width, height, THUMBNAIL_TARGET_WIDTH) * 4
        <= u32::MAX
}

/// Whether a thumbnail of a `width` by `height` window fits.
pub fn thumbnail_size_fits(width: u32, height: u32) -> (r: bool)
    ensures
        r == thumbnail_fits(width, height),
{
    if width == 0 || height == 0 {
        return true;
    }
    proof {
        assert((THUMBNAIL_TARGET_WIDTH as int) * (height as int) <= 0xffff_ffff * 0xffff_ffffint) by (nonlinear_arith)
            requires
                height <= 0xffff_ffff,
        ;
    }
    let q: u64 = (THUMBNAIL_TARGET_WIDTH as u64) * (height as u64) / (width as u64);
    let th: u64 = if q < 1 { 1 } else { q };
    proof {
        assert(th <= 0xffff_ffff * 0xffff_ffffint);
    }
    (th as u128) * 640 <= 0xffff_ffffu128
}

/// The thumbnails of windows, by window.
pub struct ThumbnailCaptureState {
    cache: HashMap<u32, ThumbnailState>,
}

impl ThumbnailCaptureState {
    /// Where the thumbnail of each window stands.
    pub closed spec fn cache(&self) -> Map<u32, ThumbnailState> {
        self.cache@
    }

    /// No thumbnail yet.
    pub fn new() -> (s: ThumbnailCaptureState)
        ensures
            s.cache() == Map::<u32, ThumbnailState>::empty(),
    {
        ThumbnailCaptureState { cache: HashMap::new() }
    }

    /// The thumbnail of window `id`, once it is ready.
    pub fn thumbnail_for(&self, id: u32) -> (r: Option<ThumbnailData>)
        ensures
            match r {
                Some(t) => self.cache().contains_key(id) && (self.cache()[id] matches ThumbnailState::Ready(c)
                    && t.width == c.width && t.height == c.height && t.pixels@ == c.pixels@),
                None => !(self.cache().contains_key(id) && self.cache()[id] is Ready),
            },
    {
        match self.cache.get(&id) {
            Some(ThumbnailState::Ready(t)) => Some(
                ThumbnailData { width: t.width, height: t.height, pixels: t.pixels.clone() },
            ),
            _ => None,
        }
    }

    /// A capture of window `id` is started only when nothing is known of its thumbnail yet.
    pub fn request_capture(&self, id: u32) -> (start: bool)
        ensures
            start == !self.cache().contains_key(id),
    {
        !self.cache.contains_key(&id)
    }

    /// A capture session was created for window `id`.
    pub fn mark_pending(&mut self, id: u32)
        ensures
            final(self).cache() == old(self).cache().insert(id, ThumbnailState::Pending),
    {
        self.cache.insert(id, ThumbnailState::Pending);
    }

    /// A frame of `width` by `height` pixels, rows `stride` bytes apart, is being captured for
    /// window `id`.
    pub fn mark_capturing(&mut self, id: u32, width: u32, height: u32, stride: u32)
        ensures
            final(self).cache() == old(self).cache().insert(
                id,
                ThumbnailState::Capturing { width, height, stride },
            ),
    {
        self.cache.insert(id, ThumbnailState::Capturing { width, height, stride });
    }

    /// The frame of window `id` was captured into `raw`: its thumbnail is built and kept.
    ///
    /// Nothing happens unless a frame was being captured; when no thumbnail can be built from
    /// it, the window is forgotten. The RGBA buffer of the thumbnail of a frame being captured
    /// must have a size that fits in a `u32`.
    pub fn mark_ready_from_capture(&mut self, id: u32, raw: &[u8]) -> (r: Option<ThumbnailData>)
        requires
            old(self).cache().contains_key(id) ==> (old(self).cache()[id] matches ThumbnailState::Capturing {
                width,
                height,
                ..
            } ==> thumbnail_fits(width, height)),
        ensures
            match (if old(self).cache().contains_key(id) { Some(old(self).cache()[id]) } else { None }) {
                Some(ThumbnailState::Capturing { width, height, stride }) => {
                    let fits = width > 0 && height > 0 && source_fits(
                        raw@.len() as int,
                        width,
                        height,
                        stride,
                        THUMBNAIL_TARGET_WIDTH,
                    );
                    &&& fits ==> (r matches Some(t) && {
                        &&& t.width == THUMBNAIL_TARGET_WIDTH
                        &&& t.height == thumb_height(width, height, THUMBNAIL_TARGET_WIDTH)
                        &&& thumb_prefix(raw@, width, height, stride, THUMBNAIL_TARGET_WIDTH, t.pixels@, t.width * t.height)
                        &&& final(self).cache().contains_key(id)
                        &&& final(self).cache()[id] matches ThumbnailState::Ready(c) && c.width == t.width
                            && c.height == t.height && c.pixels@ == t.pixels@
                        &&& final(self).cache().remove(id) == old(self).cache().remove(id)
                    })
                    &&& !fits ==> r is None && final(self).cache() == old(self).cache().remove(id)
                },
                _ => r is None && final(self).cache() == old(self).cache(),
            },
    {
        let state = match self.cache.remove(&id) {
            Some(s) => s,
            None => {
                return None;
            },
        };
        match state {
            ThumbnailState::Capturing { width, height, stride } => {
                match build_thumbnail_rgba(raw, width, height, stride, THUMBNAIL_TARGET_WIDTH) {
                    Some(t) => {
                        let kept = ThumbnailData { width: t.width, height: t.height, pixels: t.pixels.clone() };
                        self.cache.insert(id, ThumbnailState::Ready(kept));
                        proof {
                            assert(self.cache().remove(id) =~= old(self).cache().remove(id));
                        }
                        Some(t)
                    },
                    None => None,
                }
            },
            other => {
                self.cache.insert(id, other);
                proof {
                    assert(self.cache() =~= old(self).cache());
                }
                None
            },
        }
    }

    /// The compositor is ready to capture window `id` into buffers of `width` by `height` pixels;
    /// `abgr` tells whether it offers the ABGR8888 format. Returns the row stride and the size in
    /// bytes of the buffer to allocate; without that format, or for an empty size, there is no
    /// capture and a capture in flight is forgotten.
    pub fn capture_size(&mut self, id: u32, abgr: bool, width: u32, height: u32) -> (r: Option<(u32, u32)>)
        requires
            (abgr && width > 0 && height > 0) ==> width as int * 4 * height as int <= u32::MAX,
        ensures
            (abgr && width > 0 && height > 0) ==> {
                &&& r == Some(((width * 4) as u32, (width * 4 * height) as u32))
                &&& final(self).cache() == old(self).cache()
            },
            !(abgr && width > 0 && height > 0) ==> {
                &&& r is None
                &&& (old(self).cache().contains_key(id) && !(old(self).cache()[id] is Ready)) ==> final(self).cache()
                    == old(self).cache().remove(id)
                &&& !(old(self).cache().contains_key(id) && !(old(self).cache()[id] is Ready)) ==> final(self).cache()
                    == old(self).cache()
            },
    {
        if !abgr || width == 0 || height == 0 {
            self.clear_in_flight(id);
            return None;
        }
        proof {
            assert(width as int * 4 <= width as int * 4 * height as int) by (nonlinear_arith)
                requires
                    height >= 1,
            ;
        }
        let stride = width * 4;
        Some((stride, stride * height))
    }

    /// Forgets the thumbnail of window `id`.
    pub fn invalidate(&mut self, id: u32)
        ensures
            final(self).cache() == old(self).cache().remove(id),
    {
        self.cache.remove(&id);
    }

    /// Forgets a capture of window `id` that has not completed; a ready thumbnail is kept.
    pub fn clear_in_flight(&mut self, id: u32)
        ensures
            (old(self).cache().contains_key(id) && !(old(self).cache()[id] is Ready)) ==> final(self).cache()
                == old(self).cache().remove(id),
            !(old(self).cache().contains_key(id) && !(old(self).cache()[id] is Ready)) ==> final(self).cache()
                == old(self).cache(),
    {
        let in_flight = match self.cache.get(&id) {
            Some(ThumbnailState::Ready(_)) => false,
            Some(_) => true,
            None => false,
        };
        if in_flight {
            self.cache.remove(&id);
        }
    }
}

} // verus!

verus! {

/// An open window, as the compositor describes it.
#[derive(Debug, Clone)]
pub struct Toplevel {
    /// The protocol identifier of the window's handle.
    pub id: u32,
    pub app_id: String,
    pub title: String,
    /// The window is the active one.
    pub activated: bool,
    /// The workspaces that the window is on.
    pub workspace_coordinates: Vec<Vec<u32>>,
}

/// `i` is the first position of a window with identifier `id`.
pub open spec fn is_first_id(ts: Seq<Toplevel>, id: u32, i: int) -> bool {
    &&& 0 <= i < ts.len()
    &&& ts[i].id == id
    &&& forall|j: int| 0 <= j < i ==> ts[j].id != id
}

/// The first position of a window with identifier `id`, if any.
pub open spec fn first_pos(ts: Seq<Toplevel>, id: u32) -> Option<int> {
    if exists|i: int| is_first_id(ts, id, i) {
        Some(choose|i: int| is_first_id(ts, id, i))
    } else {
        None
    }
}

/// The position of the first window with identifier `id`.
fn find_id(ts: &Vec<Toplevel>, id: u32) -> (r: Option<usize>)
    ensures
        match r {
            Some(i) => first_pos(ts@, id) == Some(i as int),
            None => first_pos(ts@, id) is None && forall|j: int| 0 <= j < ts@.len() ==> ts@[j].id != id,
        },
{
    let mut i: usize = 0;
    while i < ts.len()
        invariant
            0 <= i <= ts@.len(),
            forall|j: int| 0 <= j < i ==> ts@[j].id != id,
        decreases ts@.len() - i,
    {
        if ts[i].id == id {
            proof {
                assert(is_first_id(ts@, id, i as int));
                let k = choose|k: int| is_first_id(ts@, id, k);
                if k < i {
                    assert(ts@[k].id != id);
                }
                if i < k {
                    assert(ts@[i as int].id != id);
                }
            }
            return Some(i);
        }
        i = i + 1;
    }
    None
}

/// Every word of `words` occurs in `text`, letters compared in lower case.
pub open spec fn words_in(text: Seq<char>, words: Seq<Seq<char>>) -> bool {
    forall|i: int| 0 <= i < words.len() ==> contains_seq(ascii_lowercase(text), #[trigger] words[i])
}

/// A search for `q` with `filter` shows the window `t`, the active workspaces being `active`:
/// it passes the filter, and the query is empty or each of its words occurs in the
/// application's identifier or each occurs in the title, ignoring ASCII case.
pub open spec fn window_shown(t: Toplevel, active: Seq<Vec<u32>>, filter: WorkspaceFilter, q: Seq<char>) -> bool {
    let words = ascii_words(ascii_lowercase(q));
    &&& passes_filter(coords_set(active), coords_set(t.workspace_coordinates@), filter)
    &&& (q.len() == 0 || words_in(t.app_id@, words) || words_in(t.title@, words))
}

/// The positions of the first `n` windows that a search shows, in order.
pub open spec fn shown_positions(
    ts: Seq<Toplevel>,
    active: Seq<Vec<u32>>,
    filter: WorkspaceFilter,
    q: Seq<char>,
    n: int,
) -> Seq<usize>
    decreases n,
{
    if n <= 0 {
        Seq::empty()
    } else if window_shown(ts[n - 1], active, filter, q) {
        shown_positions(ts, active, filter, q, n - 1).push((n - 1) as usize)
    } else {
        shown_positions(ts, active, filter, q, n - 1)
    }
}

/// Law: a search for a non-empty query `q` shows, in order of position, exactly the windows
/// that pass the workspace filter and for which every word of the lower-case query occurs in
/// the lower-case application identifier, or every word occurs in the lower-case title. More
/// words can only narrow the search.
pub proof fn law_window_search(ts: Seq<Toplevel>, active: Seq<Vec<u32>>, filter: WorkspaceFilter, q: Seq<char>, n: int)
    requires
        0 <= n <= ts.len() <= usize::MAX,
        q.len() > 0,
    ensures
        forall|k: int| 0 <= k < shown_positions(ts, active, filter, q, n).len() ==> #[trigger] shown_positions(ts, active, filter, q, n)[k] < n,
        forall|k1: int, k2: int|
            0 <= k1 < k2 < shown_positions(ts, active, filter, q, n).len() ==> #[trigger] shown_positions(ts, active, filter, q, n)[k1]
                < #[trigger] shown_positions(ts, active, filter, q, n)[k2],
        forall|i: int|
            0 <= i < n ==> (#[trigger] shown_positions(ts, active, filter, q, n).contains(i as usize) <==> {
                &&& passes_filter(coords_set(active), coords_set(ts[i].workspace_coordinates@), filter)
                &&& {
                    ||| forall|w: int|
                        0 <= w < ascii_words(ascii_lowercase(q)).len() ==> contains_seq(
                            ascii_lowercase(ts[i].app_id@),
                            #[trigger] ascii_words(ascii_lowercase(q))[w],
                        )
                    ||| forall|w: int|
                        0 <= w < ascii_words(ascii_lowercase(q)).len() ==> contains_seq(
                            ascii_lowercase(ts[i].title@),
                            #[trigger] ascii_words(ascii_lowercase(q))[w],
                        )
                }
            }),
    decreases n,
{
    if n > 0 {
        law_window_search(ts, active, filter, q, n - 1);
        let prev = shown_positions(ts, active, filter, q, n - 1);
        let cur = shown_positions(ts, active, filter, q, n);
        assert forall|i: int| 0 <= i < n implies (cur.contains(i as usize) <==> window_shown(ts[i], active, filter, q)) by {
            if cur.contains(i as usize) {
                let k = choose|k: int| 0 <= k < cur.len() && cur[k] == i as usize;
                if k < prev.len() {
                    assert(prev[k] == i as usize);
                    assert(prev.contains(i as usize));
                }
            }
            if i < n - 1 {
                if prev.contains(i as usize) {
                    let k = choose|k: int| 0 <= k < prev.len() && prev[k] == i as usize;
                    assert(cur[k] == i as usize);
                }
            } else {
                if window_shown(ts[n - 1], active, filter, q) {
                    assert(cur[prev.len() as int] == i as usize);
                } else {
                    assert(cur == prev);
                    if prev.contains(i as usize) {
                        let k = choose|k: int| 0 <= k < prev.len() && prev[k] == i as usize;
                        assert(prev[k] < n - 1);
                    }
                }
            }
        }
        assert forall|k1: int, k2: int| 0 <= k1 < k2 < cur.len() implies cur[k1] < cur[k2] by {
            if k2 >= prev.len() {
                assert(cur[k1] == prev[k1]);
            } else {
                assert(cur[k1] == prev[k1] && cur[k2] == prev[k2]);
            }
        }
    }
}

/// Whether each of `words` occurs in `text`, ignoring ASCII case.
pub(crate) fn all_words_in(text: &str, words: &Vec<Vec<char>>) -> (r: bool)
    ensures
        r == words_in(text@, words@.map_values(|w: Vec<char>| w@)),
{
    let lower = to_ascii_lowercase(&chars_of(text));
    let ghost ws = words@.map_values(|w: Vec<char>| w@);
    let mut i: usize = 0;
    while i < words.len()
        invariant
            ws == words@.map_values(|w: Vec<char>| w@),
            lower@ == ascii_lowercase(text@),
            0 <= i <= words@.len(),
            forall|j: int| 0 <= j < i ==> contains_seq(ascii_lowercase(text@), #[trigger] ws[j]),
        decreases words@.len() - i,
    {
        if !contains(&lower, &words[i]) {
            proof {
                assert(ws[i as int] == words@[i as int]@);
            }
            return false;
        }
        i = i + 1;
    }
    true
}

/// What a search over the windows does.
#[derive(Debug)]
pub enum WindowSearch {
    /// The active workspaces are not known yet: the search waits for them.
    Deferred,
    /// Show these windows, by position in the list, in order.
    Shown(Vec<usize>),
}

/// The windows that the plugin knows, and what it remembers between searches.
pub struct WindowList {
    pub toplevels: Vec<Toplevel>,
    /// Windows removed since the last search, which are no longer activated or closed.
    pub ids_to_ignore: Vec<u32>,
    pub active_workspace_coordinates: Vec<Vec<u32>>,
    /// A search that waits for the active workspaces.
    pub pending_workspace_search: Option<String>,
}

impl WindowList {
    /// No window known.
    pub fn new() -> (l: WindowList)
        ensures
            l.toplevels@.len() == 0,
            l.ids_to_ignore@.len() == 0,
            l.active_workspace_coordinates@.len() == 0,
            l.pending_workspace_search is None,
    {
        WindowList {
            toplevels: Vec::new(),
            ids_to_ignore: Vec::new(),
            active_workspace_coordinates: Vec::new(),
            pending_workspace_search: None,
        }
    }

    /// The compositor describes the window `t`: a known window is updated in place, or moved to
    /// the end when it became the active one; a new window is added at the end.
    pub fn update_info(&mut self, t: Toplevel)
        ensures
            final(self).ids_to_ignore@ == old(self).ids_to_ignore@,
            final(self).active_workspace_coordinates@ == old(self).active_workspace_coordinates@,
            final(self).pending_workspace_search == old(self).pending_workspace_search,
            match first_pos(old(self).toplevels@, t.id) {
                Some(i) => if t.activated {
                    final(self).toplevels@ == old(self).toplevels@.remove(i).push(t)
                } else {
                    final(self).toplevels@ == old(self).toplevels@.update(i, t)
                },
                None => final(self).toplevels@ == old(self).toplevels@.push(t),
            },
    {
        match find_id(&self.toplevels, t.id) {
            Some(i) => {
                if t.activated {
                    self.toplevels.remove(i);
                    self.toplevels.push(t);
                } else {
                    self.toplevels.set(i, t);
                }
            },
            None => {
                self.toplevels.push(t);
            },
        }
    }

    /// The compositor removed the window `id`: it is forgotten, and requests for it are ignored
    /// until the next search. Returns whether the window was known.
    pub fn update_remove(&mut self, id: u32) -> (known: bool)
        ensures
            final(self).active_workspace_coordinates@ == old(self).active_workspace_coordinates@,
            final(self).pending_workspace_search == old(self).pending_workspace_search,
            known == first_pos(old(self).toplevels@, id) is Some,
            match first_pos(old(self).toplevels@, id) {
                Some(i) => {
                    &&& final(self).toplevels@ == old(self).toplevels@.remove(i)
                    &&& final(self).ids_to_ignore@ == old(self).ids_to_ignore@.push(id)
                },
                None => {
                    &&& final(self).toplevels@ == old(self).toplevels@
                    &&& final(self).ids_to_ignore@ == old(self).ids_to_ignore@
                },
            },
    {
        match find_id(&self.toplevels, id) {
            Some(i) => {
                self.toplevels.remove(i);
                self.ids_to_ignore.push(id);
                true
            },
            None => false,
        }
    }

    /// The compositor reports the active workspaces; a search that waited for them is returned,
    /// to be run now with the `Current` filter.
    pub fn update_active_workspaces(&mut self, coords: Vec<Vec<u32>>) -> (pending: Option<String>)
        ensures
            final(self).active_workspace_coordinates@ == coords@,
            final(self).toplevels@ == old(self).toplevels@,
            final(self).ids_to_ignore@ == old(self).ids_to_ignore@,
            final(self).pending_workspace_search is None,
            pending == old(self).pending_workspace_search,
    {
        self.active_workspace_coordinates = coords;
        self.pending_workspace_search.take()
    }

    /// The window to act on for a request about window `id`: none when it was removed since the
    /// last search or is not known.
    pub fn target(&self, id: u32) -> (r: Option<u32>)
        ensures
            (!self.ids_to_ignore@.contains(id) && first_pos(self.toplevels@, id) is Some) ==> r == Some(id),
            !(!self.ids_to_ignore@.contains(id) && first_pos(self.toplevels@, id) is Some) ==> r is None,
    {
        let mut i: usize = 0;
        while i < self.ids_to_ignore.len()
            invariant
                0 <= i <= self.ids_to_ignore@.len(),
                forall|j: int| 0 <= j < i ==> self.ids_to_ignore@[j] != id,
            decreases self.ids_to_ignore@.len() - i,
        {
            if self.ids_to_ignore[i] == id {
                proof {
                    assert(self.ids_to_ignore@[i as int] == id);
                }
                return None;
            }
            i = i + 1;
        }
        match find_id(&self.toplevels, id) {
            Some(_) => Some(id),
            None => None,
        }
    }

    /// Requests about windows removed before this point are no longer ignored.
    pub fn clear_ignored(&mut self)
        ensures
            final(self).ids_to_ignore@.len() == 0,
            final(self).toplevels@ == old(self).toplevels@,
            final(self).active_workspace_coordinates@ == old(self).active_workspace_coordinates@,
            final(self).pending_workspace_search == old(self).pending_workspace_search,
    {
        self.ids_to_ignore.clear();
    }

    /// Searches the windows for `query` with `filter`.
    ///
    /// A search of the windows of the current workspaces waits while the active workspaces are
    /// unknown; otherwise the windows shown are those that pass the filter and match the query.
    pub fn search(&mut self, query: &str, filter: WorkspaceFilter) -> (r: WindowSearch)
        ensures
            final(self).toplevels@ == old(self).toplevels@,
            final(self).ids_to_ignore@ == old(self).ids_to_ignore@,
            final(self).active_workspace_coordinates@ == old(self).active_workspace_coordinates@,
            (filter == WorkspaceFilter::Current && old(self).active_workspace_coordinates@.len() == 0) ==> {
                &&& r is Deferred
                &&& final(self).pending_workspace_search matches Some(p) && p@ == query@
            },
            !(filter == WorkspaceFilter::Current && old(self).active_workspace_coordinates@.len() == 0) ==> {
                &&& final(self).pending_workspace_search is None
                &&& r matches WindowSearch::Shown(ps) && ps@ == shown_positions(
                    old(self).toplevels@,
                    old(self).active_workspace_coordinates@,
                    filter,
                    query@,
                    old(self).toplevels@.len() as int,
                )
            },
    {
        if filter == WorkspaceFilter::Current && self.active_workspace_coordinates.len() == 0 {
            self.pending_workspace_search = Some(query.to_owned());
            return WindowSearch::Deferred;
        }
        self.pending_workspace_search = None;
        let lower = to_ascii_lowercase(&chars_of(query));
        let words = split_ascii_whitespace(&lower);
        let empty = query.unicode_len() == 0;
        let mut shown: Vec<usize> = Vec::new();
        let mut i: usize = 0;
        while i < self.toplevels.len()
            invariant
                0 <= i <= self.toplevels@.len(),
                words@.map_values(|w: Vec<char>| w@) == ascii_words(ascii_lowercase(query@)),
                empty == (query@.len() == 0),
                shown@ == shown_positions(
                    self.toplevels@,
                    self.active_workspace_coordinates@,
                    filter,
                    query@,
                    i as int,
                ),
            decreases self.toplevels@.len() - i,
        {
            let t = &self.toplevels[i];
            let passes = matches_workspace_filter(&self.active_workspace_coordinates, &t.workspace_coordinates, filter);
            if passes && (empty || all_words_in(t.app_id.as_str(), &words) || all_words_in(t.title.as_str(), &words)) {
                shown.push(i);
            }
            i = i + 1;
        }
        WindowSearch::Shown(shown)
    }
}

/// No two windows of the list share an identifier.
pub open spec fn ids_unique(ts: Seq<Toplevel>) -> bool {
    forall|i: int, j: int| 0 <= i < j < ts.len() ==> ts[i].id != ts[j].id
}

/// A window with identifier `id` at position `j` means there is a first such window.
proof fn lemma_first_exists(ts: Seq<Toplevel>, id: u32, j: int)
    requires
        0 <= j < ts.len(),
        ts[j].id == id,
    ensures
        exists|i: int| is_first_id(ts, id, i),
    decreases j,
{
    if exists|k: int| 0 <= k < j && ts[k].id == id {
        let k = choose|k: int| 0 <= k < j && ts[k].id == id;
        lemma_first_exists(ts, id, k);
    } else {
        assert(is_first_id(ts, id, j));
    }
}

/// Law: invalidating a window whose capture was just requested, when nothing was known of its
/// thumbnail before, leaves the thumbnails as they were.
pub proof fn law_invalidate_undoes_capture_request(cache: Map<u32, ThumbnailState>, id: u32)
    requires
        !cache.contains_key(id),
    ensures
        cache.insert(id, ThumbnailState::Pending).remove(id) == cache,
{
    assert(cache.insert(id, ThumbnailState::Pending).remove(id) =~= cache);
}

/// Law: every update that the compositor sends keeps each window listed once: describing a
/// window updates it or adds it, and removing one takes it out.
pub proof fn law_window_ids_stay_unique(ts: Seq<Toplevel>, t: Toplevel, id: u32)
    requires
        ids_unique(ts),
    ensures
        ids_unique(
            match first_pos(ts, t.id) {
                Some(i) => if t.activated {
                    ts.remove(i).push(t)
                } else {
                    ts.update(i, t)
                },
                None => ts.push(t),
            },
        ),
        ids_unique(
            match first_pos(ts, id) {
                Some(i) => ts.remove(i),
                None => ts,
            },
        ),
{
    match first_pos(ts, t.id) {
        Some(i) => {
            let w = choose|k: int| is_first_id(ts, t.id, k);
            assert(i == w);
            assert(is_first_id(ts, t.id, i));
            if t.activated {
                let r = ts.remove(i);
                assert forall|a: int| 0 <= a < r.len() implies r[a].id != t.id by {
                    if a < i {
                        assert(r[a] == ts[a]);
                    } else {
                        assert(r[a] == ts[a + 1]);
                    }
                }
                let n = r.push(t);
                assert forall|a: int, b: int| 0 <= a < b < n.len() implies n[a].id != n[b].id by {
                    if b < r.len() {
                        let a0 = if a < i { a } else { a + 1 };
                        let b0 = if b < i { b } else { b + 1 };
                        assert(r[a] == ts[a0]);
                        assert(r[b] == ts[b0]);
                    }
                }
            } else {
                let n = ts.update(i, t);
                assert forall|a: int, b: int| 0 <= a < b < n.len() implies n[a].id != n[b].id by {
                    if a == i {
                        assert(ts[b].id != ts[i].id);
                    } else if b == i {
                        assert(ts[a].id != ts[i].id);
                    }
                }
            }
        },
        None => {
            assert forall|a: int| 0 <= a < ts.len() implies ts[a].id != t.id by {
                if ts[a].id == t.id {
                    lemma_first_exists(ts, t.id, a);
                }
            }
            let n = ts.push(t);
            assert forall|a: int, b: int| 0 <= a < b < n.len() implies n[a].id != n[b].id by {
                if b == ts.len() {
                    assert(n[a] == ts[a]);
                }
            }
        },
    }
    match first_pos(ts, id) {
        Some(i) => {
            let w = choose|k: int| is_first_id(ts, id, k);
            assert(i == w);
            let r = ts.remove(i);
            assert forall|a: int, b: int| 0 <= a < b < r.len() implies r[a].id != r[b].id by {
                let a0 = if a < i { a } else { a + 1 };
                let b0 = if b < i { b } else { b + 1 };
                assert(r[a] == ts[a0]);
                assert(r[b] == ts[b0]);
            }
        },
        None => {},
    }
}

/// Law: a request about a window that the compositor removed finds no window until the next
/// search clears the ignored windows.
pub proof fn law_removed_window_is_ignored(ts: Seq<Toplevel>, ignored: Seq<u32>, id: u32)
    requires
        first_pos(ts, id) is Some,
    ensures
        ({
            let after = ts.remove(first_pos(ts, id)->0);
            let ignored_after = ignored.push(id);
            !(!ignored_after.contains(id) && first_pos(after, id) is Some)
        }),
{
    assert(ignored.push(id)[ignored.len() as int] == id);
}

} // verus!
