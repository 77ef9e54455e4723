//! Images of a transcript: which can be shown, which stand together, and the
//! view that shows one at a time.

use vstd::prelude::*;

use crate::model::block::{Block, BlockView};
use crate::text::{copy_opt, opt_text, same};
use crate::wire::{AttachmentId, MediaType, SessionSeq};

verus! {

/// Whether images of a media type can be shown.
pub open spec fn supported(t: Seq<char>) -> bool {
    t == "image/png"@ || t == "image/jpeg"@ || t == "image/webp"@ || t == "image/gif"@
}

/// Whether images of a media type can be shown.
pub fn is_supported_image(media_type: &str) -> (r: bool)
    ensures
        r == supported(media_type@),
{
    same(media_type, "image/png") || same(media_type, "image/jpeg") || same(
        media_type,
        "image/webp",
    ) || same(media_type, "image/gif")
}

/// What identifies the image of a block.
#[derive(Debug, Clone, PartialEq, Eq)]
pub struct ImageBlockRef {
    pub seq: SessionSeq,
    pub attachment_id: Option<AttachmentId>,
    pub name: Option<String>,
    pub dims: Option<String>,
}

/// An optional id as a text.
pub open spec fn id_text(o: Option<AttachmentId>) -> Option<Seq<char>> {
    match o {
        Some(id) => Some(id@),
        None => None,
    }
}

/// What identifies the image of a block; nothing where the block is no image.
pub fn image_block_of(block: &Block) -> (r: Option<ImageBlockRef>)
    ensures
        match r {
            Some(i) => block@ == (BlockView::Image {
                seq: i.seq,
                attachment_id: id_text(i.attachment_id),
                name: opt_text(i.name),
                dims: opt_text(i.dims),
            }),
            None => !(block@ is Image),
        },
{
    match block {
        Block::Image { seq, attachment_id, name, dims } => Some(
            ImageBlockRef {
                seq: *seq,
                attachment_id: match attachment_id {
                    Some(id) => Some(AttachmentId(id.clone())),
                    None => None,
                },
                name: copy_opt(name),
                dims: copy_opt(dims),
            },
        ),
        _ => None,
    }
}

/// Width and height before an image was scaled.
#[derive(Debug, Clone, Copy, PartialEq, Eq, Structural)]
pub struct OriginalDimensions {
    pub width: u64,
    pub height: u64,
}

/// An attachment as the server describes it.
#[derive(Debug, PartialEq, Eq)]
pub struct AttachmentData {
    pub attachment_id: AttachmentId,
    pub media_type: MediaType,
    pub bytes: u64,
    pub width: u64,
    pub height: u64,
    pub name: Option<String>,
    pub original_dimensions: Option<OriginalDimensions>,
}

/// An attachment of a session.
#[derive(Debug, PartialEq, Eq)]
pub struct AttachmentRef {
    pub attachment_id: AttachmentId,
    pub media_type: MediaType,
    /// Size as it is encoded.
    pub bytes: u64,
    pub width: u64,
    pub height: u64,
    pub name: Option<String>,
    pub original_dimensions: Option<OriginalDimensions>,
}

impl AttachmentRef {
    /// Takes over what the server describes.
    pub fn from_data(data: &AttachmentData) -> (r: AttachmentRef)
        ensures
            r == (AttachmentRef {
                attachment_id: data.attachment_id,
                media_type: data.media_type,
                bytes: data.bytes,
                width: data.width,
                height: data.height,
                name: data.name,
                original_dimensions: data.original_dimensions,
            }),
    {
        AttachmentRef {
            attachment_id: data.attachment_id.clone(),
            media_type: data.media_type.clone(),
            bytes: data.bytes,
            width: data.width,
            height: data.height,
            name: copy_opt(&data.name),
            original_dimensions: data.original_dimensions,
        }
    }
}

/// An image in the cache.
#[derive(Debug, PartialEq, Eq)]
pub struct ImageCacheEntry {
    pub attachment_id: AttachmentId,
    pub media_type: MediaType,
    /// Size as it is encoded.
    pub bytes: u64,
    pub width: u64,
    pub height: u64,
    /// Path of the file that holds it.
    pub temp_file: String,
    /// When it was used last; the one used longest ago leaves first.
    pub last_used: u64,
}

/// How far the view of an image is.
#[derive(Debug, Clone, Copy, PartialEq, Eq, Structural, Default)]
pub enum ImageViewPhase {
    #[default]
    Closed,
    Loading,
    Rendered,
    Failed,
}

/// Why an image cannot be shown.
#[derive(Debug, Clone, PartialEq, Eq)]
pub struct ImageViewError {
    pub code: String,
    pub message: String,
}

/// The place of an image among those that stand together.
#[derive(Debug, Clone, Copy, PartialEq, Eq, Structural)]
pub struct ImagePager {
    pub total: usize,
    pub index: usize,
}

/// A magnification of 1, as the bits of a single precision number.
pub const ZOOM_ONE: u32 = 0x3f80_0000;

/// The view of an image.
#[derive(Debug, PartialEq, Eq)]
pub struct ImageViewState {
    pub open: bool,
    /// Position of the block that the image is of.
    pub block_seq: Option<SessionSeq>,
    pub attachment_id: Option<AttachmentId>,
    pub name: Option<String>,
    pub dims: Option<String>,
    pub phase: ImageViewPhase,
    pub error: Option<ImageViewError>,
    /// The place among the images that stand together, where there are more.
    pub pager: Option<ImagePager>,
    /// Magnification, as the bits of a single precision number.
    pub zoom: u32,
    /// Whether the image is being encoded anew for a magnification.
    pub zoom_inflight: bool,
    /// The magnification that it is being encoded for.
    pub zoom_encoded: Option<u32>,
}

/// A view that shows nothing.
pub open spec fn closed_view() -> ImageViewState {
    ImageViewState {
        open: false,
        block_seq: None,
        attachment_id: None,
        name: None,
        dims: None,
        phase: ImageViewPhase::Closed,
        error: None,
        pager: None,
        zoom: ZOOM_ONE,
        zoom_inflight: false,
        zoom_encoded: None,
    }
}

impl Default for ImageViewState {
    fn default() -> (r: Self)
        ensures
            r == closed_view(),
    {
        ImageViewState {
            open: false,
            block_seq: None,
            attachment_id: None,
            name: None,
            dims: None,
            phase: ImageViewPhase::Closed,
            error: None,
            pager: None,
            zoom: ZOOM_ONE,
            zoom_inflight: false,
            zoom_encoded: None,
        }
    }
}

/// Whether the place of an image is one among those that stand together.
pub open spec fn pager_ok(p: Option<ImagePager>) -> bool {
    p is Some ==> p->0.index < p->0.total
}

impl ImageViewState {
    /// Opens the view on an image, which is then fetched; it is shown whole.
    pub fn open_view(
        &mut self,
        block_seq: SessionSeq,
        attachment_id: AttachmentId,
        name: Option<String>,
        dims: Option<String>,
    )
        ensures
            *final(self) == (ImageViewState {
                open: true,
                block_seq: Some(block_seq),
                attachment_id: Some(attachment_id),
                name,
                dims,
                phase: ImageViewPhase::Loading,
                error: None,
                zoom: ZOOM_ONE,
                zoom_inflight: false,
                zoom_encoded: None,
                pager: old(self).pager,
            }),
    {
        self.open = true;
        self.block_seq = Some(block_seq);
        self.attachment_id = Some(attachment_id);
        self.name = name;
        self.dims = dims;
        self.phase = ImageViewPhase::Loading;
        self.error = None;
        self.zoom = ZOOM_ONE;
        self.zoom_inflight = false;
        self.zoom_encoded = None;
    }

    /// The image is on the screen.
    pub fn mark_rendered(&mut self)
        ensures
            *final(self) == (ImageViewState {
                phase: ImageViewPhase::Rendered,
                error: None,
                ..*old(self)
            }),
    {
        self.phase = ImageViewPhase::Rendered;
        self.error = None;
    }

    /// The image cannot be shown.
    pub fn mark_failed(&mut self, code: String, message: String)
        ensures
            *final(self) == (ImageViewState {
                phase: ImageViewPhase::Failed,
                error: Some(ImageViewError { code, message }),
                ..*old(self)
            }),
    {
        self.phase = ImageViewPhase::Failed;
        self.error = Some(ImageViewError { code, message });
    }

    /// Closes the view.
    pub fn close(&mut self)
        ensures
            *final(self) == closed_view(),
    {
        *self = ImageViewState::default();
    }

    /// Records the place among the images that stand together.
    pub fn set_pager(&mut self, total: usize, index: usize)
        ensures
            *final(self) == (ImageViewState {
                pager: Some(
                    ImagePager {
                        total: if total == 0 {
                            1
                        } else {
                            total
                        },
                        index: if total == 0 {
                            0
                        } else if index >= total {
                            (total - 1) as usize
                        } else {
                            index
                        },
                    },
                ),
                ..*old(self)
            }),
            pager_ok(final(self).pager),
    {
        let most: usize = if total == 0 {
            1
        } else {
            total
        };
        let at: usize = if index >= most {
            most - 1
        } else {
            index
        };
        self.pager = Some(ImagePager { total: most, index: at });
    }

    /// Goes on by `delta` images; says whether there was one to go to.
    pub fn move_pager(&mut self, delta: i8) -> (r: bool)
        ensures
            r == (old(self).pager is Some && 0 <= old(self).pager->0.index + delta
                < old(self).pager->0.total),
            *final(self) == if r {
                ImageViewState {
                    pager: Some(
                        ImagePager {
                            index: (old(self).pager->0.index + delta) as usize,
                            ..old(self).pager->0
                        },
                    ),
                    ..*old(self)
                }
            } else {
                *old(self)
            },
            pager_ok(old(self).pager) ==> pager_ok(final(self).pager),
    {
        match self.pager {
            None => false,
            Some(p) => {
                let next: i128 = p.index as i128 + delta as i128;
                if next < 0 || next >= p.total as i128 {
                    return false;
                }
                self.pager = Some(ImagePager { total: p.total, index: next as usize });
                true
            },
        }
    }

    /// Takes a magnification.
    pub fn set_zoom(&mut self, zoom: u32)
        ensures
            *final(self) == (ImageViewState { zoom, ..*old(self) }),
    {
        self.zoom = zoom;
    }

    /// Shows the image whole again.
    pub fn zoom_reset(&mut self)
        ensures
            *final(self) == (ImageViewState { zoom: ZOOM_ONE, ..*old(self) }),
    {
        self.zoom = ZOOM_ONE;
    }

    /// Starts to encode the image for the magnification, unless that is under
    /// way already; says whether it started.
    pub fn begin_zoom_encode(&mut self) -> (r: bool)
        ensures
            r == !old(self).zoom_inflight,
            *final(self) == if r {
                ImageViewState {
                    zoom_inflight: true,
                    zoom_encoded: Some(old(self).zoom),
                    ..*old(self)
                }
            } else {
                *old(self)
            },
    {
        if self.zoom_inflight {
            return false;
        }
        self.zoom_inflight = true;
        self.zoom_encoded = Some(self.zoom);
        true
    }

    /// The image was encoded; gives the magnification that it was encoded for.
    pub fn finish_zoom_encode(&mut self) -> (r: Option<u32>)
        ensures
            r == old(self).zoom_encoded,
            *final(self) == (ImageViewState {
                zoom_inflight: false,
                zoom_encoded: None,
                ..*old(self)
            }),
    {
        let r = self.zoom_encoded;
        self.zoom_inflight = false;
        self.zoom_encoded = None;
        r
    }

    /// What is being encoded is not wanted any more.
    pub fn cancel_zoom_encode(&mut self)
        ensures
            *final(self) == (ImageViewState {
                zoom_inflight: false,
                zoom_encoded: None,
                ..*old(self)
            }),
    {
        self.zoom_inflight = false;
        self.zoom_encoded = None;
    }
}

/// Whether a block is the image of an attachment.
pub open spec fn is_image_of(b: BlockView, id: Seq<char>) -> bool {
    b is Image && b->Image_attachment_id == Some(id)
}

/// Whether a block is an image at a position.
pub open spec fn is_image_at(b: BlockView, seq: SessionSeq) -> bool {
    b is Image && b.seq() == seq
}

/// Whether images stand together from `start` on, `total` of them and no more.
pub open spec fn is_run(blocks: Seq<Block>, start: int, total: int) -> bool {
    &&& 0 <= start && start + total <= blocks.len()
    &&& forall|k: int| start <= k < start + total ==> (#[trigger] blocks[k])@ is Image
    &&& start > 0 ==> !(blocks[start - 1]@ is Image)
    &&& start + total < blocks.len() ==> !(blocks[start + total]@ is Image)
}

fn is_image(b: &Block) -> (r: bool)
    ensures
        r == b@ is Image,
{
    match b {
        Block::Image { .. } => true,
        _ => false,
    }
}

/// The images that stand together around `pos`: the first, how many, and the
/// place of `pos` among them.
fn run_around(blocks: &[Block], pos: usize) -> (r: (usize, usize, usize))
    requires
        pos < blocks@.len(),
        blocks@[pos as int]@ is Image,
    ensures
        is_run(blocks@, r.0 as int, r.1 as int),
        r.0 + r.2 == pos,
        r.2 < r.1,
{
    let mut start: usize = pos;
    while start > 0 && is_image(&blocks[start - 1])
        invariant
            start <= pos < blocks@.len(),
            forall|k: int| start <= k <= pos ==> (#[trigger] blocks@[k])@ is Image,
        decreases start,
    {
        start = start - 1;
    }
    let mut end: usize = pos;
    while end < blocks.len() && is_image(&blocks[end])
        invariant
            start <= pos <= end <= blocks@.len(),
            pos < blocks@.len(),
            blocks@[pos as int]@ is Image,
            end == pos ==> end < blocks@.len(),
            forall|k: int| start <= k < end || k == pos ==> (#[trigger] blocks@[k])@ is Image,
        decreases blocks@.len() - end,
    {
        end = end + 1;
    }
    (start, end - start, pos - start)
}

/// The images that stand together with the first image at a position.
pub fn image_run_of(blocks: &[Block], seq: SessionSeq) -> (r: Option<(usize, usize, usize)>)
    ensures
        match r {
            None => forall|k: int|
                0 <= k < blocks@.len() ==> !is_image_at((#[trigger] blocks@[k])@, seq),
            Some((start, total, index)) => {
                &&& is_run(blocks@, start as int, total as int)
                &&& index < total
                &&& is_image_at(blocks@[start + index]@, seq)
                &&& forall|k: int|
                    0 <= k < start + index ==> !is_image_at((#[trigger] blocks@[k])@, seq)
            },
        },
{
    let mut i: usize = 0;
    while i < blocks.len()
        invariant
            i <= blocks@.len(),
            forall|k: int| 0 <= k < i ==> !is_image_at((#[trigger] blocks@[k])@, seq),
        decreases blocks@.len() - i,
    {
        if is_image(&blocks[i]) && blocks[i].seq().0 == seq.0 {
            return Some(run_around(blocks, i));
        }
        i = i + 1;
    }
    None
}

/// The images that stand together with the first image of an attachment.
pub fn image_run_by_attachment(blocks: &[Block], attachment_id: &str) -> (r: Option<
    (usize, usize, usize),
>)
    ensures
        match r {
            None => forall|k: int|
                0 <= k < blocks@.len() ==> !is_image_of(
                    (#[trigger] blocks@[k])@,
                    attachment_id@,
                ),
            Some((start, total, index)) => {
                &&& is_run(blocks@, start as int, total as int)
                &&& index < total
                &&& is_image_of(blocks@[start + index]@, attachment_id@)
                &&& forall|k: int|
                    0 <= k < start + index ==> !is_image_of(
                        (#[trigger] blocks@[k])@,
                        attachment_id@,
                    )
            },
        },
{
    let mut i: usize = 0;
    while i < blocks.len()
        invariant
            i <= blocks@.len(),
            forall|k: int|
                0 <= k < i ==> !is_image_of((#[trigger] blocks@[k])@, attachment_id@),
        decreases blocks@.len() - i,
    {
        if let Block::Image { attachment_id: Some(id), .. } = &blocks[i] {
            if same(id.as_str(), attachment_id) {
                return Some(run_around(blocks, i));
            }
        }
        i = i + 1;
    }
    None
}

/// Two runs of images that share an image are the same run.
pub proof fn law_runs_do_not_overlap(
    blocks: Seq<Block>,
    start: int,
    total: int,
    other: int,
    count: int,
    k: int,
)
    requires
        is_run(blocks, start, total),
        is_run(blocks, other, count),
        start <= k < start + total,
        other <= k < other + count,
    ensures
        start == other,
        total == count,
{
    if start < other {
        assert(blocks[other - 1]@ is Image);
    }
    if other < start {
        assert(blocks[start - 1]@ is Image);
    }
    if start + total < other + count {
        assert(blocks[start + total]@ is Image);
    }
    if other + count < start + total {
        assert(blocks[other + count]@ is Image);
    }
}

/// The four kinds of images that a terminal shows, and no other.
pub proof fn law_four_kinds_of_images_are_shown(t: Seq<char>)
    ensures
        supported(t) <==> t == "image/png"@ || t == "image/jpeg"@ || t == "image/webp"@ || t
            == "image/gif"@,
{
}

/// Images that stand together are all images, and what stands on either side
/// of them is none.
pub proof fn law_runs_are_whole(blocks: Seq<Block>, start: int, total: int, k: int)
    requires
        is_run(blocks, start, total),
    ensures
        start <= k < start + total ==> 0 <= k < blocks.len() && blocks[k]@ is Image,
        k == start - 1 && k >= 0 ==> !(blocks[k]@ is Image),
        k == start + total && k < blocks.len() ==> !(blocks[k]@ is Image),
{
}

/// A block is the image of an attachment where it is an image and has its id,
/// and is at a position where it is an image of that event.
pub proof fn law_images_are_told_by_id(b: BlockView, id: Seq<char>, seq: SessionSeq)
    ensures
        is_image_of(b, id) <==> b is Image && b->Image_attachment_id == Some(id),
        is_image_at(b, seq) <==> b is Image && b->Image_seq == seq,
{
}

/// A closed view shows nothing, at its own size.
pub proof fn law_closed_views_show_nothing()
    ensures
        !closed_view().open,
        closed_view().block_seq is None,
        closed_view().attachment_id is None,
        closed_view().phase == ImageViewPhase::Closed,
        closed_view().error is None,
        closed_view().pager is None,
        closed_view().zoom == 0x3f80_0000,
        !closed_view().zoom_inflight,
        closed_view().zoom_encoded is None,
{
}

} // verus!
