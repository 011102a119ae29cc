//! Fixed-size texture atlas: a shelf packer over a square surface.
//!
//! Each allocation reserves a rectangle of the current surface.  The central
//! invariant is that every pair of rectangles handed out within one atlas
//! generation is disjoint.  When no rectangle fits, allocation fails with an
//! exhaustion signal carrying a size that would satisfy the request; the
//! caller rebuilds the atlas (a new generation) and discards every sprite of
//! the old one together with any cache referencing them.

use vstd::prelude::*;

verus! {

/// A rectangular region of the atlas surface, in pixels.
#[derive(Clone, Copy, Debug, PartialEq, Eq, Structural)]
pub struct Rect {
    pub x: u32,
    pub y: u32,
    pub width: u32,
    pub height: u32,
}

/// Two rectangles are disjoint when they are separated along one axis.
pub open spec fn rects_disjoint(a: Rect, b: Rect) -> bool {
    ||| a.x + a.width <= b.x
    ||| b.x + b.width <= a.x
    ||| a.y + a.height <= b.y
    ||| b.y + b.height <= a.y
}

/// A handle to one allocated region.  The generation ties the handle to the
/// surface it was allocated from: handles of older generations are stale.
#[derive(Clone, Copy, Debug, PartialEq, Eq, Structural)]
pub struct Sprite {
    pub rect: Rect,
    pub generation: u64,
}

/// Exhaustion signal: no free rectangle fits.  `size` is the minimum
/// surface side length that would satisfy the failed request on a fresh
/// atlas: the larger of the request's two dimensions.
#[derive(Clone, Copy, Debug, PartialEq, Eq, Structural)]
pub struct OutOfTextureSpace {
    pub size: u32,
}

/// Shelf-packing texture atlas.  Rectangles are placed left to right on the
/// current shelf; when a request does not fit, a new shelf is opened below.
pub struct TextureAtlas {
    side: u32,
    generation: u64,
    next_x: u32,
    next_y: u32,
    row_height: u32,
    rects: Vec<Rect>,
}

impl TextureAtlas {
    /// The rectangles allocated so far in this generation.
    pub closed spec fn allocated(self) -> Seq<Rect> {
        self.rects@
    }

    /// Current surface side length.
    pub closed spec fn spec_size(self) -> u32 {
        self.side
    }

    /// Current generation: bumped by every rebuild.
    pub closed spec fn spec_generation(self) -> u64 {
        self.generation
    }

    /// Internal packer frontier, exposed for contracts that need to say
    /// exactly when an allocation succeeds.
    pub closed spec fn frontier(self) -> (u32, u32, u32) {
        (self.next_x, self.next_y, self.row_height)
    }

    /// Well-formedness: every allocated rectangle is nonempty, lies on the
    /// surface, sits behind the packer frontier, and all are pairwise
    /// disjoint.
    pub closed spec fn wf(self) -> bool {
        &&& 1 <= self.side <= 0x4000_0000
        &&& self.next_x <= self.side
        &&& self.next_y + self.row_height <= self.side
        &&& forall|i: int| 0 <= i < self.rects@.len() ==> {
            let r = #[trigger] self.rects@[i];
            &&& r.width >= 1
            &&& r.height >= 1
            &&& r.x + r.width <= self.side
            &&& r.y + r.height <= self.side
            &&& r.y + r.height <= self.next_y + self.row_height
            &&& (r.y + r.height <= self.next_y || (r.y >= self.next_y && r.x + r.width
                <= self.next_x))
        }
        &&& forall|i: int, j: int|
            0 <= i < self.rects@.len() && 0 <= j < self.rects@.len() && i != j ==> rects_disjoint(
                #[trigger] self.rects@[i],
                #[trigger] self.rects@[j],
            )
    }

    /// A fresh atlas over a square surface of the given side length.
    pub fn new(side: u32) -> (r: TextureAtlas)
        requires
            1 <= side <= 0x4000_0000,
        ensures
            r.wf(),
            r.spec_size() == side,
            r.spec_generation() == 0,
            r.allocated() =~= Seq::<Rect>::empty(),
    {
        TextureAtlas { side, generation: 0, next_x: 0, next_y: 0, row_height: 0, rects: Vec::new() }
    }

    /// Exact executable view of the side length.
    pub fn size(&self) -> (r: u32)
        ensures
            r == self.spec_size(),
            self.wf() ==> 1 <= r <= 0x4000_0000,
    {
        self.side
    }

    /// Number of live allocations in this generation.
    pub fn allocation_count(&self) -> (r: usize)
        ensures
            r == self.allocated().len(),
    {
        self.rects.len()
    }

    /// True exactly when a `width` by `height` request can be placed without
    /// rebuilding: either on the current shelf or on a fresh shelf below it.
    pub open spec fn spec_can_fit(self, width: u32, height: u32) -> bool {
        let (nx, ny, rh) = self.frontier();
        ||| (nx + width <= self.spec_size() && ny + height <= self.spec_size())
        ||| (width <= self.spec_size() && ny + rh + height <= self.spec_size())
    }

    /// Allocates a rectangle for a nonempty bitmap.
    ///
    /// On success the returned sprite lies on the surface, carries the
    /// current generation, and its rectangle is disjoint from every
    /// rectangle allocated before it in this generation.  On exhaustion the
    /// atlas is unchanged and the signal carries a side length on which the
    /// request (and everything already allocated) would fit.
    pub fn allocate(&mut self, width: u32, height: u32) -> (r: Result<Sprite, OutOfTextureSpace>)
        requires
            old(self).wf(),
            1 <= width <= 0x1000_0000,
            1 <= height <= 0x1000_0000,
        ensures
            final(self).wf(),
            final(self).spec_size() == old(self).spec_size(),
            final(self).spec_generation() == old(self).spec_generation(),
            r is Ok <==> old(self).spec_can_fit(width, height),
            match r {
                Ok(s) => {
                    &&& s.generation == old(self).spec_generation()
                    &&& s.rect.width == width
                    &&& s.rect.height == height
                    &&& s.rect.x + width <= old(self).spec_size()
                    &&& s.rect.y + height <= old(self).spec_size()
                    &&& final(self).allocated() =~= old(self).allocated().push(s.rect)
                    &&& forall|i: int|
                        0 <= i < old(self).allocated().len() ==> rects_disjoint(
                            #[trigger] old(self).allocated()[i],
                            s.rect,
                        )
                },
                Err(e) => {
                    &&& *final(self) == *old(self)
                    &&& e.size == vstd::math::max(width as int, height as int)
                },
            },
    {
        let side = self.side;
        if width <= side && height <= side && self.next_x <= side - width && self.next_y <= side
            - height {
            // fits on the current shelf
            let rect = Rect { x: self.next_x, y: self.next_y, width, height };
            self.next_x = self.next_x + width;
            if height > self.row_height {
                self.row_height = height;
            }
            let sprite = Sprite { rect, generation: self.generation };
            self.rects.push(rect);
            return Ok(sprite);
        }
        let new_y = self.next_y + self.row_height;
        if width <= side && height <= side && new_y <= side - height {
            // open a new shelf below the current one
            let rect = Rect { x: 0, y: new_y, width, height };
            self.next_x = width;
            self.next_y = new_y;
            self.row_height = height;
            let sprite = Sprite { rect, generation: self.generation };
            self.rects.push(rect);
            return Ok(sprite);
        }
        // exhausted: report the minimum side that would satisfy the request
        let size: u32 = if width > height {
            width
        } else {
            height
        };
        Err(OutOfTextureSpace { size })
    }

    /// Replaces the surface with a fresh one of the given side length and
    /// starts a new generation.  Every sprite of the old generation becomes
    /// stale; callers must discard any cache holding them.
    pub fn rebuild(&mut self, new_side: u32)
        requires
            old(self).wf(),
            1 <= new_side <= 0x4000_0000,
            old(self).spec_generation() < u64::MAX,
        ensures
            final(self).wf(),
            final(self).spec_size() == new_side,
            final(self).spec_generation() == old(self).spec_generation() + 1,
            final(self).allocated() =~= Seq::<Rect>::empty(),
    {
        self.side = new_side;
        self.generation = self.generation + 1;
        self.next_x = 0;
        self.next_y = 0;
        self.row_height = 0;
        self.rects = Vec::new();
    }
}

/// The non-overlap law: in a well-formed atlas, all rectangles allocated
/// within one generation are pairwise disjoint.
pub proof fn lemma_allocations_pairwise_disjoint(atlas: TextureAtlas, i: int, j: int)
    requires
        atlas.wf(),
        0 <= i < atlas.allocated().len(),
        0 <= j < atlas.allocated().len(),
        i != j,
    ensures
        rects_disjoint(atlas.allocated()[i], atlas.allocated()[j]),
{
}

} // verus!
