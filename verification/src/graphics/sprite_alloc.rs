use vstd::prelude::*;

use guillotiere::SimpleAtlasAllocator;

verus! {

/// The guillotiere allocator of rectangles in a texture atlas page.
#[verifier::external_type_specification]
#[verifier::external_body]
pub struct ExSimpleAtlasAllocator(SimpleAtlasAllocator);

/// The rectangles that an atlas allocator has handed out, in order, each as
/// `(min x, min y, max x, max y)`.
pub uninterp spec fn atlas_allocations(a: SimpleAtlasAllocator) -> Seq<(i32, i32, i32, i32)>;

/// The size (width, height) that an atlas allocator was made with.
pub uninterp spec fn atlas_size(a: SimpleAtlasAllocator) -> (i32, i32);

/// What `SimpleAtlasAllocator::allocate` of guillotiere hands out for a `width` by `height`
/// request on an allocator in the state `a`: the rectangle `(min x, min y, max x, max y)`, or
/// nothing when no free rectangle has room. It depends on the allocator's state and the request
/// alone.
pub uninterp spec fn atlas_try(a: SimpleAtlasAllocator, width: i32, height: i32) -> Option<(i32, i32, i32, i32)>;

/// The allocator that `SimpleAtlasAllocator::new` of guillotiere makes for an atlas of the
/// given size: it depends on the size alone.
pub uninterp spec fn atlas_fresh(width: i32, height: i32) -> SimpleAtlasAllocator;

/// Whether two rectangles `(min x, min y, max x, max y)` share no area.
pub open spec fn boxes_disjoint(a: (i32, i32, i32, i32), b: (i32, i32, i32, i32)) -> bool {
    a.2 <= b.0 || b.2 <= a.0 || a.3 <= b.1 || b.3 <= a.1
}

/// `SimpleAtlasAllocator::new` of guillotiere: an allocator for an atlas of the given size
/// that has handed out nothing yet. The size is positive: the allocator's arithmetic on the
/// free rectangles assumes so.
#[verifier::external_body]
fn atlas_new(width: i32, height: i32) -> (a: SimpleAtlasAllocator)
    requires
        0 < width,
        0 < height,
    ensures
        a == atlas_fresh(width, height),
        atlas_allocations(a) == Seq::<(i32, i32, i32, i32)>::empty(),
        atlas_size(a) == (width, height),
{
    SimpleAtlasAllocator::new(guillotiere::size2(width, height))
}

/// `SimpleAtlasAllocator::size` of guillotiere: the width of the atlas.
#[verifier::external_body]
fn atlas_width(a: &SimpleAtlasAllocator) -> (w: i32)
    ensures
        w == atlas_size(*a).0,
{
    a.size().width
}

/// `SimpleAtlasAllocator::allocate` of guillotiere. Its source carves the rectangle out of
/// one of its free rectangles, all of which lie in the atlas and apart from what it handed out
/// before: a rectangle handed out has the requested size, lies in the atlas and overlaps no
/// earlier one; with nothing handed out yet, the whole atlas is free, so a request that fits
/// succeeds. What it hands out is named [`atlas_try`]; which free rectangle it picks is left
/// unsaid here.
#[verifier::external_body]
fn atlas_allocate(a: &mut SimpleAtlasAllocator, width: i32, height: i32) -> (r: Option<
    (i32, i32, i32, i32),
>)
    ensures
        r == atlas_try(*old(a), width, height),
        atlas_size(*final(a)) == atlas_size(*old(a)),
        match r {
            Some(rect) => {
                &&& rect.2 - rect.0 == width
                &&& rect.3 - rect.1 == height
                &&& 0 <= rect.0
                &&& 0 <= rect.1
                &&& rect.2 <= atlas_size(*old(a)).0
                &&& rect.3 <= atlas_size(*old(a)).1
                &&& forall|k: int|
                    0 <= k < atlas_allocations(*old(a)).len() ==> boxes_disjoint(
                        #[trigger] atlas_allocations(*old(a))[k],
                        rect,
                    )
                &&& atlas_allocations(*final(a)) == atlas_allocations(*old(a)).push(rect)
            },
            None => atlas_allocations(*final(a)) == atlas_allocations(*old(a)),
        },
        atlas_allocations(*old(a)).len() == 0 && 0 < width <= atlas_size(*old(a)).0 && 0 < height
            <= atlas_size(*old(a)).1 ==> r is Some,
{
    match a.allocate(guillotiere::size2(width, height)) {
        Some(rect) => Some((rect.min.x, rect.min.y, rect.max.x, rect.max.y)),
        None => None,
    }
}

/// A rectangle of pixels, from `min` (inclusive) to `max` (exclusive).
#[derive(Debug, Clone, Copy, PartialEq, Eq, Structural)]
pub struct PixelRect {
    pub min_x: u32,
    pub min_y: u32,
    pub max_x: u32,
    pub max_y: u32,
}

/// The rectangle of a sprite within the rectangle allocated for it: a pixel of margin on
/// every side.
pub open spec fn inset(b: (i32, i32, i32, i32)) -> PixelRect {
    PixelRect {
        min_x: (b.0 + 1) as u32,
        min_y: (b.1 + 1) as u32,
        max_x: (b.2 - 1) as u32,
        max_y: (b.3 - 1) as u32,
    }
}

/// Whether two sprite rectangles are at least two pixels apart on some axis.
pub open spec fn rects_apart(a: PixelRect, b: PixelRect) -> bool {
    a.max_x + 2 <= b.min_x || b.max_x + 2 <= a.min_x || a.max_y + 2 <= b.min_y || b.max_y + 2
        <= a.min_y
}

/// A page of sprites: its allocator, its image and the layout of its sprites.
pub struct Page {
    alloc: SimpleAtlasAllocator,
    image: u64,
    layout: u64,
    textures: Vec<PixelRect>,
}

/// A sprite copied into a page: the source image, the page image and where it goes.
#[derive(Debug, Clone, Copy, PartialEq, Eq, Structural)]
pub struct PendingSprite {
    pub image: u64,
    pub page: u64,
    pub rect: PixelRect,
}

/// A size in pixels.
#[derive(Debug, Clone, Copy, PartialEq, Eq, Structural)]
pub struct PixelSize {
    pub width: u32,
    pub height: u32,
}

/// Why a sprite could not be packed.
#[derive(Debug, Clone, Copy, PartialEq, Eq, Structural)]
pub enum SpriteError {
    /// The sprite, with its margin, does not fit in a page of the given size.
    SpriteTooLarge { requested_size: PixelSize, max_size: PixelSize },
}

/// Packs sprites into square texture pages of one size, opening a new page when a sprite fits
/// in none, and remembers the sprites still to be copied.
pub struct SpriteAllocator {
    pages: Vec<Page>,
    pending: Vec<PendingSprite>,
}

impl Page {
    /// What a page shows of itself: its image, its layout and the rectangles of its sprites.
    pub closed spec fn view_parts(&self) -> (u64, u64, Seq<PixelRect>) {
        (self.image, self.layout, self.textures@)
    }

    /// A page of side `side`: its allocations lie in the page, apart from each other, and each
    /// sprite rectangle is its allocation without the margin.
    pub closed spec fn wf(&self, side: i32) -> bool {
        let allocs = atlas_allocations(self.alloc);
        &&& atlas_size(self.alloc) == (side, side)
        &&& allocs.len() == self.textures@.len()
        &&& forall|k: int|
            0 <= k < allocs.len() ==> {
                let b = #[trigger] allocs[k];
                &&& 0 <= b.0 && b.0 + 2 <= b.2 <= side
                &&& 0 <= b.1 && b.1 + 2 <= b.3 <= side
                &&& self.textures@[k] == inset(b)
            }
        &&& forall|i: int, j: int|
            0 <= i < j < allocs.len() ==> boxes_disjoint(#[trigger] allocs[i], #[trigger] allocs[j])
    }

    fn new(side: i32, image: u64, layout: u64) -> (p: Page)
        requires
            side > 0,
        ensures
            p.wf(side),
            p.alloc == atlas_fresh(side, side),
            p.view_parts() == (image, layout, Seq::<PixelRect>::empty()),
    {
        Page { alloc: atlas_new(side, side), image, layout, textures: Vec::new() }
    }

    /// Allocates a `width` by `height` sprite with its margin; on success records and returns
    /// its rectangle and index in the layout.
    fn allocate(&mut self, side: i32, width: u32, height: u32) -> (r: Option<(PixelRect, usize)>)
        requires
            old(self).wf(side),
            width + 2 <= i32::MAX,
            height + 2 <= i32::MAX,
        ensures
            final(self).wf(side),
            match r {
                Some((rect, index)) => {
                    &&& rect == inset(atlas_try(old(self).alloc, (width + 2) as i32, (height + 2) as i32)->0)
                    &&& index == old(self).view_parts().2.len()
                    &&& rect.max_x - rect.min_x == width
                    &&& rect.max_y - rect.min_y == height
                    &&& final(self).view_parts() == (
                        old(self).view_parts().0,
                        old(self).view_parts().1,
                        old(self).view_parts().2.push(rect),
                    )
                },
                None => final(self).view_parts() == old(self).view_parts(),
            },
            (r is Some) == (atlas_try(old(self).alloc, (width + 2) as i32, (height + 2) as i32) is Some),
            old(self).view_parts().2.len() == 0 && width + 2 <= side && height + 2 <= side
                ==> r is Some,
            width + 2 > side || height + 2 > side ==> r is None,
    {
        let ghost prev = atlas_allocations(self.alloc);
        let w = (width + 2) as i32;
        let h = (height + 2) as i32;
        match atlas_allocate(&mut self.alloc, w, h) {
            Some(b) => {
                let rect = PixelRect {
                    min_x: (b.0 + 1) as u32,
                    min_y: (b.1 + 1) as u32,
                    max_x: (b.2 - 1) as u32,
                    max_y: (b.3 - 1) as u32,
                };
                let index = self.textures.len();
                self.textures.push(rect);
                proof {
                    let allocs = atlas_allocations(self.alloc);
                    assert(allocs.len() == prev.len() + 1);
                    assert forall|i: int, j: int|
                        0 <= i < j < allocs.len() implies boxes_disjoint(
                        #[trigger] allocs[i],
                        #[trigger] allocs[j],
                    ) by {
                        if j == prev.len() {
                            assert(allocs[i] == prev[i]);
                        } else {
                            assert(allocs[i] == prev[i] && allocs[j] == prev[j]);
                        }
                    }
                    assert forall|k: int| 0 <= k < allocs.len() implies {
                        let b = #[trigger] allocs[k];
                        &&& 0 <= b.0 && b.0 + 2 <= b.2 <= side
                        &&& 0 <= b.1 && b.1 + 2 <= b.3 <= side
                        &&& self.textures@[k] == inset(b)
                    } by {
                        if k < prev.len() {
                            assert(allocs[k] == prev[k]);
                        }
                    }
                }
                Some((rect, index))
            },
            None => None,
        }
    }
}

impl SpriteAllocator {
    /// The pages, each as its image, its layout and the rectangles of its sprites.
    pub closed spec fn pages_view(&self) -> Seq<(u64, u64, Seq<PixelRect>)> {
        self.pages@.map_values(|p: Page| p.view_parts())
    }

    /// The sprites still to be copied into their pages.
    pub closed spec fn pending_view(&self) -> Seq<PendingSprite> {
        self.pending@
    }

    /// Whether the allocator of page `k` takes a `width` by `height` sprite with its margin:
    /// what guillotiere's `allocate` hands out for it there (see [`atlas_try`]).
    pub closed spec fn accepts(&self, k: int, width: u32, height: u32) -> bool {
        self.placement(k, width, height) is Some
    }

    /// Where the allocator of page `k` puts a `width` by `height` sprite with its margin, if it
    /// takes it: what guillotiere's `allocate` hands out there (see [`atlas_try`]).
    pub closed spec fn placement(&self, k: int, width: u32, height: u32) -> Option<(i32, i32, i32, i32)> {
        atlas_try(self.pages@[k].alloc, (width + 2) as i32, (height + 2) as i32)
    }

    /// Where a new page puts a `width` by `height` sprite with its margin: what guillotiere's
    /// `allocate` hands out on a fresh allocator of the page size.
    pub closed spec fn new_page_placement(&self, width: u32, height: u32) -> Option<(i32, i32, i32, i32)> {
        atlas_try(atlas_fresh(self.side(), self.side()), (width + 2) as i32, (height + 2) as i32)
    }

    /// The side of every page.
    pub closed spec fn side(&self) -> i32 {
        atlas_size(self.pages@[0].alloc).0
    }

    /// There is a page, and every page is a well-formed page of one side.
    pub closed spec fn wf(&self) -> bool {
        &&& self.pages@.len() >= 1
        &&& self.side() > 0
        &&& forall|k: int| 0 <= k < self.pages@.len() ==> (#[trigger] self.pages@[k]).wf(self.side())
    }

    /// An allocator with one empty page whose side is the largest texture dimension, at most
    /// 2048.
    pub fn new(max_texture_dimension: u32, page_image: u64, page_layout: u64) -> (a: SpriteAllocator)
        requires
            max_texture_dimension > 0,
        ensures
            a.wf(),
            a.side() == (if max_texture_dimension < 2048 { max_texture_dimension as int } else { 2048 }),
            a.pages_view() == seq![(page_image, page_layout, Seq::<PixelRect>::empty())],
            a.pending_view() == Seq::<PendingSprite>::empty(),
    {
        let side: u32 = if max_texture_dimension < 2048 { max_texture_dimension } else { 2048 };
        let page = Page::new(side as i32, page_image, page_layout);
        let mut pages: Vec<Page> = Vec::new();
        pages.push(page);
        let a = SpriteAllocator { pages, pending: Vec::new() };
        proof {
            assert(a.pages_view() =~= seq![(page_image, page_layout, Seq::<PixelRect>::empty())]);
        }
        a
    }

    /// Packs a `width` by `height` sprite of `image` into the first page whose allocator takes
    /// it with a pixel of margin (see [`SpriteAllocator::accepts`]), or into a new page
    /// (`new_page_image`, `new_page_layout`) when every page refuses it; returns the page image, its layout and the sprite's index in it, and records
    /// the sprite as pending. A sprite that does not fit in a page at all is refused.
    pub fn pack(
        &mut self,
        image: u64,
        width: u32,
        height: u32,
        new_page_image: u64,
        new_page_layout: u64,
    ) -> (r: Result<(u64, u64, usize), SpriteError>)
        requires
            old(self).wf(),
            width + 2 <= i32::MAX,
            height + 2 <= i32::MAX,
        ensures
            final(self).wf(),
            final(self).side() == old(self).side(),
            r is Err <==> (width + 2 > old(self).side() || height + 2 > old(self).side()),
            r is Err ==> r == Err::<(u64, u64, usize), SpriteError>(
                SpriteError::SpriteTooLarge {
                    requested_size: PixelSize { width, height },
                    max_size: PixelSize { width: old(self).side() as u32, height: old(self).side() as u32 },
                },
            ) && final(self).pages_view() == old(self).pages_view() && final(self).pending_view()
                == old(self).pending_view(),
            r matches Ok((page, layout, index)) ==> {
                let old_pages = old(self).pages_view();
                let new_pages = final(self).pages_view();
                &&& new_pages.len() == old_pages.len() || (new_pages.len() == old_pages.len() + 1
                    && new_pages.last() == (new_page_image, new_page_layout, seq![
                    new_pages.last().2[0],
                ]))
                &&& exists|k: int|
                    #![trigger new_pages[k]]
                    0 <= k < new_pages.len() && {
                        let rect = new_pages[k].2[index as int];
                        &&& (k < old_pages.len()) == (new_pages.len() == old_pages.len())
                        &&& k < old_pages.len() ==> old(self).accepts(k, width, height)
                        &&& rect == inset((if k < old_pages.len() {
                            old(self).placement(k, width, height)
                        } else {
                            old(self).new_page_placement(width, height)
                        })->0)
                        &&& forall|j: int| 0 <= j < k && j < old_pages.len() ==> !old(self).accepts(j, width, height)
                        &&& new_pages[k].0 == page
                        &&& new_pages[k].1 == layout
                        &&& index == (if k < old_pages.len() {
                            old_pages[k].2.len() as int
                        } else {
                            0
                        })
                        &&& new_pages[k].2 == (if k < old_pages.len() {
                            old_pages[k].2
                        } else {
                            Seq::<PixelRect>::empty()
                        }).push(rect)
                        &&& rect.max_x - rect.min_x == width
                        &&& rect.max_y - rect.min_y == height
                        &&& forall|j: int|
                            0 <= j < old_pages.len() && j != k ==> new_pages[j] == old_pages[j]
                        &&& final(self).pending_view() == old(self).pending_view().push(
                            PendingSprite { image, page, rect },
                        )
                    }
            },
    {
        let side = atlas_width(&self.pages[0].alloc);
        let ghost old_pages = self.pages@;
        let mut i: usize = 0;
        while i < self.pages.len()
            invariant
                old(self).wf(),
                side == old(self).side(),
                self.pages@.len() == old_pages.len(),
                old_pages == old(self).pages@,
                self.pending == old(self).pending,
                i <= self.pages@.len(),
                width + 2 <= i32::MAX,
                height + 2 <= i32::MAX,
                forall|k: int| 0 <= k < self.pages@.len() ==> (#[trigger] self.pages@[k]).wf(side),
                forall|k: int|
                    0 <= k < self.pages@.len() ==> (#[trigger] self.pages@[k]).view_parts()
                        == old_pages[k].view_parts(),
                forall|k: int| i <= k < self.pages@.len() ==> #[trigger] self.pages@[k] == old_pages[k],
                forall|j: int| 0 <= j < i ==> !(#[trigger] old(self).accepts(j, width, height)),
                atlas_size(self.pages@[0].alloc).0 == side,
            decreases self.pages.len() - i,
        {
            let mut page = self.pages.remove(i);
            let ghost before = self.pages@;
            let allocated = page.allocate(side, width, height);
            let page_image = page.image;
            let page_layout = page.layout;
            self.pages.insert(i, page);
            proof {
                assert forall|k: int| 0 <= k < self.pages@.len() && k != i implies self.pages@[k]
                    == old(self).pages@[k] || (#[trigger] self.pages@[k]).view_parts()
                    == old_pages[k].view_parts() by {
                    if k < i {
                        assert(self.pages@[k] == before[k]);
                    } else {
                        assert(self.pages@[k] == before[k - 1]);
                    }
                }
            }
            proof {
                assert forall|k: int| i < k < self.pages@.len() implies #[trigger] self.pages@[k] == old_pages[k] by {
                    assert(self.pages@[k] == before[k - 1]);
                }
            }
            match allocated {
                Some((rect, index)) => {
                    self.pending.push(PendingSprite { image, page: page_image, rect });
                    proof {
                        assert(self.pages_view() =~= old(self).pages_view().update(
                            i as int,
                            (page_image, page_layout, old(self).pages_view()[i as int].2.push(rect)),
                        ));
                        assert(self.side() == old(self).side());
                        let new_pages = self.pages_view();
                        assert(new_pages[i as int].2[index as int] == rect);
                    }
                    return Ok((page_image, page_layout, index));
                },
                None => {},
            }
            i = i + 1;
        }
        let mut page = Page::new(side, new_page_image, new_page_layout);
        let allocated = page.allocate(side, width, height);
        match allocated {
            Some((rect, index)) => {
                self.pages.push(page);
                self.pending.push(PendingSprite { image, page: new_page_image, rect });
                proof {
                    assert(self.pages_view() =~= old(self).pages_view().push(
                        (new_page_image, new_page_layout, seq![rect]),
                    ));
                    assert(self.side() == old(self).side());
                    let new_pages = self.pages_view();
                    let k = new_pages.len() - 1;
                    assert(new_pages[k].2[index as int] == rect);
                    assert(new_pages[k].2 =~= Seq::<PixelRect>::empty().push(rect));
                }
                Ok((new_page_image, new_page_layout, index))
            },
            None => {
                proof {
                    assert(self.pages_view() =~= old(self).pages_view());
                }
                Err(
                    SpriteError::SpriteTooLarge {
                        requested_size: PixelSize { width, height },
                        max_size: PixelSize { width: side as u32, height: side as u32 },
                    },
                )
            },
        }
    }

    /// Takes the sprites still to be copied, oldest first.
    pub fn take_pending(&mut self) -> (p: Vec<PendingSprite>)
        requires
            old(self).wf(),
        ensures
            final(self).wf(),
            p@ == old(self).pending_view(),
            final(self).pending_view() == Seq::<PendingSprite>::empty(),
            final(self).pages_view() == old(self).pages_view(),
            final(self).side() == old(self).side(),
    {
        let mut taken: Vec<PendingSprite> = Vec::new();
        std::mem::swap(&mut taken, &mut self.pending);
        taken
    }
}

/// Two sprites packed on one page are at least two pixels apart: each keeps its pixel of
/// margin, and the rectangles allocated for them do not overlap.
pub proof fn law_packed_sprites_apart(a: &SpriteAllocator, page: int, i: int, j: int)
    requires
        a.wf(),
        0 <= page < a.pages_view().len(),
        0 <= i < j < a.pages_view()[page].2.len(),
    ensures
        rects_apart(a.pages_view()[page].2[i], a.pages_view()[page].2[j]),
{
    let p = a.pages@[page];
    assert(p.wf(a.side()));
    let allocs = atlas_allocations(p.alloc);
    assert(a.pages_view()[page] == p.view_parts());
    let bi = allocs[i];
    let bj = allocs[j];
    assert(boxes_disjoint(bi, bj));
    assert(p.textures@[i] == inset(bi));
    assert(p.textures@[j] == inset(bj));
}

/// Every packed sprite lies in its page, a pixel away from the edges.
pub proof fn law_packed_sprites_inside(a: &SpriteAllocator, page: int, i: int)
    requires
        a.wf(),
        0 <= page < a.pages_view().len(),
        0 <= i < a.pages_view()[page].2.len(),
    ensures
        1 <= a.pages_view()[page].2[i].min_x,
        1 <= a.pages_view()[page].2[i].min_y,
        a.pages_view()[page].2[i].max_x + 1 <= a.side(),
        a.pages_view()[page].2[i].max_y + 1 <= a.side(),
{
    let p = a.pages@[page];
    assert(p.wf(a.side()));
    let allocs = atlas_allocations(p.alloc);
    assert(a.pages_view()[page] == p.view_parts());
    let b = allocs[i];
    assert(p.textures@[i] == inset(b));
}

} // verus!
