//! Packing the glyphs' rectangles into the atlas.
//!
//! The packing itself is done by the `crunch` crate; this module states what
//! its result is made of, applies the rule that a missing glyph wins over any
//! packing outcome, and hands placements back in the order of the requests.

use vstd::prelude::*;

use crate::Error;

verus! {

/// The pixel extent of one rendered glyph, without its gutter.
#[derive(Clone, Copy, Debug, PartialEq, Eq, Structural)]
pub struct GlyphExtent {
    /// The width of the glyph's field in pixels.
    pub pixel_width: u16,
    /// The height of the glyph's field in pixels.
    pub pixel_height: u16,
}

/// An axis-aligned rectangle in pixels: `x..x + w` by `y..y + h`.
#[derive(Clone, Copy, Debug, PartialEq, Eq, Structural)]
pub struct Area {
    /// The left column.
    pub x: usize,
    /// The top row.
    pub y: usize,
    /// The width.
    pub w: usize,
    /// The height.
    pub h: usize,
}

/// Where the packer put the item of request `index`.
#[derive(Clone, Copy, Debug, PartialEq, Eq, Structural)]
pub struct Placement {
    /// The position of the item among the packed requests.
    pub index: usize,
    /// The left column of the placement.
    pub x: usize,
    /// The top row of the placement.
    pub y: usize,
    /// The placed width: the item's width, or its height if it was rotated.
    pub w: usize,
    /// The placed height: the item's height, or its width if it was rotated.
    pub h: usize,
}

/// What `crunch::pack` returns for these item sizes (width, height), this
/// rotation setting and this container: `None` when it reports failure.
pub uninterp spec fn crunch_packing(sizes: Seq<(usize, usize)>, rotate: bool, area: Area) -> Option<
    Seq<Placement>,
>;

/// The placement lies inside the container.
pub open spec fn placed_inside(p: Placement, area: Area) -> bool {
    &&& area.x <= p.x
    &&& area.y <= p.y
    &&& p.x + p.w <= area.x + area.w
    &&& p.y + p.h <= area.y + area.h
}

/// The two placements share at least one pixel.
pub open spec fn overlapping(a: Placement, b: Placement) -> bool {
    &&& a.x < b.x + b.w
    &&& b.x < a.x + a.w
    &&& a.y < b.y + b.h
    &&& b.y < a.y + a.h
}

/// The placement has the item's size, or that size turned by 90° where
/// rotation is allowed.
pub open spec fn sized_as(p: Placement, size: (usize, usize), rotate: bool) -> bool {
    ||| (p.w == size.0 && p.h == size.1)
    ||| (rotate && size.0 != size.1 && p.w == size.1 && p.h == size.0)
}

/// Some placement is that of item `i`.
pub open spec fn places_item(p: Seq<Placement>, i: int) -> bool {
    exists|k: int| 0 <= k < p.len() && p[k].index == i
}

/// A complete packing of `sizes` into `area`: each item placed exactly once,
/// with its size, inside the container, no two overlapping.
pub open spec fn valid_packing(
    sizes: Seq<(usize, usize)>,
    rotate: bool,
    area: Area,
    p: Seq<Placement>,
) -> bool {
    &&& p.len() == sizes.len()
    &&& forall|k: int| 0 <= k < p.len() ==> #[trigger] p[k].index < sizes.len()
    &&& forall|i: int| 0 <= i < sizes.len() ==> #[trigger] places_item(p, i)
    &&& forall|k: int, l: int|
        0 <= k < p.len() && 0 <= l < p.len() && k != l ==> #[trigger] p[k].index != #[trigger] p[l].index
    &&& forall|k: int|
        0 <= k < p.len() ==> #[trigger] sized_as(p[k], sizes[p[k].index as int], rotate)
            && placed_inside(p[k], area)
    &&& forall|k: int, l: int|
        0 <= k < p.len() && 0 <= l < p.len() && k != l ==> !overlapping(
            #[trigger] p[k],
            #[trigger] p[l],
        )
}

/// The sizes and container on which `crunch::pack` runs without overflow,
/// with no empty item.
pub open spec fn packable(sizes: Seq<(usize, usize)>, area: Area) -> bool {
    &&& sizes.len() <= usize::MAX / 2
    &&& forall|i: int|
        0 <= i < sizes.len() ==> 1 <= (#[trigger] sizes[i]).0 && 1 <= sizes[i].1 && sizes[i].0
            * sizes[i].1 + sizes[i].0 + sizes[i].1 <= usize::MAX
    &&& area.x + area.w <= usize::MAX
    &&& area.y + area.h <= usize::MAX
    &&& area.w * area.h <= usize::MAX
}

/// Relies on `crunch::pack`: a deterministic packer whose success result
/// holds every item once (its data is the item's position), at the item's
/// size or, where rotation is allowed and the item is not square, turned by
/// 90°, inside the container and without overlap (as its documentation
/// states and its example checks).
#[verifier::external_body]
fn crunch_pack(sizes: &Vec<(usize, usize)>, rotate: bool, area: Area) -> (r: Option<Vec<Placement>>)
    requires
        packable(sizes@, area),
    ensures
        r matches Some(v) ==> crunch_packing(sizes@, rotate, area) == Some(v@),
        r is None ==> crunch_packing(sizes@, rotate, area) is None,
        r matches Some(v) ==> valid_packing(sizes@, rotate, area, v@),
{
    let rot = if rotate { crunch::Rotation::Allowed } else { crunch::Rotation::None };
    let items = sizes.iter().enumerate().map(|(i, s)| crunch::Item::new(i, s.0, s.1, rot));
    let into = crunch::Rect::new(area.x, area.y, area.w, area.h);
    match crunch::pack(into, items) {
        Ok(v) => Some(v.into_iter().map(|p| Placement { index: p.data, x: p.rect.x, y: p.rect.y, w: p.rect.w, h: p.rect.h }).collect()),
        Err(_) => None,
    }
}

/// The packer's item for one glyph: its extent and a one-pixel gutter on
/// the right and at the bottom.
pub open spec fn gutter_size(e: GlyphExtent) -> (usize, usize) {
    ((e.pixel_width + 1) as usize, (e.pixel_height + 1) as usize)
}

/// The packer's items for glyphs that are all present.
pub open spec fn item_sizes(extents: Seq<Result<GlyphExtent, char>>) -> Seq<(usize, usize)> {
    Seq::new(extents.len(), |i: int| gutter_size(extents[i]->Ok_0))
}

/// Every glyph of the request is present in the font.
pub open spec fn all_present(extents: Seq<Result<GlyphExtent, char>>) -> bool {
    forall|i: int| 0 <= i < extents.len() ==> (#[trigger] extents[i]) is Ok
}

/// Request `i` is the first whose glyph is missing.
pub open spec fn first_missing_at(extents: Seq<Result<GlyphExtent, char>>, i: int) -> bool {
    &&& 0 <= i < extents.len()
    &&& extents[i] is Err
    &&& forall|j: int| 0 <= j < i ==> (#[trigger] extents[j]) is Ok
}

/// A packer's result put back in the order of the requests: position `i`
/// holds the placement of item `i`.
pub open spec fn in_request_order(q: Seq<Placement>) -> Seq<Placement> {
    Seq::new(q.len(), |i: int| q[choose|k: int| 0 <= k < q.len() && q[k].index == i])
}

/// A complete packing of `sizes` in request order: position `i` holds the
/// placement of item `i`, at its size, inside the container, overlapping no
/// other.
pub open spec fn packed_in_order(
    sizes: Seq<(usize, usize)>,
    rotate: bool,
    area: Area,
    p: Seq<Placement>,
) -> bool {
    &&& p.len() == sizes.len()
    &&& forall|i: int|
        0 <= i < p.len() ==> (#[trigger] p[i]).index == i && sized_as(p[i], sizes[i], rotate)
            && placed_inside(p[i], area)
    &&& forall|i: int, j: int|
        0 <= i < p.len() && 0 <= j < p.len() && i != j ==> !overlapping(
            #[trigger] p[i],
            #[trigger] p[j],
        )
}

/// Tells whether `crunch::pack` can count with these sizes and container
/// on this platform.
fn fits_packer(sizes: &Vec<(usize, usize)>, area: Area) -> (r: bool)
    ensures
        r == packable(sizes@, area),
{
    if sizes.len() > usize::MAX / 2 || area.x.checked_add(area.w).is_none()
        || area.y.checked_add(area.h).is_none() || area.w.checked_mul(area.h).is_none() {
        return false;
    }
    let mut i: usize = 0;
    while i < sizes.len()
        invariant
            i <= sizes.len(),
            forall|j: int|
                0 <= j < i ==> 1 <= (#[trigger] sizes@[j]).0 && 1 <= sizes@[j].1 && sizes@[j].0
                    * sizes@[j].1 + sizes@[j].0 + sizes@[j].1 <= usize::MAX,
        decreases sizes.len() - i,
    {
        let (w, h) = sizes[i];
        if w == 0 || h == 0 {
            return false;
        }
        let fits = match w.checked_mul(h) {
            Some(m) => match m.checked_add(w) {
                Some(m) => m.checked_add(h).is_some(),
                None => false,
            },
            None => false,
        };
        if !fits {
            return false;
        }
        i = i + 1;
    }
    true
}

/// Puts a complete packing back in the order of the requests.
fn into_request_order(q: Vec<Placement>) -> (r: Vec<Placement>)
    requires
        forall|k: int| 0 <= k < q.len() ==> #[trigger] q@[k].index < q.len(),
        forall|i: int| 0 <= i < q.len() ==> #[trigger] places_item(q@, i),
        forall|k: int, l: int|
            0 <= k < q.len() && 0 <= l < q.len() && k != l ==> #[trigger] q@[k].index
                != #[trigger] q@[l].index,
    ensures
        r@ == in_request_order(q@),
{
    let n = q.len();
    let mut r: Vec<Placement> = Vec::new();
    let mut i: usize = 0;
    while i < n
        invariant
            i <= n,
            r.len() == i,
        decreases n - i,
    {
        r.push(Placement { index: i, x: 0, y: 0, w: 0, h: 0 });
        i = i + 1;
    }
    let mut k: usize = 0;
    while k < n
        invariant
            n == q.len(),
            k <= n,
            r.len() == n,
            forall|m: int| 0 <= m < n ==> #[trigger] q@[m].index < n,
            forall|m: int, l: int|
                0 <= m < n && 0 <= l < n && m != l ==> #[trigger] q@[m].index
                    != #[trigger] q@[l].index,
            forall|j: int| 0 <= j < k ==> r@[#[trigger] q@[j].index as int] == q@[j],
        decreases n - k,
    {
        let p = q[k];
        r.set(p.index, p);
        k = k + 1;
    }
    assert forall|i: int| 0 <= i < n implies r@[i] == in_request_order(q@)[i] by {
        assert(places_item(q@, i));
        let c = choose|c: int| 0 <= c < q.len() && q@[c].index == i;
        assert(r@[q@[c].index as int] == q@[c]);
    }
    assert(r@ =~= in_request_order(q@));
    r
}

/// Putting a complete packing in request order keeps it complete.
proof fn lemma_request_order(sizes: Seq<(usize, usize)>, rotate: bool, area: Area, q: Seq<Placement>)
    requires
        valid_packing(sizes, rotate, area, q),
    ensures
        packed_in_order(sizes, rotate, area, in_request_order(q)),
{
    let p = in_request_order(q);
    assert forall|i: int| 0 <= i < p.len() implies (#[trigger] p[i]).index == i && sized_as(
        p[i],
        sizes[i],
        rotate,
    ) && placed_inside(p[i], area) by {
        assert(places_item(q, i));
        let c = choose|c: int| 0 <= c < q.len() && q[c].index == i;
        assert(sized_as(q[c], sizes[q[c].index as int], rotate));
    }
    assert forall|i: int, j: int|
        0 <= i < p.len() && 0 <= j < p.len() && i != j implies !overlapping(
        #[trigger] p[i],
        #[trigger] p[j],
    ) by {
        assert(places_item(q, i));
        assert(places_item(q, j));
        let c = choose|c: int| 0 <= c < q.len() && q[c].index == i;
        let d = choose|d: int| 0 <= d < q.len() && q[d].index == j;
        assert(q[c] == p[i]);
        assert(q[d] == p[j]);
    }
}

/// The codepoint of the first request whose glyph is missing.
pub open spec fn first_missing(extents: Seq<Result<GlyphExtent, char>>) -> char {
    extents[choose|i: int| first_missing_at(extents, i)]->Err_0
}

/// The outcome of a packing trial: `MissingGlyph` for the first request
/// whose glyph is missing; otherwise `None` where the packer cannot take the
/// items or fails, else its placements in request order.
pub open spec fn trial_outcome(
    extents: Seq<Result<GlyphExtent, char>>,
    rotate: bool,
    area: Area,
) -> Result<Option<Seq<Placement>>, Error> {
    if !all_present(extents) {
        Err(Error::MissingGlyph(first_missing(extents)))
    } else if !packable(item_sizes(extents), area) {
        Ok(None)
    } else {
        match crunch_packing(item_sizes(extents), rotate, area) {
            Some(q) => Ok(Some(in_request_order(q))),
            None => Ok(None),
        }
    }
}

/// The view of a trial's result.
pub open spec fn outcome_view(r: Result<Option<Vec<Placement>>, Error>) -> Result<
    Option<Seq<Placement>>,
    Error,
> {
    match r {
        Ok(Some(p)) => Ok(Some(p@)),
        Ok(None) => Ok(None),
        Err(e) => Err(e),
    }
}

/// The first missing glyph is well defined: at most one request is the
/// first whose glyph is missing.
proof fn lemma_first_missing(extents: Seq<Result<GlyphExtent, char>>, i: int)
    requires
        first_missing_at(extents, i),
    ensures
        first_missing(extents) == extents[i]->Err_0,
{
    let j = choose|j: int| first_missing_at(extents, j);
    if j < i {
        assert(extents[j] is Ok);
    } else if i < j {
        assert(extents[i] is Ok);
    }
}

/// One packing trial: the glyphs of the requests, each with its gutter,
/// packed into `area`.
///
/// A missing glyph wins over any packing outcome: the first request whose
/// glyph is missing gives `MissingGlyph` with its codepoint. Otherwise the
/// result is `None` where the packer fails, and else its placements in the
/// order of the requests.
pub fn try_pack(extents: &Vec<Result<GlyphExtent, char>>, rotate: bool, area: Area) -> (r: Result<
    Option<Vec<Placement>>,
    Error,
>)
    ensures
        outcome_view(r) == trial_outcome(extents@, rotate, area),
        r is Ok <==> all_present(extents@),
        r matches Err(e) ==> exists|i: int|
            first_missing_at(extents@, i) && e == Error::MissingGlyph(extents@[i]->Err_0),
        r matches Ok(None) ==> !packable(item_sizes(extents@), area) || crunch_packing(
            item_sizes(extents@),
            rotate,
            area,
        ) is None,
        r matches Ok(Some(p)) ==> {
            &&& packable(item_sizes(extents@), area)
            &&& crunch_packing(item_sizes(extents@), rotate, area) matches Some(q)
            &&& p@ == in_request_order(q)
        },
        r matches Ok(Some(p)) ==> packed_in_order(item_sizes(extents@), rotate, area, p@),
{
    let mut sizes: Vec<(usize, usize)> = Vec::new();
    let mut i: usize = 0;
    while i < extents.len()
        invariant
            i <= extents.len(),
            sizes@ == item_sizes(extents@.take(i as int)),
            forall|j: int| 0 <= j < i ==> (#[trigger] extents@[j]) is Ok,
        decreases extents.len() - i,
    {
        match extents[i] {
            Ok(e) => {
                sizes.push(((e.pixel_width as usize) + 1, (e.pixel_height as usize) + 1));
            },
            Err(c) => {
                assert(first_missing_at(extents@, i as int));
                proof {
                    lemma_first_missing(extents@, i as int);
                }
                return Err(Error::MissingGlyph(c));
            },
        }
        i = i + 1;
        assert(sizes@ =~= item_sizes(extents@.take(i as int)));
    }
    assert(extents@.take(i as int) =~= extents@);
    if !fits_packer(&sizes, area) {
        return Ok(None);
    }
    match crunch_pack(&sizes, rotate, area) {
        None => Ok(None),
        Some(q) => {
            proof {
                lemma_request_order(sizes@, rotate, area, q@);
            }
            Ok(Some(into_request_order(q)))
        },
    }
}

} // verus!
