//! The two size searches: the largest font size whose glyphs all fit a fixed
//! texture, and the smallest square texture that holds the glyphs at a fixed
//! font size. Both decide by packing trials.

use vstd::prelude::*;

use crate::pack::{
    all_present, crunch_packing, first_missing_at, in_request_order, item_sizes, outcome_view,
    packable, packed_in_order, trial_outcome, try_pack, Area, GlyphExtent, Placement,
};
use crate::Error;

verus! {

/// The side of the largest square texture.
pub const MAX_DIMENSION: u16 = 65535;

/// Where a font-size search starts: a size known to fit, one known not to,
/// and how many trials to make.
pub struct BisectArgs<T> {
    pub lower_bound: T,
    pub too_big: T,
    pub attempts: u32,
}

/// The packing area of a square texture of side `d`: the texture less its
/// first row and column, which stay empty as the gutter of the glyphs next
/// to them.
pub open spec fn square_area(d: int) -> Area {
    Area { x: 1, y: 1, w: d as usize, h: d as usize }
}

/// The glyphs, with their gutters, pack into the square of side `d`.
pub open spec fn fits_square(extents: Seq<Result<GlyphExtent, char>>, rotate: bool, d: int) -> bool {
    &&& packable(item_sizes(extents), square_area(d))
    &&& crunch_packing(item_sizes(extents), rotate, square_area(d)) is Some
}

/// The side that bisection settles on between a side `too_small` and a side
/// `upper`: it halves the interval, keeps the upper half where the middle
/// fails and the lower half where it fits, and ends on the upper bound once
/// the two are adjacent.
pub open spec fn search_square(
    extents: Seq<Result<GlyphExtent, char>>,
    rotate: bool,
    too_small: int,
    upper: int,
) -> int
    decreases upper - too_small,
{
    if too_small + 1 >= upper {
        upper
    } else {
        let mid = too_small + (upper - too_small) / 2;
        if fits_square(extents, rotate, mid) {
            search_square(extents, rotate, too_small, mid)
        } else {
            search_square(extents, rotate, mid, upper)
        }
    }
}

/// The side below which the square search does not look: one less than the
/// whole font size, and at least 1.
pub open spec fn start_side(font_size: u16) -> int {
    if font_size < 2 {
        1
    } else {
        font_size - 1
    }
}

/// The packing of the glyphs into the square of side `d`, in request order.
pub open spec fn square_packing(extents: Seq<Result<GlyphExtent, char>>, rotate: bool, d: int) -> Seq<
    Placement,
> {
    in_request_order(crunch_packing(item_sizes(extents), rotate, square_area(d))->Some_0)
}

/// Finds the smallest square texture side that holds the glyphs at a fixed
/// font size, given in whole pixels.
///
/// The first request whose glyph is missing gives `MissingGlyph`. Where even
/// the largest square fails, the result is `PackingAtlasFailed`. Otherwise
/// the side is found by bisection between `font_size - 1` and the largest
/// side, and returned with the packing made at that side.
pub fn bisect_asset_size(
    font_size: u16,
    extents: &Vec<Result<GlyphExtent, char>>,
    allow_rotate: bool,
) -> (r: Result<(u16, Vec<Placement>), Error>)
    ensures
        r matches Err(Error::MissingGlyph(_)) <==> !all_present(extents@),
        r matches Err(Error::MissingGlyph(c)) ==> exists|i: int|
            first_missing_at(extents@, i) && extents@[i] == Err::<GlyphExtent, char>(c),
        r matches Err(Error::PackingAtlasFailed) <==> all_present(extents@) && !fits_square(
            extents@,
            allow_rotate,
            MAX_DIMENSION as int,
        ),
        r matches Ok((d, p)) ==> {
            &&& all_present(extents@)
            &&& d == search_square(extents@, allow_rotate, start_side(font_size), MAX_DIMENSION as int)
            &&& p@ == square_packing(extents@, allow_rotate, d as int)
        },
        r matches Ok((d, p)) ==> {
            &&& start_side(font_size) < d <= MAX_DIMENSION
            &&& fits_square(extents@, allow_rotate, d as int)
            &&& packed_in_order(item_sizes(extents@), allow_rotate, square_area(d as int), p@)
            &&& (d - 1 == start_side(font_size) || !fits_square(extents@, allow_rotate, d - 1))
        },
{
    let mut too_small: u16 = if font_size < 2 {
        1
    } else {
        font_size - 1
    };
    let largest = Area { x: 1, y: 1, w: MAX_DIMENSION as usize, h: MAX_DIMENSION as usize };
    let mut result = match try_pack(extents, allow_rotate, largest) {
        Err(e) => {
            return Err(e);
        },
        Ok(None) => {
            return Err(Error::PackingAtlasFailed);
        },
        Ok(Some(p)) => p,
    };
    let mut upper: u16 = MAX_DIMENSION;
    while too_small + 1 < upper
        invariant
            all_present(extents@),
            too_small < upper <= MAX_DIMENSION,
            start_side(font_size) <= too_small,
            search_square(extents@, allow_rotate, start_side(font_size), MAX_DIMENSION as int)
                == search_square(extents@, allow_rotate, too_small as int, upper as int),
            fits_square(extents@, allow_rotate, upper as int),
            result@ == square_packing(extents@, allow_rotate, upper as int),
            packed_in_order(item_sizes(extents@), allow_rotate, square_area(upper as int), result@),
            too_small == start_side(font_size) || !fits_square(extents@, allow_rotate, too_small as int),
        decreases upper - too_small,
    {
        let mid = too_small + (upper - too_small) / 2;
        let area = Area { x: 1, y: 1, w: mid as usize, h: mid as usize };
        match try_pack(extents, allow_rotate, area) {
            Ok(Some(p)) => {
                result = p;
                upper = mid;
            },
            Ok(None) => {
                too_small = mid;
            },
            Err(e) => {
                return Err(e);
            },
        }
    }
    Ok((upper, result))
}

/// The packing area of a texture of `width` by `height`: the texture less
/// its first row and column.
pub open spec fn texture_area(width: u16, height: u16) -> Area {
    Area { x: 1, y: 1, w: (width - 1) as usize, h: (height - 1) as usize }
}

/// `p` is the successful packing, in request order, of the glyph extents
/// `extents` into `area`.
pub open spec fn packing_of(
    extents: Seq<Result<GlyphExtent, char>>,
    rotate: bool,
    area: Area,
    p: Seq<Placement>,
) -> bool {
    &&& all_present(extents)
    &&& packable(item_sizes(extents), area)
    &&& crunch_packing(item_sizes(extents), rotate, area) matches Some(q)
    &&& p == in_request_order(q)
    &&& packed_in_order(item_sizes(extents), rotate, area, p)
}

/// The size that `midpoint` gives for the bounds `a` and `b`.
pub open spec fn midpoint_of<T, M: Fn(T, T) -> T>(midpoint: M, a: T, b: T) -> T {
    choose|m: T| midpoint.ensures((a, b), m)
}

/// The glyph extents that `extents_at` gives at font size `x`.
pub open spec fn extents_of<T, S: Fn(T) -> Vec<Result<GlyphExtent, char>>>(extents_at: S, x: T) -> Seq<
    Result<GlyphExtent, char>,
> {
    (choose|e: Vec<Result<GlyphExtent, char>>| extents_at.ensures((x,), e))@
}

/// The font-size search from the bounds `lower` and `too_big`, with `best`
/// the packing made at `lower`, for `rounds` more trials: each trial packs
/// the extents at the midpoint of the bounds; a fit raises the lower bound
/// and a failure lowers the upper one; a missing glyph ends the search.
pub open spec fn font_search<T, M: Fn(T, T) -> T, S: Fn(T) -> Vec<Result<GlyphExtent, char>>>(
    midpoint: M,
    extents_at: S,
    rotate: bool,
    area: Area,
    lower: T,
    too_big: T,
    best: Seq<Placement>,
    rounds: nat,
) -> Result<(T, Seq<Placement>), Error>
    decreases rounds,
{
    let check = midpoint_of(midpoint, lower, too_big);
    match trial_outcome(extents_of(extents_at, check), rotate, area) {
        Err(e) => Err(e),
        Ok(Some(p)) => if rounds <= 1 {
            Ok((check, p))
        } else {
            font_search(midpoint, extents_at, rotate, area, check, too_big, p, (rounds - 1) as nat)
        },
        Ok(None) => if rounds <= 1 {
            Ok((lower, best))
        } else {
            font_search(midpoint, extents_at, rotate, area, lower, check, best, (rounds - 1) as nat)
        },
    }
}

/// The view of a search's result.
pub open spec fn search_view<T>(r: Result<(T, Vec<Placement>), Error>) -> Result<
    (T, Seq<Placement>),
    Error,
> {
    match r {
        Ok((x, p)) => Ok((x, p@)),
        Err(e) => Err(e),
    }
}

/// Finds the largest font size whose glyphs all fit a texture of
/// `asset_width` by `asset_height`, by bisection between `args.lower_bound`
/// and `args.too_big`.
///
/// Each trial takes the size that `midpoint` gives for the two bounds,
/// computes the glyph extents at that size with `extents_at` and packs them
/// into the texture less its first row and column. A fitting size becomes
/// the lower bound, a failing one the upper bound. After `args.attempts`
/// trials (at least one) the lower bound is returned with the packing made
/// at it; where no trial fitted, that is the initial lower bound with no
/// placements. A trial whose extents lack a glyph ends the search with
/// `MissingGlyph` for the first such request.
///
/// `midpoint` and `extents_at` must give one result for each argument: the
/// glyph requests behind `extents_at` are read again at every trial.
pub fn bisect_font_size<T: Copy, M, S>(
    asset_width: u16,
    asset_height: u16,
    allow_rotate: bool,
    args: BisectArgs<T>,
    midpoint: M,
    extents_at: S,
) -> (r: Result<(T, Vec<Placement>), Error>) where
    M: Fn(T, T) -> T,
    S: Fn(T) -> Vec<Result<GlyphExtent, char>>,

    requires
        asset_width >= 2,
        asset_height >= 2,
        forall|a: T, b: T| midpoint.requires((a, b)),
        forall|x: T| extents_at.requires((x,)),
        forall|a: T, b: T, m: T, n: T|
            #[trigger] midpoint.ensures((a, b), m) && #[trigger] midpoint.ensures((a, b), n) ==> m
                == n,
        forall|x: T, e: Vec<Result<GlyphExtent, char>>, f: Vec<Result<GlyphExtent, char>>|
            #[trigger] extents_at.ensures((x,), e) && #[trigger] extents_at.ensures((x,), f) ==> e@
                == f@,
    ensures
        search_view(r) == font_search(
            midpoint,
            extents_at,
            allow_rotate,
            texture_area(asset_width, asset_height),
            args.lower_bound,
            args.too_big,
            Seq::empty(),
            if args.attempts == 0 {
                1
            } else {
                args.attempts as nat
            },
        ),
        r matches Err(e) ==> exists|x: T, extents: Vec<Result<GlyphExtent, char>>|
            #[trigger] extents_at.ensures((x,), extents) && exists|i: int|
                first_missing_at(extents@, i) && e == Error::MissingGlyph(extents@[i]->Err_0),
        r matches Ok((size, p)) ==> {
            ||| size == args.lower_bound && p@.len() == 0
            ||| exists|extents: Vec<Result<GlyphExtent, char>>|
                #[trigger] extents_at.ensures((size,), extents) && packing_of(
                    extents@,
                    allow_rotate,
                    texture_area(asset_width, asset_height),
                    p@,
                )
        },
        r matches Ok((size, _)) ==> size == args.lower_bound || exists|a: T, b: T|
            #[trigger] midpoint.ensures((a, b), size),
{
    let area = Area { x: 1, y: 1, w: (asset_width - 1) as usize, h: (asset_height - 1) as usize };
    let mut lower = args.lower_bound;
    let mut too_big = args.too_big;
    let mut best: Vec<Placement> = Vec::new();
    let mut remaining = args.attempts;
    loop
        invariant
            area == texture_area(asset_width, asset_height),
            forall|a: T, b: T| midpoint.requires((a, b)),
            forall|x: T| extents_at.requires((x,)),
            (lower == args.lower_bound && best@.len() == 0) || exists|
                extents: Vec<Result<GlyphExtent, char>>,
            |
                #[trigger] extents_at.ensures((lower,), extents) && packing_of(
                    extents@,
                    allow_rotate,
                    area,
                    best@,
                ),
            lower == args.lower_bound || exists|a: T, b: T| #[trigger] midpoint.ensures((a, b), lower),
            forall|a: T, b: T, m: T, n: T|
                #[trigger] midpoint.ensures((a, b), m) && #[trigger] midpoint.ensures((a, b), n) ==> m
                    == n,
            forall|x: T, e: Vec<Result<GlyphExtent, char>>, f: Vec<Result<GlyphExtent, char>>|
                #[trigger] extents_at.ensures((x,), e) && #[trigger] extents_at.ensures((x,), f)
                    ==> e@ == f@,
            font_search(
                midpoint,
                extents_at,
                allow_rotate,
                area,
                args.lower_bound,
                args.too_big,
                Seq::empty(),
                if args.attempts == 0 {
                    1
                } else {
                    args.attempts as nat
                },
            ) == font_search(
                midpoint,
                extents_at,
                allow_rotate,
                area,
                lower,
                too_big,
                best@,
                if remaining == 0 {
                    1
                } else {
                    remaining as nat
                },
            ),
        decreases remaining,
    {
        if remaining > 0 {
            remaining = remaining - 1;
        }
        let check = midpoint(lower, too_big);
        let extents = extents_at(check);
        assert(midpoint_of(midpoint, lower, too_big) == check);
        assert(extents_of(extents_at, check) == extents@);
        match try_pack(&extents, allow_rotate, area) {
            Err(e) => {
                return Err(e);
            },
            Ok(Some(p)) => {
                lower = check;
                best = p;
            },
            Ok(None) => {
                too_big = check;
            },
        }
        if remaining == 0 {
            return Ok((lower, best));
        }
    }
}

} // verus!
