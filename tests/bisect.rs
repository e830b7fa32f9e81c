use blurry::bisect::{bisect_asset_size, bisect_font_size, BisectArgs, MAX_DIMENSION};
use blurry::pack::{try_pack, Area, GlyphExtent, Placement};
use blurry::{hexdigits, latin1, Error};

/// Extent of a glyph `rw` by `rh` font heights with padding 0.1 at `size`.
fn extent_at(rw: f32, rh: f32, padding: f32, size: f32) -> GlyphExtent {
    let px = |v: f32| ((v + 2.0 * padding) * size).round().clamp(0.0, 65535.0) as u16;
    GlyphExtent { pixel_width: px(rw), pixel_height: px(rh) }
}

fn shape_of(c: char) -> (f32, f32) {
    let n = c as u32;
    (0.3 + (n % 7) as f32 * 0.05, 0.5 + (n % 5) as f32 * 0.05)
}

fn extents_for(chars: &[char], padding: f32, size: f32) -> Vec<Result<GlyphExtent, char>> {
    chars
        .iter()
        .map(|&c| {
            let (w, h) = shape_of(c);
            Ok(extent_at(w, h, padding, size))
        })
        .collect()
}

fn args(height: u16) -> BisectArgs<f32> {
    BisectArgs { lower_bound: 1.0, too_big: 8.0 * height as f32, attempts: 11 }
}

fn mid(a: f32, b: f32) -> f32 {
    (a + b) / 2.0
}

fn inside(p: &Placement, area: Area) -> bool {
    p.x >= area.x && p.y >= area.y && p.x + p.w <= area.x + area.w && p.y + p.h <= area.y + area.h
}

#[test]
fn single_glyph_fits_small_texture() {
    let chars = ['A'];
    let (size, placed) =
        bisect_font_size(64, 64, false, args(64), mid, |s| extents_for(&chars, 0.1, s)).unwrap();
    assert_eq!(placed.len(), 1);
    assert!(size > 1.0 && size < 512.0);
    let area = Area { x: 1, y: 1, w: 63, h: 63 };
    assert!(inside(&placed[0], area));
    // the placement is the one a trial at the returned size gives
    let again = try_pack(&extents_for(&chars, 0.1, size), false, area).unwrap().unwrap();
    assert_eq!(again, placed);
}

#[test]
fn latin1_fits_255_texture_without_rotation() {
    let chars = latin1();
    let (size, placed) =
        bisect_font_size(255, 255, false, args(255), mid, |s| extents_for(&chars, 0.1, s))
            .unwrap();
    assert_eq!(placed.len(), chars.len());
    let ext = extents_for(&chars, 0.1, size);
    for (i, p) in placed.iter().enumerate() {
        assert_eq!(p.index, i);
        assert!(!p.is_rotated(ext[i].unwrap()));
        assert!(inside(p, Area { x: 1, y: 1, w: 254, h: 254 }));
    }
}

#[test]
fn font_size_search_reports_missing_glyph() {
    let chars = ['a', 'b', 'c'];
    let r = bisect_font_size(64, 64, false, args(64), mid, |s| {
        let mut e = extents_for(&chars, 0.1, s);
        e[1] = Err('\u{e000}');
        e
    });
    assert_eq!(r, Err(Error::MissingGlyph('\u{e000}')));
}

#[test]
fn tiny_texture_still_succeeds() {
    let chars = latin1();
    let r = bisect_font_size(2, 2, false, args(2), mid, |s| extents_for(&chars, 0.1, s));
    let (size, placed) = r.unwrap();
    assert!(size >= 1.0 && size < 16.0);
    assert!(placed.is_empty() || placed.len() == chars.len());
}

#[test]
fn font_size_search_raises_lower_bound_on_fit() {
    // one glyph always one pixel: every trial fits, the lower bound climbs
    let r = bisect_font_size(
        8,
        8,
        false,
        BisectArgs { lower_bound: 1u32, too_big: 1025u32, attempts: 3 },
        |a, b| (a + b) / 2,
        |_| vec![Ok(GlyphExtent { pixel_width: 1, pixel_height: 1 })],
    );
    let (size, placed) = r.unwrap();
    assert_eq!(size, 897);
    assert_eq!(placed.len(), 1);
}

#[test]
fn font_size_search_without_fit_keeps_initial_bound() {
    let r = bisect_font_size(
        8,
        8,
        false,
        BisectArgs { lower_bound: 1u32, too_big: 100u32, attempts: 4 },
        |a, b| (a + b) / 2,
        |_| vec![Ok(GlyphExtent { pixel_width: 20, pixel_height: 1 })],
    );
    assert_eq!(r, Ok((1, Vec::new())));
}

#[test]
fn hex_digits_at_size_30_need_a_small_square() {
    let chars = hexdigits();
    let extents = extents_for(&chars, 0.3, 30.0);
    let (dim, placed) = bisect_asset_size(30, &extents, false).unwrap();
    assert!(dim <= 256);
    assert!(dim > 29);
    assert_eq!(placed.len(), chars.len());
    let area = Area { x: 1, y: 1, w: dim as usize, h: dim as usize };
    for p in &placed {
        assert!(inside(p, area));
    }
    // one less does not fit
    let smaller = Area { x: 1, y: 1, w: dim as usize - 1, h: dim as usize - 1 };
    assert_eq!(try_pack(&extents, false, smaller), Ok(None));
}

#[test]
fn square_search_finds_exact_side_for_one_glyph() {
    let extents = vec![Ok(GlyphExtent { pixel_width: 99, pixel_height: 9 })];
    let (dim, placed) = bisect_asset_size(2, &extents, false).unwrap();
    assert_eq!(dim, 100);
    assert_eq!((placed[0].x, placed[0].y, placed[0].w, placed[0].h), (1, 1, 100, 10));
}

#[test]
fn square_search_reports_missing_glyph() {
    let extents = vec![
        Ok(GlyphExtent { pixel_width: 5, pixel_height: 9 }),
        Err('\u{1f600}'),
        Err('x'),
    ];
    assert_eq!(bisect_asset_size(12, &extents, true), Err(Error::MissingGlyph('\u{1f600}')));
}

#[test]
fn square_search_fails_when_largest_square_is_too_small() {
    let extents = vec![Ok(GlyphExtent { pixel_width: 65535, pixel_height: 3 })];
    assert_eq!(bisect_asset_size(12, &extents, false), Err(Error::PackingAtlasFailed));
}

#[test]
fn square_search_at_largest_font_size_gives_largest_side() {
    let extents = vec![Ok(GlyphExtent { pixel_width: 3, pixel_height: 3 })];
    let (dim, _) = bisect_asset_size(u16::MAX, &extents, false).unwrap();
    assert_eq!(dim, MAX_DIMENSION);
}
