use blurry::pack::{try_pack, Area, GlyphExtent};
use blurry::Error;

fn ext(w: u16, h: u16) -> Result<GlyphExtent, char> {
    Ok(GlyphExtent { pixel_width: w, pixel_height: h })
}

fn overlaps(a: &blurry::pack::Placement, b: &blurry::pack::Placement) -> bool {
    a.x < b.x + b.w && b.x < a.x + a.w && a.y < b.y + b.h && b.y < a.y + a.h
}

#[test]
fn trial_places_every_glyph_in_request_order() {
    let extents = vec![ext(3, 5), ext(10, 2), ext(4, 4), ext(1, 1)];
    let area = Area { x: 1, y: 1, w: 20, h: 20 };
    let placed = try_pack(&extents, false, area).unwrap().unwrap();
    assert_eq!(placed.len(), 4);
    for (i, p) in placed.iter().enumerate() {
        assert_eq!(p.index, i);
        let e = extents[i].unwrap();
        assert_eq!(p.w, e.pixel_width as usize + 1);
        assert_eq!(p.h, e.pixel_height as usize + 1);
        assert!(p.x >= 1 && p.y >= 1 && p.x + p.w <= 21 && p.y + p.h <= 21);
    }
    for a in &placed {
        for b in &placed {
            assert!(a.index == b.index || !overlaps(a, b));
        }
    }
}

#[test]
fn trial_reports_first_missing_glyph() {
    let extents = vec![ext(3, 5), Err('q'), ext(2, 2), Err('z')];
    let area = Area { x: 1, y: 1, w: 20, h: 20 };
    assert_eq!(try_pack(&extents, false, area), Err(Error::MissingGlyph('q')));
}

#[test]
fn missing_glyph_wins_over_packing_failure() {
    let extents = vec![ext(300, 300), Err('m')];
    let area = Area { x: 1, y: 1, w: 20, h: 20 };
    assert_eq!(try_pack(&extents, false, area), Err(Error::MissingGlyph('m')));
}

#[test]
fn trial_fails_when_glyphs_do_not_fit() {
    let extents = vec![ext(30, 3)];
    let area = Area { x: 1, y: 1, w: 20, h: 20 };
    assert_eq!(try_pack(&extents, false, area), Ok(None));
}

#[test]
fn trial_may_rotate_only_where_allowed() {
    let extents = vec![ext(30, 3)];
    let area = Area { x: 1, y: 1, w: 10, h: 40 };
    assert_eq!(try_pack(&extents, false, area), Ok(None));
    let placed = try_pack(&extents, true, area).unwrap().unwrap();
    assert_eq!((placed[0].w, placed[0].h), (4, 31));
    assert!(placed[0].is_rotated(extents[0].unwrap()));
}

#[test]
fn unrotated_placement_is_not_reported_rotated() {
    let extents = vec![ext(6, 2), ext(5, 5)];
    let area = Area { x: 1, y: 1, w: 30, h: 30 };
    let placed = try_pack(&extents, false, area).unwrap().unwrap();
    for (p, e) in placed.iter().zip(&extents) {
        assert!(!p.is_rotated(e.unwrap()));
    }
}

#[test]
fn empty_request_packs_to_nothing() {
    let area = Area { x: 1, y: 1, w: 1, h: 1 };
    assert_eq!(try_pack(&Vec::new(), false, area), Ok(Some(Vec::new())));
}
