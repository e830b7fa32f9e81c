use blurry::pack::{try_pack, Area, GlyphExtent, Placement};
use blurry::raster::{render_atlas, Buffer};

#[test]
fn new_buffer_is_zero() {
    let b = Buffer::new(7, 3);
    assert_eq!(b.width, 7);
    assert_eq!(b.data, vec![0u8; 21]);
}

#[test]
fn set_pixel_is_row_major() {
    let mut b = Buffer::new(4, 3);
    b.set_pixel((1, 2), 9);
    assert_eq!(b.data[2 * 4 + 1], 9);
    assert_eq!(b.data.iter().filter(|&&v| v != 0).count(), 1);
}

#[test]
fn glyph_field_skips_gutter_and_none() {
    let mut b = Buffer::new(5, 4);
    let p = Placement { index: 0, x: 1, y: 1, w: 3, h: 3 };
    let field = vec![Some(10), None, Some(30), Some(40)];
    b.write_glyph(&p, &field);
    let mut want = vec![0u8; 20];
    want[5 + 1] = 10;
    want[10 + 1] = 30;
    want[10 + 2] = 40;
    assert_eq!(b.data, want);
}

#[test]
fn atlas_border_stays_zero() {
    let extents: Vec<Result<GlyphExtent, char>> = (0..12)
        .map(|i| Ok(GlyphExtent { pixel_width: 3 + i % 4, pixel_height: 2 + i % 3 }))
        .collect();
    let (w, h) = (24u16, 24u16);
    let area = Area { x: 1, y: 1, w: w as usize - 1, h: h as usize - 1 };
    let placed = try_pack(&extents, false, area).unwrap().unwrap();
    let fields: Vec<Vec<Option<u8>>> =
        placed.iter().map(|p| vec![Some(255); (p.w - 1) * (p.h - 1)]).collect();
    let b = render_atlas(w, h, &placed, &fields);
    let px = |r: usize, c: usize| b.data[r * w as usize + c];
    for c in 0..w as usize {
        assert_eq!(px(0, c), 0);
        assert_eq!(px(h as usize - 1, c), 0);
    }
    for r in 0..h as usize {
        assert_eq!(px(r, 0), 0);
        assert_eq!(px(r, w as usize - 1), 0);
    }
    let lit = b.data.iter().filter(|&&v| v == 255).count();
    let want: usize = placed.iter().map(|p| (p.w - 1) * (p.h - 1)).sum();
    assert_eq!(lit, want);
}
