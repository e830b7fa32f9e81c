//! The atlas pixel buffer and the writing of rendered glyphs into it.

use vstd::arithmetic::div_mod::{lemma_fundamental_div_mod, lemma_fundamental_div_mod_converse};
use vstd::prelude::*;

use crate::bisect::texture_area;
use crate::pack::{gutter_size, overlapping, placed_inside, sized_as, GlyphExtent, Placement};

verus! {

/// A row-major grayscale image: the pixel at row `r`, column `c` is
/// `data[r * width + c]`.
pub struct Buffer {
    pub data: Vec<u8>,
    pub width: u16,
}

/// Buffer index `i` of an image `width` pixels wide lies in the field of the
/// glyph placed at `p`: the placement less its gutter (last column and row).
pub open spec fn in_glyph(p: Placement, width: int, i: int) -> bool {
    &&& p.y <= i / width < p.y + p.h - 1
    &&& p.x <= i % width < p.x + p.w - 1
}

/// The position in the glyph's row-major field of buffer index `i`.
pub open spec fn field_index(p: Placement, width: int, i: int) -> int {
    (i / width - p.y) * (p.w - 1) + (i % width - p.x)
}

/// Buffer index `i` lies in the glyph's field strictly before field row
/// `dy`, column `dx`, in row-major order.
pub open spec fn written_before(p: Placement, width: int, i: int, dy: int, dx: int) -> bool {
    &&& in_glyph(p, width, i)
    &&& (i / width - p.y < dy || (i / width - p.y == dy && i % width - p.x < dx))
}

/// `data` with the field values before field row `dy`, column `dx` written
/// over it; a field value of `None` leaves its pixel as it was.
pub open spec fn written_upto(
    data: Seq<u8>,
    width: int,
    p: Placement,
    field: Seq<Option<u8>>,
    dy: int,
    dx: int,
) -> Seq<u8> {
    Seq::new(
        data.len(),
        |i: int|
            if written_before(p, width, i, dy, dx) && field[field_index(p, width, i)] is Some {
                field[field_index(p, width, i)]->Some_0
            } else {
                data[i]
            },
    )
}

/// `data` with the whole field of the glyph placed at `p` written over it.
pub open spec fn with_glyph(data: Seq<u8>, width: int, p: Placement, field: Seq<Option<u8>>) -> Seq<
    u8,
> {
    Seq::new(
        data.len(),
        |i: int|
            if in_glyph(p, width, i) && field[field_index(p, width, i)] is Some {
                field[field_index(p, width, i)]->Some_0
            } else {
                data[i]
            },
    )
}

/// The placement's field fits a buffer of `len` pixels, `width` wide.
pub open spec fn field_fits(p: Placement, width: int, len: int) -> bool {
    &&& 1 <= p.w
    &&& 1 <= p.h
    &&& p.x + p.w - 1 <= width
    &&& (p.y + p.h - 1) * width <= len
}

/// Writing field row `dy`, column `dx` moves the written part by that one
/// pixel, at buffer index `(p.y + dy) * width + p.x + dx`.
proof fn lemma_write_step(
    data: Seq<u8>,
    width: int,
    p: Placement,
    field: Seq<Option<u8>>,
    dy: int,
    dx: int,
)
    requires
        width > 0,
        field_fits(p, width, data.len() as int),
        field.len() == (p.w - 1) * (p.h - 1),
        0 <= dy < p.h - 1,
        0 <= dx < p.w - 1,
    ensures
        ({
            let k = (p.y + dy) * width + p.x + dx;
            &&& 0 <= k < data.len()
            &&& field_index(p, width, k) == dy * (p.w - 1) + dx
            &&& written_upto(data, width, p, field, dy, dx + 1) == if field[dy * (p.w - 1)
                + dx] is Some {
                written_upto(data, width, p, field, dy, dx).update(k, field[dy * (p.w - 1) + dx]->Some_0)
            } else {
                written_upto(data, width, p, field, dy, dx)
            }
        }),
{
    let k = (p.y + dy) * width + p.x + dx;
    lemma_fundamental_div_mod_converse(k, width, p.y + dy, p.x + dx);
    assert((p.y + dy) * width <= (p.y + p.h - 2) * width) by (nonlinear_arith)
        requires
            dy <= p.h - 2,
            width > 0,
    ;
    assert((p.y + p.h - 2) * width + width == (p.y + p.h - 1) * width) by (nonlinear_arith);
    let before = written_upto(data, width, p, field, dy, dx);
    let after = written_upto(data, width, p, field, dy, dx + 1);
    assert forall|i: int| 0 <= i < data.len() && i != k implies written_before(
        p,
        width,
        i,
        dy,
        dx + 1,
    ) == written_before(p, width, i, dy, dx) by {
        lemma_fundamental_div_mod(i, width);
        if i / width - p.y == dy && i % width - p.x == dx {
            assert(i == width * (p.y + dy) + p.x + dx);
            assert(width * (p.y + dy) == (p.y + dy) * width) by (nonlinear_arith);
        }
    }
    if field[dy * (p.w - 1) + dx] is Some {
        assert(after =~= before.update(k, field[dy * (p.w - 1) + dx]->Some_0));
    } else {
        assert(after =~= before);
    }
}

/// Moving from the end of one field row to the start of the next writes
/// nothing.
proof fn lemma_next_row(data: Seq<u8>, width: int, p: Placement, field: Seq<Option<u8>>, dy: int)
    requires
        width > 0,
        p.w >= 1,
    ensures
        written_upto(data, width, p, field, dy, p.w - 1) == written_upto(
            data,
            width,
            p,
            field,
            dy + 1,
            0,
        ),
{
    assert(written_upto(data, width, p, field, dy, p.w - 1) =~= written_upto(
        data,
        width,
        p,
        field,
        dy + 1,
        0,
    ));
}

impl Buffer {
    /// An all-zero image of `width` by `height` pixels.
    pub fn new(width: u16, height: u16) -> (b: Buffer)
        requires
            width * height <= usize::MAX,
        ensures
            b.width == width,
            b.data@ == Seq::new((width * height) as nat, |i: int| 0u8),
    {
        let len = (width as usize) * (height as usize);
        let mut data: Vec<u8> = Vec::new();
        let mut i: usize = 0;
        while i < len
            invariant
                i <= len,
                data@ == Seq::new(i as nat, |j: int| 0u8),
            decreases len - i,
        {
            data.push(0);
            i = i + 1;
            assert(data@ =~= Seq::new(i as nat, |j: int| 0u8));
        }
        Buffer { data, width }
    }

    /// Sets the pixel at column `pos.0`, row `pos.1`.
    pub fn set_pixel(&mut self, pos: (usize, usize), value: u8)
        requires
            pos.1 * old(self).width + pos.0 < old(self).data.len(),
        ensures
            final(self).width == old(self).width,
            final(self).data@ == old(self).data@.update(pos.1 * old(self).width + pos.0, value),
    {
        let (x, y) = pos;
        let width = self.width as usize;
        self.data.set(y * width + x, value);
    }

    /// Writes the field of the glyph placed at `p`: `field` holds, row by
    /// row, one value for each pixel of the placement less its gutter (last
    /// column and row). A value of `None` leaves its pixel as it was.
    pub fn write_glyph(&mut self, p: &Placement, field: &Vec<Option<u8>>)
        requires
            old(self).width > 0,
            field_fits(*p, old(self).width as int, old(self).data.len() as int),
            field.len() == (p.w - 1) * (p.h - 1),
        ensures
            final(self).width == old(self).width,
            final(self).data@ == with_glyph(old(self).data@, old(self).width as int, *p, field@),
    {
        let ghost data0 = self.data@;
        let ghost width = self.width as int;
        let cols = p.w - 1;
        let rows = p.h - 1;
        let mut dy: usize = 0;
        while dy < rows
            invariant
                self.width == width,
                width > 0,
                field_fits(*p, width, data0.len() as int),
                data0.len() <= usize::MAX,
                field.len() == cols * rows,
                cols == p.w - 1,
                rows == p.h - 1,
                dy <= rows,
                self.data@ == written_upto(data0, width, *p, field@, dy as int, 0),
            decreases rows - dy,
        {
            let mut dx: usize = 0;
            while dx < cols
                invariant
                    self.width == width,
                    width > 0,
                    field_fits(*p, width, data0.len() as int),
                    data0.len() <= usize::MAX,
                    field.len() == cols * rows,
                    cols == p.w - 1,
                    rows == p.h - 1,
                    dy < rows,
                    dx <= cols,
                    self.data@ == written_upto(data0, width, *p, field@, dy as int, dx as int),
                decreases cols - dx,
            {
                proof {
                    lemma_write_step(data0, width, *p, field@, dy as int, dx as int);
                    assert(dy * cols + dx < cols * rows) by (nonlinear_arith)
                        requires
                            dy < rows,
                            dx < cols,
                    ;
                    assert(p.y + p.h - 1 <= (p.y + p.h - 1) * width) by (nonlinear_arith)
                        requires
                            width > 0,
                            p.y + p.h - 1 >= 0,
                    ;
                }
                let at = dy * cols + dx;
                match field[at] {
                    Some(v) => {
                        self.set_pixel((p.x + dx, p.y + dy), v);
                    },
                    None => {},
                }
                dx = dx + 1;
            }
            proof {
                lemma_next_row(data0, width, *p, field@, dy as int);
            }
            dy = dy + 1;
        }
        assert(self.data@ =~= with_glyph(data0, width, *p, field@));
    }
}

impl Placement {
    /// The packer turned the glyph by 90°: its placed width is not the
    /// glyph's width plus the gutter.
    pub fn is_rotated(&self, extent: GlyphExtent) -> (r: bool)
        ensures
            r == (self.w != extent.pixel_width + 1),
            sized_as(*self, gutter_size(extent), false) ==> !r,
            sized_as(*self, gutter_size(extent), true) ==> (r <==> (self.w == gutter_size(extent).1
                && self.h == gutter_size(extent).0 && gutter_size(extent).0 != gutter_size(extent).1)),
    {
        self.w != extent.pixel_width as usize + 1
    }
}

/// The views of the fields.
pub open spec fn field_views(fields: Seq<Vec<Option<u8>>>) -> Seq<Seq<Option<u8>>> {
    fields.map_values(|f: Vec<Option<u8>>| f@)
}

/// `base` with the fields of the first `n` glyphs written over it, in order.
pub open spec fn painted(
    base: Seq<u8>,
    width: int,
    ps: Seq<Placement>,
    fields: Seq<Seq<Option<u8>>>,
    n: nat,
) -> Seq<u8>
    decreases n,
{
    if n == 0 {
        base
    } else {
        with_glyph(
            painted(base, width, ps, fields, (n - 1) as nat),
            width,
            ps[n - 1],
            fields[n - 1],
        )
    }
}

/// The atlas image: an all-zero image of `width` by `height` with the field of
/// every placed glyph written over it, in order.
pub open spec fn atlas_image(
    width: u16,
    height: u16,
    ps: Seq<Placement>,
    fields: Seq<Seq<Option<u8>>>,
) -> Seq<u8> {
    painted(Seq::new((width * height) as nat, |i: int| 0u8), width as int, ps, fields, ps.len())
}

/// Each placement's field fits the image and comes with one value per pixel.
pub open spec fn fields_fit(
    width: u16,
    height: u16,
    ps: Seq<Placement>,
    fields: Seq<Seq<Option<u8>>>,
) -> bool {
    &&& ps.len() == fields.len()
    &&& forall|k: int|
        0 <= k < ps.len() ==> field_fits(#[trigger] ps[k], width as int, width * height)
            && fields[k].len() == (ps[k].w - 1) * (ps[k].h - 1)
}

/// Renders the atlas image: allocates `width` by `height` zero pixels and
/// writes the field of each placed glyph into it.
pub fn render_atlas(
    width: u16,
    height: u16,
    placements: &Vec<Placement>,
    fields: &Vec<Vec<Option<u8>>>,
) -> (b: Buffer)
    requires
        width > 0,
        width * height <= usize::MAX,
        fields_fit(width, height, placements@, field_views(fields@)),
    ensures
        b.width == width,
        b.data@ == atlas_image(width, height, placements@, field_views(fields@)),
{
    let mut b = Buffer::new(width, height);
    let ghost base = b.data@;
    let ghost fs = field_views(fields@);
    let mut k: usize = 0;
    while k < placements.len()
        invariant
            width > 0,
            b.width == width,
            base == Seq::new((width * height) as nat, |i: int| 0u8),
            fs == field_views(fields@),
            fields_fit(width, height, placements@, fs),
            k <= placements.len(),
            b.data@ == painted(base, width as int, placements@, fs, k as nat),
            b.data@.len() == width * height,
        decreases placements.len() - k,
    {
        assert(fs[k as int] == fields@[k as int]@);
        assert(field_fits(placements@[k as int], width as int, width * height));
        b.write_glyph(&placements[k], &fields[k]);
        k = k + 1;
    }
    b
}

/// With every glyph placed in the packing area of a texture, which leaves
/// out the first row and column, and with the gutter at the right and bottom
/// of each placement, no field reaches the first or last row or column of
/// the image: those pixels stay 0.
pub proof fn lemma_border_clear(
    width: u16,
    height: u16,
    ps: Seq<Placement>,
    fields: Seq<Seq<Option<u8>>>,
    row: int,
    col: int,
)
    requires
        width >= 2,
        height >= 2,
        forall|k: int| 0 <= k < ps.len() ==> placed_inside(#[trigger] ps[k], texture_area(width, height)),
        0 <= row < height,
        0 <= col < width,
        row == 0 || row == height - 1 || col == 0 || col == width - 1,
    ensures
        atlas_image(width, height, ps, fields)[row * width + col] == 0,
{
    let i = row * width + col;
    lemma_fundamental_div_mod_converse(i, width as int, row, col);
    assert(row * width + col < width * height) by (nonlinear_arith)
        requires
            0 <= row < height,
            0 <= col < width,
    ;
    assert forall|k: int| 0 <= k < ps.len() implies !in_glyph(#[trigger] ps[k], width as int, i) by {
        assert(placed_inside(ps[k], texture_area(width, height)));
    }
    lemma_background_clear(width, height, ps, fields, i);
}

/// Painting keeps the length of the image.
proof fn lemma_painted_len(
    base: Seq<u8>,
    width: int,
    ps: Seq<Placement>,
    fields: Seq<Seq<Option<u8>>>,
    n: nat,
)
    ensures
        painted(base, width, ps, fields, n).len() == base.len(),
    decreases n,
{
    if n > 0 {
        lemma_painted_len(base, width, ps, fields, (n - 1) as nat);
    }
}

/// A pixel outside the fields of the first `n` glyphs keeps its value.
proof fn lemma_unpainted(
    base: Seq<u8>,
    width: int,
    ps: Seq<Placement>,
    fields: Seq<Seq<Option<u8>>>,
    n: nat,
    i: int,
)
    requires
        n <= ps.len(),
        0 <= i < base.len(),
        forall|k: int| 0 <= k < n ==> !in_glyph(#[trigger] ps[k], width, i),
    ensures
        painted(base, width, ps, fields, n)[i] == base[i],
    decreases n,
{
    lemma_painted_len(base, width, ps, fields, n);
    if n > 0 {
        lemma_unpainted(base, width, ps, fields, (n - 1) as nat, i);
        lemma_painted_len(base, width, ps, fields, (n - 1) as nat);
        assert(!in_glyph(ps[n - 1], width, i));
    }
}

/// Two placements whose fields share a pixel overlap.
proof fn lemma_shared_pixel(a: Placement, b: Placement, width: int, i: int)
    requires
        width > 0,
        in_glyph(a, width, i),
        in_glyph(b, width, i),
    ensures
        overlapping(a, b),
{
}

/// Every pixel of the atlas outside all the glyphs' fields is 0.
pub proof fn lemma_background_clear(
    width: u16,
    height: u16,
    ps: Seq<Placement>,
    fields: Seq<Seq<Option<u8>>>,
    i: int,
)
    requires
        0 <= i < width * height,
        forall|k: int| 0 <= k < ps.len() ==> !in_glyph(#[trigger] ps[k], width as int, i),
    ensures
        atlas_image(width, height, ps, fields)[i] == 0,
{
    lemma_unpainted(
        Seq::new((width * height) as nat, |j: int| 0u8),
        width as int,
        ps,
        fields,
        ps.len(),
        i,
    );
}

/// Where no two placements overlap, the atlas shows each glyph's field as
/// it was given: a pixel in the field of glyph `k` holds that field's value
/// for it, where it has one.
pub proof fn lemma_field_intact(
    width: u16,
    height: u16,
    ps: Seq<Placement>,
    fields: Seq<Seq<Option<u8>>>,
    k: int,
    i: int,
)
    requires
        width > 0,
        ps.len() == fields.len(),
        forall|a: int, b: int|
            0 <= a < ps.len() && 0 <= b < ps.len() && a != b ==> !overlapping(
                #[trigger] ps[a],
                #[trigger] ps[b],
            ),
        0 <= k < ps.len(),
        0 <= i < width * height,
        in_glyph(ps[k], width as int, i),
        fields[k][field_index(ps[k], width as int, i)] is Some,
    ensures
        atlas_image(width, height, ps, fields)[i] == fields[k][field_index(
            ps[k],
            width as int,
            i,
        )]->Some_0,
{
    lemma_painted_after(width, height, ps, fields, k, i, ps.len());
}

/// After the first `n` glyphs, a pixel of glyph `k < n` holds its field's
/// value, no later field sharing that pixel.
proof fn lemma_painted_after(
    width: u16,
    height: u16,
    ps: Seq<Placement>,
    fields: Seq<Seq<Option<u8>>>,
    k: int,
    i: int,
    n: nat,
)
    requires
        width > 0,
        ps.len() == fields.len(),
        forall|a: int, b: int|
            0 <= a < ps.len() && 0 <= b < ps.len() && a != b ==> !overlapping(
                #[trigger] ps[a],
                #[trigger] ps[b],
            ),
        0 <= k < n <= ps.len(),
        0 <= i < width * height,
        in_glyph(ps[k], width as int, i),
        fields[k][field_index(ps[k], width as int, i)] is Some,
    ensures
        painted(Seq::new((width * height) as nat, |j: int| 0u8), width as int, ps, fields, n)[i]
            == fields[k][field_index(ps[k], width as int, i)]->Some_0,
    decreases n,
{
    let base = Seq::new((width * height) as nat, |j: int| 0u8);
    lemma_painted_len(base, width as int, ps, fields, (n - 1) as nat);
    if n - 1 > k {
        lemma_painted_after(width, height, ps, fields, k, i, (n - 1) as nat);
        if in_glyph(ps[n - 1], width as int, i) {
            lemma_shared_pixel(ps[k], ps[n - 1], width as int, i);
            assert(!overlapping(ps[k], ps[n - 1]));
        }
    }
}

} // verus!
