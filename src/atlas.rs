use vstd::prelude::*;

verus! {

/// Width in texels of a layer's atlas image.
pub const ATLAS_WIDTH: u32 = 4096;

/// Height in texels of a layer's atlas image.
pub const ATLAS_HEIGHT: u32 = 4096;

/// Names a texture within one layer.
#[derive(Clone, Copy, Debug, PartialEq, Eq, Structural, Hash, PartialOrd, Ord)]
pub struct TextureID(pub u32);

/// A texture as the atlas sees it: its name and its size in texels.
#[derive(Clone, Copy, Debug, PartialEq, Eq, Structural)]
pub struct Texture2D {
    pub id: TextureID,
    pub width: u32,
    pub height: u32,
}

impl Texture2D {
    pub fn new(id: TextureID, width: u32, height: u32) -> (r: Texture2D)
        ensures
            r == (Texture2D { id, width, height }),
    {
        Texture2D { id, width, height }
    }
}

/// Where a texture sits in the atlas image, in texels.
#[derive(Clone, Copy, Debug, PartialEq, Eq, Structural)]
pub struct AtlasRegion {
    pub x: u32,
    pub y: u32,
    pub width: u32,
    pub height: u32,
}

/// The packing state after some textures were placed: the next free column
/// of the open shelf, the top of that shelf, and its height so far.
pub struct Cursor {
    pub x: int,
    pub y: int,
    pub h: int,
}

/// Whether `t` still goes on the open shelf.
pub open spec fn same_shelf(c: Cursor, t: Texture2D) -> bool {
    c.x + t.width <= ATLAS_WIDTH
}

/// Top-left corner given to `t`: the open shelf's next column, or the start
/// of a new shelf right below the open one.
pub open spec fn origin(c: Cursor, t: Texture2D) -> (int, int) {
    if same_shelf(c, t) {
        (c.x, c.y)
    } else {
        (0, c.y + c.h)
    }
}

pub open spec fn advance(c: Cursor, t: Texture2D) -> Cursor {
    if same_shelf(c, t) {
        Cursor { x: c.x + t.width, y: c.y, h: if c.h < t.height { t.height as int } else { c.h } }
    } else {
        Cursor { x: t.width as int, y: c.y + c.h, h: t.height as int }
    }
}

/// Whether `t`, placed from `c`, lies inside the atlas image.
pub open spec fn fits(c: Cursor, t: Texture2D) -> bool {
    &&& origin(c, t).0 + t.width <= ATLAS_WIDTH
    &&& origin(c, t).1 + t.height <= ATLAS_HEIGHT
}

/// The packing state after placing `ts` in order.
pub open spec fn cursor_after(ts: Seq<Texture2D>) -> Cursor
    decreases ts.len(),
{
    if ts.len() == 0 {
        Cursor { x: 0, y: 0, h: 0 }
    } else {
        advance(cursor_after(ts.drop_last()), ts.last())
    }
}

/// The region of the `i`-th texture of `ts`.
pub open spec fn region_at(ts: Seq<Texture2D>, i: int) -> AtlasRegion {
    AtlasRegion {
        x: origin(cursor_after(ts.take(i)), ts[i]).0 as u32,
        y: origin(cursor_after(ts.take(i)), ts[i]).1 as u32,
        width: ts[i].width,
        height: ts[i].height,
    }
}

pub open spec fn ids_unique(ts: Seq<Texture2D>) -> bool {
    forall|i: int, j: int| 0 <= i < j < ts.len() ==> ts[i].id != ts[j].id
}

/// Every texture of `ts` has a name of its own and lies inside the atlas.
pub open spec fn layout_valid(ts: Seq<Texture2D>) -> bool {
    &&& ids_unique(ts)
    &&& forall|i: int| 0 <= i < ts.len() ==> fits(#[trigger] cursor_after(ts.take(i)), ts[i])
}

pub open spec fn contains_id(ts: Seq<Texture2D>, id: TextureID) -> bool {
    exists|i: int| 0 <= i < ts.len() && ts[i].id == id
}

pub proof fn lemma_cursor_bounded(ts: Seq<Texture2D>)
    requires
        layout_valid(ts),
    ensures
        0 <= cursor_after(ts).x <= ATLAS_WIDTH,
        0 <= cursor_after(ts).y,
        0 <= cursor_after(ts).h,
        cursor_after(ts).y + cursor_after(ts).h <= ATLAS_HEIGHT,
    decreases ts.len(),
{
    if ts.len() > 0 {
        let p = ts.drop_last();
        assert(p == ts.take(ts.len() - 1));
        assert forall|i: int| 0 <= i < p.len() implies fits(#[trigger] cursor_after(p.take(i)), p[i]) by {
            assert(p.take(i) == ts.take(i));
            assert(fits(cursor_after(ts.take(i)), ts[i]));
        }
        lemma_cursor_bounded(p);
        assert(fits(cursor_after(ts.take(ts.len() - 1)), ts[ts.len() - 1]));
    }
}

pub proof fn lemma_cursor_nonneg(ts: Seq<Texture2D>)
    ensures
        cursor_after(ts).x >= 0,
        cursor_after(ts).y >= 0,
        cursor_after(ts).h >= 0,
    decreases ts.len(),
{
    if ts.len() > 0 {
        lemma_cursor_nonneg(ts.drop_last());
    }
}

/// Each texture placed before the cursor of the first `n` lies either on the
/// open shelf, left of its next column, or wholly above that shelf.
proof fn lemma_placed_behind_cursor(ts: Seq<Texture2D>, n: int, i: int)
    requires
        0 <= i < n <= ts.len(),
    ensures
        ({
            let c = cursor_after(ts.take(n));
            let o = origin(cursor_after(ts.take(i)), ts[i]);
            ||| (o.1 == c.y && o.0 + ts[i].width <= c.x && ts[i].height <= c.h)
            ||| o.1 + ts[i].height <= c.y
        }),
    decreases n,
{
    assert(ts.take(n).drop_last() == ts.take(n - 1));
    assert(ts.take(n).last() == ts[n - 1]);
    lemma_cursor_nonneg(ts.take(n - 1));
    if n > i + 1 {
        lemma_placed_behind_cursor(ts, n - 1, i);
    }
}

/// No two textures of a valid layout overlap in the atlas image: a later one
/// lies to the right of an earlier one, or below it.
pub proof fn lemma_regions_disjoint(ts: Seq<Texture2D>, i: int, j: int)
    requires
        layout_valid(ts),
        0 <= i < j < ts.len(),
    ensures
        region_at(ts, i).x + region_at(ts, i).width <= region_at(ts, j).x
            || region_at(ts, i).y + region_at(ts, i).height <= region_at(ts, j).y,
{
    lemma_placed_behind_cursor(ts, j, i);
    lemma_cursor_nonneg(ts.take(j));
    lemma_cursor_nonneg(ts.take(i));
    assert(fits(cursor_after(ts.take(i)), ts[i]));
    assert(fits(cursor_after(ts.take(j)), ts[j]));
}

/// The textures of a layer, packed into one atlas image shelf by shelf, in
/// the order they were added. A texture keeps its region once placed.
pub struct TextureAtlas2D {
    textures: Vec<Texture2D>,
    regions: Vec<AtlasRegion>,
    cursor_x: u32,
    shelf_y: u32,
    shelf_height: u32,
}

impl View for TextureAtlas2D {
    type V = Seq<Texture2D>;

    closed spec fn view(&self) -> Seq<Texture2D> {
        self.textures@
    }
}

impl TextureAtlas2D {
    pub closed spec fn wf(&self) -> bool {
        &&& layout_valid(self.textures@)
        &&& self.regions@.len() == self.textures@.len()
        &&& forall|i: int| 0 <= i < self.regions@.len()
            ==> #[trigger] self.regions@[i] == region_at(self.textures@, i)
        &&& self.cursor_x == cursor_after(self.textures@).x
        &&& self.shelf_y == cursor_after(self.textures@).y
        &&& self.shelf_height == cursor_after(self.textures@).h
    }

    pub proof fn lemma_layout_valid(&self)
        requires
            self.wf(),
        ensures
            layout_valid(self@),
    {
    }

    pub fn new() -> (r: TextureAtlas2D)
        ensures
            r.wf(),
            r@ == Seq::<Texture2D>::empty(),
    {
        TextureAtlas2D { textures: Vec::new(), regions: Vec::new(), cursor_x: 0, shelf_y: 0, shelf_height: 0 }
    }

    fn position_of(&self, id: TextureID) -> (r: Option<usize>)
        ensures
            match r {
                Some(i) => i < self@.len() && self@[i as int].id == id,
                None => !contains_id(self@, id),
            },
    {
        let mut i: usize = 0;
        while i < self.textures.len()
            invariant
                i <= self.textures@.len(),
                forall|k: int| 0 <= k < i ==> self.textures@[k].id != id,
            decreases self.textures@.len() - i,
        {
            if self.textures[i].id == id {
                return Some(i);
            }
            i += 1;
        }
        None
    }

    pub fn contains(&self, id: TextureID) -> (r: bool)
        ensures
            r == contains_id(self@, id),
    {
        self.position_of(id).is_some()
    }

    pub fn get(&self, id: TextureID) -> (r: Option<&Texture2D>)
        requires
            self.wf(),
        ensures
            match r {
                Some(t) => exists|i: int| 0 <= i < self@.len() && self@[i] == *t && t.id == id,
                None => !contains_id(self@, id),
            },
    {
        match self.position_of(id) {
            Some(i) => Some(&self.textures[i]),
            None => None,
        }
    }

    pub fn region(&self, id: TextureID) -> (r: Option<AtlasRegion>)
        requires
            self.wf(),
        ensures
            match r {
                Some(g) => exists|i: int| 0 <= i < self@.len() && self@[i].id == id && g == region_at(self@, i),
                None => !contains_id(self@, id),
            },
    {
        match self.position_of(id) {
            Some(i) => Some(self.regions[i]),
            None => None,
        }
    }

    pub fn ids(&self) -> (r: Vec<TextureID>)
        ensures
            r@.len() == self@.len(),
            forall|i: int| 0 <= i < r@.len() ==> r@[i] == #[trigger] self@[i].id,
    {
        let mut out: Vec<TextureID> = Vec::new();
        let mut i: usize = 0;
        while i < self.textures.len()
            invariant
                i <= self.textures@.len(),
                out@.len() == i,
                forall|k: int| 0 <= k < i ==> out@[k] == #[trigger] self.textures@[k].id,
            decreases self.textures@.len() - i,
        {
            out.push(self.textures[i].id);
            i += 1;
        }
        out
    }

    /// Places `t` after the textures already held. Returns false, and
    /// changes nothing, where `t` would not lie inside the atlas image.
    pub fn try_insert(&mut self, t: Texture2D) -> (r: bool)
        requires
            old(self).wf(),
            !contains_id(old(self)@, t.id),
        ensures
            final(self).wf(),
            r == fits(cursor_after(old(self)@), t),
            r ==> final(self)@ == old(self)@.push(t),
            !r ==> final(self)@ == old(self)@,
    {
        let ghost ts = self.textures@;
        proof {
            lemma_cursor_bounded(ts);
        }
        let same = self.cursor_x as u64 + t.width as u64 <= ATLAS_WIDTH as u64;
        let (x, y): (u64, u64) = if same {
            (self.cursor_x as u64, self.shelf_y as u64)
        } else {
            (0, self.shelf_y as u64 + self.shelf_height as u64)
        };
        if x + t.width as u64 > ATLAS_WIDTH as u64 || y + t.height as u64 > ATLAS_HEIGHT as u64 {
            return false;
        }
        let region = AtlasRegion { x: x as u32, y: y as u32, width: t.width, height: t.height };
        if same {
            self.cursor_x = (x + t.width as u64) as u32;
            if self.shelf_height < t.height {
                self.shelf_height = t.height;
            }
        } else {
            self.cursor_x = t.width;
            self.shelf_y = y as u32;
            self.shelf_height = t.height;
        }
        self.textures.push(t);
        self.regions.push(region);
        proof {
            let nts = self.textures@;
            assert(nts.drop_last() == ts);
            assert(nts.take(ts.len() as int) == ts);
            assert forall|i: int| 0 <= i < nts.len() implies fits(#[trigger] cursor_after(nts.take(i)), nts[i]) by {
                if i < ts.len() {
                    assert(nts.take(i) == ts.take(i));
                }
            }
            assert forall|i: int| 0 <= i < self.regions@.len()
                implies #[trigger] self.regions@[i] == region_at(nts, i) by {
                if i < ts.len() {
                    assert(nts.take(i) == ts.take(i));
                }
            }
        }
        true
    }
}

} // verus!
