use std::collections::HashMap;
use vstd::prelude::*;

verus! {

broadcast use vstd::std_specs::hash::group_hash_axioms;

/// Names a texture that meshes can sample.
///
/// `Managed` identifiers are issued by the GUI layer, which creates, patches
/// and frees their textures through texture deltas. `User` identifiers are
/// issued by the pool for views that the host application registers; their
/// lifetime is the application's business.
#[derive(Clone, Copy, Debug, PartialEq, Eq, Structural, Hash)]
pub enum TextureId {
    Managed(u64),
    User(u64),
}

/// An RGBA image, row by row, four bytes per pixel.
pub struct Image {
    pub width: usize,
    pub height: usize,
    pub pixels: Vec<[u8; 4]>,
}

impl Image {
    /// The pixel buffer holds exactly one pixel per position.
    pub open spec fn wf(&self) -> bool {
        self.pixels@.len() == self.width * self.height
    }
}

/// One texture change requested by the GUI layer: either a whole image
/// (`pos` is `None`) or a patch whose top-left corner goes to `pos`.
pub struct ImageDelta {
    pub image: Image,
    pub pos: Option<(usize, usize)>,
}

/// Why a texture change was skipped.
#[derive(Clone, Copy, Debug, PartialEq, Eq, Structural)]
pub enum UpdateWarning {
    /// The image has a zero dimension where a whole texture is set, or its
    /// pixel count differs from its width times its height.
    InvalidImage,
    /// A patch targets an identifier that the pool does not hold.
    UnknownTexture,
    /// A patch targets a view registered by the application.
    UserTexture,
    /// A patch reaches past the right or bottom edge of its texture.
    OutOfBounds,
}

/// What to do with one entry of a texture delta.
#[derive(Clone, Copy, Debug, PartialEq, Eq, Structural)]
pub enum SetPlan {
    /// Create a texture from the whole image and put it under the identifier,
    /// replacing any entry there.
    Create,
    /// Write the patch into the existing managed texture.
    Patch,
    /// Skip the entry and report why.
    Ignore(UpdateWarning),
}

/// The decision for one entry `(tid, delta)` of a texture delta, taken against
/// the pool's current entries.
pub open spec fn set_plan<T, V>(
    entries: Map<TextureId, Texture<T, V>>,
    tid: TextureId,
    delta: ImageDelta,
) -> SetPlan {
    if !delta.image.wf() {
        SetPlan::Ignore(UpdateWarning::InvalidImage)
    } else {
        match delta.pos {
            None => if delta.image.width > 0 && delta.image.height > 0 {
                SetPlan::Create
            } else {
                SetPlan::Ignore(UpdateWarning::InvalidImage)
            },
            Some((nx, ny)) => if !entries.contains_key(tid) {
                SetPlan::Ignore(UpdateWarning::UnknownTexture)
            } else {
                match entries[tid] {
                    Texture::User { .. } => SetPlan::Ignore(UpdateWarning::UserTexture),
                    Texture::Managed(m) => if nx + delta.image.width <= m.width && ny
                        + delta.image.height <= m.height {
                        SetPlan::Patch
                    } else {
                        SetPlan::Ignore(UpdateWarning::OutOfBounds)
                    },
                }
            },
        }
    }
}

/// `after` is `before` with the application's view `srv` registered under
/// `id`, the next number of the `User` namespace, which is then used up.
pub open spec fn registered<T, V>(
    before: TexturePool<T, V>,
    after: TexturePool<T, V>,
    id: TextureId,
    srv: V,
) -> bool {
    &&& id == TextureId::User(before.next_user_id())
    &&& after.next_user_id() == before.next_user_id() + 1
    &&& after@ == before@.insert(id, Texture::<T, V>::User { srv })
}

/// `r` tells whether `tid` named an application view in `before`, and
/// `after` is `before` without it in that case, unchanged otherwise.
pub open spec fn unregistered<T, V>(
    before: Map<TextureId, Texture<T, V>>,
    after: Map<TextureId, Texture<T, V>>,
    tid: TextureId,
    r: bool,
) -> bool {
    &&& r == (before.contains_key(tid) && before[tid] is User)
    &&& after == (if r {
        before.remove(tid)
    } else {
        before
    })
}

/// `after` is `before` with a texture made from the whole image `image` under
/// `tid`: GPU texture `tex`, view `srv`, and `image` as its shadow copy.
pub open spec fn inserted_managed<T, V>(
    before: Map<TextureId, Texture<T, V>>,
    after: Map<TextureId, Texture<T, V>>,
    tid: TextureId,
    tex: T,
    srv: V,
    image: Image,
) -> bool {
    &&& after.contains_key(tid)
    &&& after.remove(tid) == before.remove(tid)
    &&& after[tid] matches Texture::Managed(m)
    &&& m.tex == tex
    &&& m.srv == srv
    &&& m.pixels@ == image.pixels@
    &&& m.width == image.width
    &&& m.height == image.height
}

/// `after` is `before` with the patch `delta` written into the managed
/// texture under `tid`; the GPU texture, the view and the size stay.
pub open spec fn patched_entry<T, V>(
    before: Map<TextureId, Texture<T, V>>,
    after: Map<TextureId, Texture<T, V>>,
    tid: TextureId,
    delta: ImageDelta,
) -> bool {
    &&& before.contains_key(tid)
    &&& after.contains_key(tid)
    &&& after.remove(tid) == before.remove(tid)
    &&& before[tid] matches Texture::Managed(o)
    &&& after[tid] matches Texture::Managed(m)
    &&& delta.pos matches Some((nx, ny))
    &&& m.tex == o.tex
    &&& m.srv == o.srv
    &&& m.width == o.width
    &&& m.height == o.height
    &&& m.pixels@ == patched(
        o.pixels@,
        o.width as int,
        nx as int,
        ny as int,
        delta.image.pixels@,
        delta.image.width as int,
        delta.image.height as int,
    )
}

/// `r` tells whether `set_plan` calls for a patch of `tid` by `delta`; `after`
/// is `before` patched in that case, and `before` itself otherwise.
pub open spec fn patch_applied<T, V>(
    before: Map<TextureId, Texture<T, V>>,
    after: Map<TextureId, Texture<T, V>>,
    tid: TextureId,
    delta: ImageDelta,
    r: bool,
) -> bool {
    &&& r == (set_plan(before, tid, delta) == SetPlan::Patch)
    &&& r ==> patched_entry(before, after, tid, delta)
    &&& !r ==> after == before
}

/// Whether position `i` of a `width`-wide image lies in the rectangle of
/// `pw` by `ph` pixels whose top-left corner is `(nx, ny)`.
pub open spec fn in_rect(i: int, width: int, nx: int, ny: int, pw: int, ph: int) -> bool {
    &&& nx <= i % width < nx + pw
    &&& ny <= i / width < ny + ph
}

/// `pixels`, an image `width` pixels wide, with the `pw` by `ph` image `patch`
/// written over it at `(nx, ny)`.
pub open spec fn patched(
    pixels: Seq<[u8; 4]>,
    width: int,
    nx: int,
    ny: int,
    patch: Seq<[u8; 4]>,
    pw: int,
    ph: int,
) -> Seq<[u8; 4]> {
    Seq::new(
        pixels.len(),
        |i: int|
            if in_rect(i, width, nx, ny, pw, ph) {
                patch[(i / width - ny) * pw + (i % width - nx)]
            } else {
                pixels[i]
            },
    )
}

/// `patched`, with only the rows before `row` of the patch written, and in row
/// `row` only the pixels before `col`.
spec fn patched_upto(
    pixels: Seq<[u8; 4]>,
    width: int,
    nx: int,
    ny: int,
    patch: Seq<[u8; 4]>,
    pw: int,
    ph: int,
    row: int,
    col: int,
) -> Seq<[u8; 4]> {
    Seq::new(
        pixels.len(),
        |i: int|
            if in_rect(i, width, nx, ny, pw, ph) && (i / width - ny < row || (i / width - ny
                == row && i % width - nx < col)) {
                patch[(i / width - ny) * pw + (i % width - nx)]
            } else {
                pixels[i]
            },
    )
}

/// Writes the `patch` image into `pixels`, a `width` by `height` image, with
/// its top-left corner at `(nx, ny)`.
fn write_patch(
    pixels: &mut Vec<[u8; 4]>,
    width: usize,
    height: usize,
    nx: usize,
    ny: usize,
    patch: &Image,
)
    requires
        old(pixels)@.len() == width * height,
        patch.wf(),
        nx + patch.width <= width,
        ny + patch.height <= height,
    ensures
        final(pixels)@ == patched(
            old(pixels)@,
            width as int,
            nx as int,
            ny as int,
            patch.pixels@,
            patch.width as int,
            patch.height as int,
        ),
{
    let ghost orig = pixels@;
    let ghost (w, gx, gy, pw, ph) = (
        width as int,
        nx as int,
        ny as int,
        patch.width as int,
        patch.height as int,
    );
    if patch.width == 0 || patch.height == 0 {
        assert(pixels@ =~= patched(orig, w, gx, gy, patch.pixels@, pw, ph));
        return;
    }
    let n: usize = pixels.len();
    let pn: usize = patch.pixels.len();
    let mut y: usize = 0;
    assert(pixels@ =~= patched_upto(orig, w, gx, gy, patch.pixels@, pw, ph, 0, 0));
    while y < patch.height
        invariant
            0 <= y <= patch.height,
            width > 0,
            orig.len() == width * height,
            n == width * height,
            pn == patch.width * patch.height,
            patch.wf(),
            nx + patch.width <= width,
            ny + patch.height <= height,
            (w, gx, gy, pw, ph) == (
                width as int,
                nx as int,
                ny as int,
                patch.width as int,
                patch.height as int,
            ),
            pixels@ == patched_upto(orig, w, gx, gy, patch.pixels@, pw, ph, y as int, 0),
        decreases patch.height - y,
    {
        let mut x: usize = 0;
        while x < patch.width
            invariant
                0 <= y < patch.height,
                0 <= x <= patch.width,
                width > 0,
                orig.len() == width * height,
                n == width * height,
                pn == patch.width * patch.height,
                patch.wf(),
                nx + patch.width <= width,
                ny + patch.height <= height,
                (w, gx, gy, pw, ph) == (
                    width as int,
                    nx as int,
                    ny as int,
                    patch.width as int,
                    patch.height as int,
                ),
                pixels@ == patched_upto(orig, w, gx, gy, patch.pixels@, pw, ph, y as int, x as int),
            decreases patch.width - x,
        {
            proof {
                assert((ny + y) * width + nx + x < width * height) by (nonlinear_arith)
                    requires
                        ny + y < height,
                        nx + x < width,
                ;
                assert(y * patch.width + x < patch.width * patch.height) by (nonlinear_arith)
                    requires
                        y < patch.height,
                        x < patch.width,
                ;
            }
            let dst: usize = (ny + y) * width + nx + x;
            let src: usize = y * patch.width + x;
            let ghost before = pixels@;
            pixels[dst] = patch.pixels[src];
            proof {
                let next = patched_upto(orig, w, gx, gy, patch.pixels@, pw, ph, y as int, x + 1);
                vstd::arithmetic::div_mod::lemma_fundamental_div_mod_converse(
                    dst as int,
                    w,
                    (ny + y) as int,
                    (nx + x) as int,
                );
                assert forall|i: int| 0 <= i < orig.len() implies #[trigger] pixels@[i] == next[i] by {
                    vstd::arithmetic::div_mod::lemma_fundamental_div_mod(i, w);
                    if i != dst {
                        assert(!(i / w == gy + y && i % w == gx + x)) by (nonlinear_arith)
                            requires
                                i == w * (i / w) + i % w,
                                dst == (gy + y) * w + gx + x,
                                i != dst,
                        ;
                    }
                }
                assert(pixels@ =~= next);
            }
            x = x + 1;
        }
        assert(pixels@ =~= patched_upto(orig, w, gx, gy, patch.pixels@, pw, ph, y + 1, 0));
        y = y + 1;
    }
    assert(pixels@ =~= patched(orig, w, gx, gy, patch.pixels@, pw, ph));
}

/// A texture that the pool created from GUI data and owns.
///
/// `pixels` is a CPU copy of the texture's contents, kept so that a partial
/// update can rewrite the whole texture after mapping it with discard.
pub struct ManagedTexture<T, V> {
    pub tex: T,
    pub srv: V,
    pub pixels: Vec<[u8; 4]>,
    pub width: usize,
    pub height: usize,
}

impl<T, V> ManagedTexture<T, V> {
    /// Positive dimensions and a shadow buffer of exactly `width * height` pixels.
    pub open spec fn wf(&self) -> bool {
        &&& self.width > 0
        &&& self.height > 0
        &&& self.pixels@.len() == self.width * self.height
    }
}

/// An entry of the pool.
pub enum Texture<T, V> {
    /// Created from an image sent by the GUI layer.
    Managed(ManagedTexture<T, V>),
    /// A shader-resource view registered by the host application.
    User { srv: V },
}

impl<T, V> Texture<T, V> {
    pub open spec fn wf(&self) -> bool {
        match self {
            Texture::Managed(m) => m.wf(),
            Texture::User { .. } => true,
        }
    }

    /// The view that a draw binds for this entry, whatever its kind.
    pub open spec fn view_spec(&self) -> V {
        match self {
            Texture::Managed(m) => m.srv,
            Texture::User { srv } => *srv,
        }
    }

    pub fn is_managed(&self) -> (r: bool)
        ensures
            r == self is Managed,
    {
        match self {
            Texture::Managed(_) => true,
            Texture::User { .. } => false,
        }
    }

    pub fn is_user(&self) -> (r: bool)
        ensures
            r == self is User,
    {
        match self {
            Texture::Managed(_) => false,
            Texture::User { .. } => true,
        }
    }

    pub fn srv(&self) -> (r: &V)
        ensures
            *r == self.view_spec(),
    {
        match self {
            Texture::Managed(m) => &m.srv,
            Texture::User { srv } => srv,
        }
    }
}

/// The textures that a renderer can sample, keyed by identifier.
///
/// Entries under `Managed` identifiers and entries under `User` identifiers
/// are stored in separate tables, so the two namespaces never collide.
pub struct TexturePool<T, V> {
    managed: HashMap<u64, Texture<T, V>>,
    user: HashMap<u64, Texture<T, V>>,
    next_user_texture_id: u64,
}

impl<T, V> View for TexturePool<T, V> {
    type V = Map<TextureId, Texture<T, V>>;

    closed spec fn view(&self) -> Map<TextureId, Texture<T, V>> {
        Map::new(
            |id: TextureId|
                match id {
                    TextureId::Managed(k) => self.managed@.contains_key(k),
                    TextureId::User(k) => self.user@.contains_key(k),
                },
            |id: TextureId|
                match id {
                    TextureId::Managed(k) => self.managed@[k],
                    TextureId::User(k) => self.user@[k],
                },
        )
    }
}

impl<T, V> TexturePool<T, V> {
    /// Every entry is well formed.
    pub open spec fn wf(&self) -> bool {
        forall|id: TextureId| #[trigger] self@.contains_key(id) ==> self@[id].wf()
    }

    /// The number that the next registered view will carry.
    pub closed spec fn next_user_id(&self) -> u64 {
        self.next_user_texture_id
    }

    /// Creates an empty pool.
    pub fn new() -> (r: Self)
        ensures
            r@ == Map::<TextureId, Texture<T, V>>::empty(),
            r.next_user_id() == 0,
            r.wf(),
    {
        let r = TexturePool { managed: HashMap::new(), user: HashMap::new(), next_user_texture_id: 0 };
        assert(r@ =~= Map::<TextureId, Texture<T, V>>::empty());
        r
    }

    fn lookup(&self, tid: TextureId) -> (r: Option<&Texture<T, V>>)
        ensures
            match r {
                Some(t) => self@.contains_key(tid) && *t == self@[tid],
                None => !self@.contains_key(tid),
            },
    {
        match tid {
            TextureId::Managed(k) => self.managed.get(&k),
            TextureId::User(k) => self.user.get(&k),
        }
    }

    fn insert_entry(&mut self, tid: TextureId, t: Texture<T, V>)
        ensures
            final(self)@ == old(self)@.insert(tid, t),
            final(self).next_user_id() == old(self).next_user_id(),
    {
        match tid {
            TextureId::Managed(k) => {
                self.managed.insert(k, t);
            },
            TextureId::User(k) => {
                self.user.insert(k, t);
            },
        }
        assert(self@ =~= old(self)@.insert(tid, t));
    }

    fn take_entry(&mut self, tid: TextureId) -> (r: Option<Texture<T, V>>)
        ensures
            final(self)@ == old(self)@.remove(tid),
            final(self).next_user_id() == old(self).next_user_id(),
            match r {
                Some(t) => old(self)@.contains_key(tid) && t == old(self)@[tid],
                None => !old(self)@.contains_key(tid),
            },
    {
        let r = match tid {
            TextureId::Managed(k) => self.managed.remove(&k),
            TextureId::User(k) => self.user.remove(&k),
        };
        assert(self@ =~= old(self)@.remove(tid));
        r
    }

    /// The view to bind for `tid`, whether the GUI layer or the application
    /// supplied it, or `None` when the pool holds no such texture.
    pub fn get_srv(&self, tid: TextureId) -> (r: Option<&V>)
        ensures
            match r {
                Some(v) => self@.contains_key(tid) && *v == self@[tid].view_spec(),
                None => !self@.contains_key(tid),
            },
    {
        match self.lookup(tid) {
            Some(t) => Some(t.srv()),
            None => None,
        }
    }

    /// Decides what to do with the delta entry `(tid, delta)`: create a
    /// texture from a whole image with positive dimensions, patch an existing
    /// managed texture, or skip the entry with a warning.
    pub fn plan_set(&self, tid: TextureId, delta: &ImageDelta) -> (r: SetPlan)
        ensures
            r == set_plan(self@, tid, *delta),
    {
        let img = &delta.image;
        let len = img.pixels.len();
        let count_ok = match img.width.checked_mul(img.height) {
            Some(n) => n == len,
            None => false,
        };
        if !count_ok {
            return SetPlan::Ignore(UpdateWarning::InvalidImage);
        }
        match delta.pos {
            None => if img.width > 0 && img.height > 0 {
                SetPlan::Create
            } else {
                SetPlan::Ignore(UpdateWarning::InvalidImage)
            },
            Some((nx, ny)) => match self.lookup(tid) {
                None => SetPlan::Ignore(UpdateWarning::UnknownTexture),
                Some(Texture::User { .. }) => SetPlan::Ignore(UpdateWarning::UserTexture),
                Some(Texture::Managed(m)) => if nx <= m.width && img.width <= m.width - nx && ny
                    <= m.height && img.height <= m.height - ny {
                    SetPlan::Patch
                } else {
                    SetPlan::Ignore(UpdateWarning::OutOfBounds)
                },
            },
        }
    }

    /// Puts a texture created from the whole image `image` under `tid`,
    /// replacing any entry there. `tex` and `srv` are the GPU texture made from
    /// `image` and a view over it; the pixels become the entry's shadow copy.
    pub fn insert_managed(&mut self, tid: TextureId, tex: T, srv: V, image: Image)
        requires
            image.wf(),
            image.width > 0,
            image.height > 0,
        ensures
            inserted_managed(old(self)@, final(self)@, tid, tex, srv, image),
            final(self).next_user_id() == old(self).next_user_id(),
            old(self).wf() ==> final(self).wf(),
    {
        let m = ManagedTexture { tex, srv, pixels: image.pixels, width: image.width, height: image.height };
        self.insert_entry(tid, Texture::Managed(m));
        assert(self@[tid].wf());
        assert(self@.remove(tid) =~= old(self)@.remove(tid));
    }

    /// The managed texture under `tid`, if there is one.
    pub fn managed(&self, tid: TextureId) -> (r: Option<&ManagedTexture<T, V>>)
        ensures
            match r {
                Some(m) => self@.contains_key(tid) && self@[tid] == Texture::Managed(*m),
                None => !(self@.contains_key(tid) && self@[tid] is Managed),
            },
    {
        match self.lookup(tid) {
            Some(Texture::Managed(m)) => Some(m),
            _ => None,
        }
    }

    /// Writes the patch `delta` into the shadow copy of the managed texture
    /// under `tid`, when `plan_set` calls for that, and reports whether it did.
    /// Pixels outside the patch keep their values; anything else in the pool
    /// is left as it was.
    pub fn apply_patch(&mut self, tid: TextureId, delta: &ImageDelta) -> (r: bool)
        requires
            old(self).wf(),
        ensures
            patch_applied(old(self)@, final(self)@, tid, *delta, r),
            final(self).next_user_id() == old(self).next_user_id(),
            final(self).wf(),
    {
        if self.plan_set(tid, delta) != SetPlan::Patch {
            return false;
        }
        let (nx, ny) = match delta.pos {
            Some(p) => p,
            None => {
                return false;
            },
        };
        match self.take_entry(tid) {
            Some(Texture::Managed(mut m)) => {
                assert(old(self)@[tid].wf());
                write_patch(&mut m.pixels, m.width, m.height, nx, ny, &delta.image);
                self.insert_entry(tid, Texture::Managed(m));
                assert(self@[tid].wf());
                assert(self@.remove(tid) =~= old(self)@.remove(tid));
                assert forall|id: TextureId| #[trigger] self@.contains_key(id) implies self@[id].wf() by {
                    if id != tid {
                        assert(old(self)@.contains_key(id));
                    }
                }
                true
            },
            Some(t) => {
                self.insert_entry(tid, t);
                assert(self@ =~= old(self)@);
                false
            },
            None => false,
        }
    }

    /// Drops the managed textures named in `ids`. Entries that the application
    /// registered stay: only `unregister_user_texture` removes those.
    pub fn free_textures(&mut self, ids: &Vec<TextureId>)
        ensures
            forall|id: TextureId| #[trigger] final(self)@.contains_key(id) == (old(self)@.contains_key(id)
                && !(ids@.contains(id) && old(self)@[id] is Managed)),
            forall|id: TextureId| #[trigger] final(self)@.contains_key(id) ==> final(self)@[id] == old(self)@[id],
            final(self).next_user_id() == old(self).next_user_id(),
            old(self).wf() ==> final(self).wf(),
    {
        let mut i: usize = 0;
        while i < ids.len()
            invariant
                0 <= i <= ids@.len(),
                self.next_user_id() == old(self).next_user_id(),
                forall|id: TextureId| #[trigger] self@.contains_key(id) == (old(self)@.contains_key(id)
                    && !(ids@.subrange(0, i as int).contains(id) && old(self)@[id] is Managed)),
                forall|id: TextureId| #[trigger] self@.contains_key(id) ==> self@[id] == old(self)@[id],
            decreases ids.len() - i,
        {
            let tid = ids[i];
            let is_managed = match self.lookup(tid) {
                Some(t) => t.is_managed(),
                None => false,
            };
            if is_managed {
                self.take_entry(tid);
            }
            proof {
                assert forall|id: TextureId| #[trigger] ids@.subrange(0, i + 1).contains(id) == (
                ids@.subrange(0, i as int).contains(id) || id == tid) by {
                    if ids@.subrange(0, i + 1).contains(id) {
                        let j = choose|j: int| 0 <= j < i + 1 && #[trigger] ids@.subrange(0, i + 1)[j] == id;
                        if j < i {
                            assert(ids@.subrange(0, i as int)[j] == id);
                        }
                    }
                    if id == tid {
                        assert(ids@.subrange(0, i + 1)[i as int] == id);
                    }
                    if ids@.subrange(0, i as int).contains(id) {
                        let j = choose|j: int| 0 <= j < i && #[trigger] ids@.subrange(0, i as int)[j] == id;
                        assert(ids@.subrange(0, i + 1)[j] == id);
                    }
                }
            }
            i = i + 1;
        }
        assert(ids@.subrange(0, ids@.len() as int) =~= ids@);
    }

    /// Whether another view can still be registered.
    pub fn can_register(&self) -> (r: bool)
        ensures
            r == (self.next_user_id() < u64::MAX),
    {
        self.next_user_texture_id < u64::MAX
    }

    /// Registers a view owned by the application and returns the fresh
    /// `User` identifier under which meshes can sample it.
    pub fn register_user_texture(&mut self, srv: V) -> (r: TextureId)
        requires
            old(self).next_user_id() < u64::MAX,
        ensures
            registered(*old(self), *final(self), r, srv),
            old(self).wf() ==> final(self).wf(),
    {
        let id = TextureId::User(self.next_user_texture_id);
        self.next_user_texture_id = self.next_user_texture_id + 1;
        self.insert_entry(id, Texture::User { srv });
        assert forall|k: TextureId| #[trigger] self@.contains_key(k) && old(self).wf() implies self@[k].wf() by {
            if k != id {
                assert(old(self)@.contains_key(k));
            }
        }
        id
    }

    /// Removes `tid` if, and only if, it names a registered application view.
    pub fn unregister_user_texture(&mut self, tid: TextureId) -> (r: bool)
        ensures
            unregistered(old(self)@, final(self)@, tid, r),
            final(self).next_user_id() == old(self).next_user_id(),
            old(self).wf() ==> final(self).wf(),
    {
        let is_user = match self.lookup(tid) {
            Some(t) => t.is_user(),
            None => false,
        };
        if is_user {
            self.take_entry(tid);
        }
        is_user
    }
}

/// A whole image with positive dimensions is planned as a creation; once it
/// is inserted, its identifier resolves to the new view and its shadow copy
/// holds width times height pixels.
pub proof fn lemma_created_texture_is_visible<T, V>(
    before: Map<TextureId, Texture<T, V>>,
    after: Map<TextureId, Texture<T, V>>,
    tid: TextureId,
    tex: T,
    srv: V,
    image: Image,
)
    requires
        image.wf(),
        image.width > 0,
        image.height > 0,
        inserted_managed(before, after, tid, tex, srv, image),
    ensures
        set_plan(before, tid, ImageDelta { image, pos: None }) == SetPlan::Create,
        after.contains_key(tid),
        after[tid].view_spec() == srv,
        after[tid] is Managed,
        after[tid]->0.pixels@.len() == image.width * image.height,
{
}

/// A patch changes exactly the pixels inside its rectangle: each of those
/// takes the patch's pixel at the same offset, and every other pixel of the
/// texture keeps its value.
pub proof fn lemma_patch_changes_only_its_rectangle<T, V>(
    before: Map<TextureId, Texture<T, V>>,
    after: Map<TextureId, Texture<T, V>>,
    tid: TextureId,
    delta: ImageDelta,
    x: int,
    y: int,
)
    requires
        before.contains_key(tid),
        before[tid].wf(),
        set_plan(before, tid, delta) == SetPlan::Patch,
        patched_entry(before, after, tid, delta),
        0 <= x < before[tid]->0.width,
        0 <= y < before[tid]->0.height,
    ensures
        ({
            let o = before[tid]->0;
            let m = after[tid]->0;
            let (nx, ny) = delta.pos->0;
            let (pw, ph) = (delta.image.width as int, delta.image.height as int);
            m.pixels@[y * o.width + x] == if nx <= x < nx + pw && ny <= y < ny + ph {
                delta.image.pixels@[(y - ny) * pw + (x - nx)]
            } else {
                o.pixels@[y * o.width + x]
            }
        }),
{
    let o = before[tid]->0;
    let w = o.width as int;
    let i = y * w + x;
    assert(i < w * o.height) by (nonlinear_arith)
        requires
            i == y * w + x,
            0 <= x < w,
            0 <= y < o.height,
    ;
    vstd::arithmetic::div_mod::lemma_fundamental_div_mod_converse(i, w, y, x);
}

/// A patch aimed at an identifier that the pool does not hold, or at a view
/// that the application registered, is skipped: applying it changes nothing.
pub proof fn lemma_patch_of_absent_or_user_texture_is_skipped<T, V>(
    before: Map<TextureId, Texture<T, V>>,
    after: Map<TextureId, Texture<T, V>>,
    tid: TextureId,
    delta: ImageDelta,
    r: bool,
)
    requires
        delta.pos is Some,
        !before.contains_key(tid) || before[tid] is User,
        patch_applied(before, after, tid, delta, r),
    ensures
        set_plan(before, tid, delta) is Ignore,
        !r,
        after == before,
{
}

/// A view is found under the identifier that registering it returned, and
/// two registrations in a row never return the same identifier.
pub proof fn lemma_registration_is_fresh<T, V>(
    p0: TexturePool<T, V>,
    p1: TexturePool<T, V>,
    p2: TexturePool<T, V>,
    id1: TextureId,
    id2: TextureId,
    v1: V,
    v2: V,
)
    requires
        registered(p0, p1, id1, v1),
        registered(p1, p2, id2, v2),
    ensures
        p1@.contains_key(id1),
        p1@[id1].view_spec() == v1,
        id1 != id2,
{
}

/// Unregistering a texture that the GUI layer manages fails and keeps it;
/// unregistering a view of the application succeeds and removes it.
pub proof fn lemma_unregister_removes_only_user_views<T, V>(
    before: Map<TextureId, Texture<T, V>>,
    after: Map<TextureId, Texture<T, V>>,
    tid: TextureId,
    r: bool,
)
    requires
        before.contains_key(tid),
        unregistered(before, after, tid, r),
    ensures
        before[tid] is Managed ==> !r && after == before,
        before[tid] is User ==> r && !after.contains_key(tid),
{
}

} // verus!
