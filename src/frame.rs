use crate::texture::{TextureId, TexturePool};
use vstd::prelude::*;

verus! {

/// A mesh of a tessellated frame, reduced to what the draw decisions read.
#[derive(Clone, Copy, Debug, PartialEq, Eq, Structural)]
pub struct MeshInfo {
    /// Number of entries in the mesh's index list.
    pub index_count: usize,
    /// The texture that the mesh samples.
    pub texture: TextureId,
}

/// One clipped primitive of a tessellated frame.
#[derive(Clone, Copy, Debug, PartialEq, Eq, Structural)]
pub enum Primitive {
    /// A triangle mesh.
    Mesh(MeshInfo),
    /// A paint callback, which this renderer does not run.
    Callback,
}

/// Why a primitive is drawn differently from what it asks for, or not at all.
#[derive(Clone, Copy, Debug, PartialEq, Eq, Structural)]
pub enum RenderWarning {
    /// A paint callback was skipped.
    PaintCallback,
    /// A mesh whose index count is not a multiple of three was skipped.
    IncompleteTriangles,
    /// A mesh samples a texture that the pool does not hold; it is drawn with
    /// whatever view is bound already.
    MissingTexture(TextureId),
}

/// One step of drawing a frame, in the order the steps must run.
#[derive(Clone, Copy, Debug, PartialEq, Eq, Structural)]
pub enum DrawStep {
    /// Report `warning` about the primitive at position `primitive`.
    Warn { primitive: usize, warning: RenderWarning },
    /// Upload the mesh at position `primitive`, bind the view of `texture` if
    /// the pool holds one, and draw `index_count` indices.
    Draw { primitive: usize, index_count: usize, texture: TextureId },
}

impl DrawStep {
    /// The position of the primitive that the step is about.
    pub open spec fn primitive_spec(&self) -> int {
        match self {
            DrawStep::Warn { primitive, .. } => *primitive as int,
            DrawStep::Draw { primitive, .. } => *primitive as int,
        }
    }
}

/// Why a frame could not be drawn at all.
#[derive(Clone, Copy, Debug, PartialEq, Eq, Structural)]
pub enum FrameError {
    /// The render target has no pixels in one of its dimensions, so mapping
    /// to device coordinates would divide by zero.
    EmptyTarget,
}

/// The steps that the primitive `p`, at position `i` of the frame, adds.
///
/// A callback yields a warning; a mesh without indices yields nothing; a mesh
/// whose index count is not a multiple of three yields a warning; any other
/// mesh yields a draw of all its indices, preceded by a warning when its
/// texture is missing from the pool.
pub open spec fn primitive_steps<T, V>(
    entries: Map<TextureId, crate::texture::Texture<T, V>>,
    p: Primitive,
    i: int,
) -> Seq<DrawStep> {
    match p {
        Primitive::Callback => seq![
            DrawStep::Warn { primitive: i as usize, warning: RenderWarning::PaintCallback },
        ],
        Primitive::Mesh(m) => if m.index_count == 0 {
            seq![]
        } else if m.index_count % 3 != 0 {
            seq![DrawStep::Warn { primitive: i as usize, warning: RenderWarning::IncompleteTriangles }]
        } else {
            let draw = DrawStep::Draw {
                primitive: i as usize,
                index_count: m.index_count,
                texture: m.texture,
            };
            if entries.contains_key(m.texture) {
                seq![draw]
            } else {
                seq![
                    DrawStep::Warn {
                        primitive: i as usize,
                        warning: RenderWarning::MissingTexture(m.texture),
                    },
                    draw,
                ]
            }
        },
    }
}

/// The steps of a whole frame: the steps of each primitive, in order.
pub open spec fn frame_steps<T, V>(
    entries: Map<TextureId, crate::texture::Texture<T, V>>,
    prims: Seq<Primitive>,
) -> Seq<DrawStep>
    decreases prims.len(),
{
    if prims.len() == 0 {
        seq![]
    } else {
        frame_steps(entries, prims.drop_last()) + primitive_steps(
            entries,
            prims.last(),
            prims.len() - 1,
        )
    }
}

/// Decides how the tessellated primitives `prims` are drawn onto a render
/// target of `target_width` by `target_height` pixels, sampling the textures
/// of `pool`.
pub fn plan_frame<T, V>(
    pool: &TexturePool<T, V>,
    target_width: u32,
    target_height: u32,
    prims: &Vec<Primitive>,
) -> (r: Result<Vec<DrawStep>, FrameError>)
    ensures
        (target_width == 0 || target_height == 0) ==> r == Err::<Vec<DrawStep>, FrameError>(
            FrameError::EmptyTarget,
        ),
        (target_width > 0 && target_height > 0) ==> (r matches Ok(steps) && steps@
            == frame_steps(pool@, prims@)),
{
    if target_width == 0 || target_height == 0 {
        return Err(FrameError::EmptyTarget);
    }
    let mut steps: Vec<DrawStep> = Vec::new();
    let mut i: usize = 0;
    while i < prims.len()
        invariant
            0 <= i <= prims@.len(),
            steps@ == frame_steps(pool@, prims@.subrange(0, i as int)),
        decreases prims.len() - i,
    {
        let ghost before = steps@;
        match prims[i] {
            Primitive::Callback => {
                steps.push(DrawStep::Warn { primitive: i, warning: RenderWarning::PaintCallback });
            },
            Primitive::Mesh(m) => {
                if m.index_count == 0 {
                } else if m.index_count % 3 != 0 {
                    steps.push(
                        DrawStep::Warn { primitive: i, warning: RenderWarning::IncompleteTriangles },
                    );
                } else {
                    if pool.get_srv(m.texture).is_none() {
                        steps.push(
                            DrawStep::Warn {
                                primitive: i,
                                warning: RenderWarning::MissingTexture(m.texture),
                            },
                        );
                    }
                    steps.push(
                        DrawStep::Draw { primitive: i, index_count: m.index_count, texture: m.texture },
                    );
                }
            },
        }
        proof {
            let next = prims@.subrange(0, i + 1);
            assert(next.drop_last() =~= prims@.subrange(0, i as int));
            assert(next.last() == prims@[i as int]);
            assert(steps@ =~= before + primitive_steps(pool@, prims@[i as int], i as int));
        }
        i = i + 1;
    }
    assert(prims@.subrange(0, prims@.len() as int) =~= prims@);
    Ok(steps)
}

/// The steps of `steps` about the primitive at position `i`, in order.
pub open spec fn steps_of(steps: Seq<DrawStep>, i: int) -> Seq<DrawStep> {
    steps.filter(|s: DrawStep| s.primitive_spec() == i)
}

proof fn lemma_steps_of_none(steps: Seq<DrawStep>, i: int)
    requires
        forall|k: int| 0 <= k < steps.len() ==> #[trigger] steps[k].primitive_spec() != i,
    ensures
        steps_of(steps, i) == Seq::<DrawStep>::empty(),
    decreases steps.len(),
{
    reveal(Seq::filter);
    if steps.len() > 0 {
        lemma_steps_of_none(steps.drop_last(), i);
    }
}

proof fn lemma_steps_of_all(steps: Seq<DrawStep>, i: int)
    requires
        forall|k: int| 0 <= k < steps.len() ==> #[trigger] steps[k].primitive_spec() == i,
    ensures
        steps_of(steps, i) == steps,
    decreases steps.len(),
{
    reveal(Seq::filter);
    if steps.len() > 0 {
        lemma_steps_of_all(steps.drop_last(), i);
        assert(steps.drop_last().push(steps.last()) =~= steps);
    }
}

proof fn lemma_frame_steps_positions<T, V>(
    entries: Map<TextureId, crate::texture::Texture<T, V>>,
    prims: Seq<Primitive>,
)
    requires
        prims.len() <= usize::MAX,
    ensures
        forall|k: int|
            0 <= k < frame_steps(entries, prims).len() ==> 0 <= #[trigger] frame_steps(
                entries,
                prims,
            )[k].primitive_spec() < prims.len(),
    decreases prims.len(),
{
    if prims.len() > 0 {
        let n = prims.len() - 1;
        let head = frame_steps(entries, prims.drop_last());
        let tail = primitive_steps(entries, prims.last(), n);
        lemma_frame_steps_positions(entries, prims.drop_last());
        assert forall|k: int| 0 <= k < tail.len() implies #[trigger] tail[k].primitive_spec() == n by {
        }
        assert forall|k: int| 0 <= k < frame_steps(entries, prims).len() implies 0
            <= #[trigger] frame_steps(entries, prims)[k].primitive_spec() < prims.len() by {
            if k >= head.len() {
                assert(frame_steps(entries, prims)[k] == tail[k - head.len()]);
            } else {
                assert(frame_steps(entries, prims)[k] == head[k]);
            }
        }
    }
}

/// The steps of a frame about one primitive are exactly the steps that this
/// primitive adds, whatever the other primitives of the frame are.
pub proof fn lemma_frame_steps_of_primitive<T, V>(
    entries: Map<TextureId, crate::texture::Texture<T, V>>,
    prims: Seq<Primitive>,
    i: int,
)
    requires
        0 <= i < prims.len(),
        prims.len() <= usize::MAX,
    ensures
        steps_of(frame_steps(entries, prims), i) == primitive_steps(entries, prims[i], i),
    decreases prims.len(),
{
    broadcast use Seq::filter_distributes_over_add;

    let n = prims.len() - 1;
    let init = prims.drop_last();
    let head = frame_steps(entries, init);
    let tail = primitive_steps(entries, prims.last(), n);
    assert(frame_steps(entries, prims) == head + tail);
    if i == n {
        lemma_frame_steps_positions(entries, init);
        lemma_steps_of_none(head, i);
        lemma_steps_of_all(tail, i);
        assert(head.filter(|s: DrawStep| s.primitive_spec() == i) + tail.filter(
            |s: DrawStep| s.primitive_spec() == i,
        ) =~= tail);
    } else {
        lemma_frame_steps_of_primitive(entries, init, i);
        lemma_steps_of_none(tail, i);
        assert(init[i] == prims[i]);
        assert(head.filter(|s: DrawStep| s.primitive_spec() == i) + tail.filter(
            |s: DrawStep| s.primitive_spec() == i,
        ) =~= primitive_steps(entries, prims[i], i));
    }
}

/// A mesh without indices adds no step to its frame; a mesh whose index count
/// is not a multiple of three adds one warning and no draw.
pub proof fn lemma_unusable_mesh_is_not_drawn<T, V>(
    entries: Map<TextureId, crate::texture::Texture<T, V>>,
    prims: Seq<Primitive>,
    i: int,
)
    requires
        0 <= i < prims.len(),
        prims.len() <= usize::MAX,
        prims[i] is Mesh,
    ensures
        prims[i]->0.index_count == 0 ==> steps_of(frame_steps(entries, prims), i)
            == Seq::<DrawStep>::empty(),
        prims[i]->0.index_count % 3 != 0 ==> steps_of(frame_steps(entries, prims), i) == seq![
            DrawStep::Warn { primitive: i as usize, warning: RenderWarning::IncompleteTriangles },
        ],
{
    lemma_frame_steps_of_primitive(entries, prims, i);
}

} // verus!
