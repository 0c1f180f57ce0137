//! Scene data: what to render, independent of any graphics resources.
//!
//! An instance carries its world transform as an opaque payload `T`; the
//! scene only stores it, in insertion order, and hands out handles.

use vstd::prelude::*;

verus! {

/// How an instance is rendered; the renderer keeps one pipeline per style.
#[derive(Clone, Copy, Debug, PartialEq, Eq, Structural, Hash, PartialOrd, Ord)]
pub enum RenderStyle {
    /// Filled triangles with back-face culling.
    Solid,
    /// Triangle edges only; culling is disabled so all edges are visible.
    Wireframe,
}

impl Default for RenderStyle {
    fn default() -> (r: Self)
        ensures
            r == RenderStyle::Solid,
    {
        RenderStyle::Solid
    }
}

/// The kind of geometry an instance refers to; the triangle and the cube are
/// generated, the other shapes must be registered before they are drawn.
#[derive(Clone, Copy, Debug, PartialEq, Eq, Structural, Hash, PartialOrd, Ord)]
pub enum MeshShape {
    Triangle,
    Cube,
    Icosphere,
    Tetrahedron,
}

/// Position of a shape in the shape order (declaration order).
pub open spec fn shape_rank(shape: MeshShape) -> int {
    match shape {
        MeshShape::Triangle => 0,
        MeshShape::Cube => 1,
        MeshShape::Icosphere => 2,
        MeshShape::Tetrahedron => 3,
    }
}

/// Position of a style in the style order (declaration order).
pub open spec fn style_rank(style: RenderStyle) -> int {
    match style {
        RenderStyle::Solid => 0,
        RenderStyle::Wireframe => 1,
    }
}

/// Handle to an instance, returned when it is added to a scene.
#[derive(Clone, Copy, Debug, PartialEq, Eq, Structural)]
pub struct InstanceId(usize);

impl InstanceId {
    /// The position of the instance in its scene.
    pub closed spec fn index(self) -> int {
        self.0 as int
    }
}

/// One renderable object in the scene.
#[derive(Clone, Debug)]
pub struct Instance<T> {
    pub shape: MeshShape,
    pub transform: T,
    pub style: RenderStyle,
}

/// The set of objects to render, in insertion order; pure data.
pub struct Scene<T> {
    instances: Vec<Instance<T>>,
}

impl<T> View for Scene<T> {
    type V = Seq<Instance<T>>;

    closed spec fn view(&self) -> Seq<Instance<T>> {
        self.instances@
    }
}

impl<T> Scene<T> {
    /// An empty scene.
    pub fn new() -> (s: Self)
        ensures
            s@ == Seq::<Instance<T>>::empty(),
    {
        Scene { instances: Vec::new() }
    }

    /// Builder-style append of a solid instance.
    pub fn with(self, shape: MeshShape, transform: T) -> (s: Self)
        ensures
            s@ == self@.push(Instance { shape, transform, style: RenderStyle::Solid }),
    {
        let mut scene = self;
        scene.add_shape(shape, transform);
        scene
    }

    /// Builder-style append with an explicit render style.
    pub fn with_styled(self, shape: MeshShape, transform: T, style: RenderStyle) -> (s: Self)
        ensures
            s@ == self@.push(Instance { shape, transform, style }),
    {
        let mut scene = self;
        scene.add_styled(shape, transform, style);
        scene
    }

    /// Add a solid instance; its handle is its position in the scene.
    pub fn add_shape(&mut self, shape: MeshShape, transform: T) -> (id: InstanceId)
        ensures
            final(self)@ == old(self)@.push(
                Instance { shape, transform, style: RenderStyle::Solid },
            ),
            id.index() == old(self)@.len(),
    {
        self.add_styled(shape, transform, RenderStyle::Solid)
    }

    /// Add an instance with an explicit render style; its handle is its
    /// position in the scene.
    pub fn add_styled(&mut self, shape: MeshShape, transform: T, style: RenderStyle) -> (id:
        InstanceId)
        ensures
            final(self)@ == old(self)@.push(Instance { shape, transform, style }),
            id.index() == old(self)@.len(),
    {
        let id = InstanceId(self.instances.len());
        self.instances.push(Instance { shape, transform, style });
        id
    }

    /// All instances, in insertion order.
    pub fn instances(&self) -> (r: &[Instance<T>])
        ensures
            r@ == self@,
    {
        self.instances.as_slice()
    }

    /// All instances, mutably, in insertion order.
    pub fn instances_mut(&mut self) -> (r: &mut [Instance<T>])
        ensures
            r@ == old(self)@,
            final(self)@ == final(r)@,
    {
        self.instances.as_mut_slice()
    }

    /// The instance behind a handle, mutably, if the handle names one of this
    /// scene.
    pub fn instance_mut(&mut self, id: InstanceId) -> (r: Option<&mut Instance<T>>)
        ensures
            match r {
                Some(inst) => {
                    &&& 0 <= id.index() < old(self)@.len()
                    &&& *inst == old(self)@[id.index()]
                    &&& final(self)@ == old(self)@.update(id.index(), *final(inst))
                },
                None => id.index() >= old(self)@.len() && final(self)@ == old(self)@,
            },
    {
        if id.0 < self.instances.len() {
            Some(&mut self.instances[id.0])
        } else {
            None
        }
    }

    /// The number of instances.
    pub fn len(&self) -> (n: usize)
        ensures
            n == self@.len(),
    {
        self.instances.len()
    }

    /// Whether the scene holds no instance.
    pub fn is_empty(&self) -> (b: bool)
        ensures
            b == (self@.len() == 0),
    {
        self.instances.len() == 0
    }
}

/// A handle returned by `add_styled` names exactly the instance that was
/// added: looking it up gives back the shape, transform and style passed in,
/// and every instance added before keeps its handle.
pub proof fn law_add_then_lookup<T>(
    before: Seq<Instance<T>>,
    after: Seq<Instance<T>>,
    id: InstanceId,
    shape: MeshShape,
    transform: T,
    style: RenderStyle,
)
    requires
        after == before.push(Instance { shape, transform, style }),
        id.index() == before.len(),
    ensures
        0 <= id.index() < after.len(),
        after[id.index()] == (Instance { shape, transform, style }),
        forall|i: int| 0 <= i < before.len() ==> after[i] == before[i],
{
}

} // verus!
