//! A compositor of pre-rendered surfaces, drawn back to front.

use vstd::prelude::*;
use crate::surface::Surface;
use crate::tui::Rect;

verus! {

/// A surface placed at an offset within the frame, shown or hidden.
#[derive(Debug)]
pub struct CompositorLayer {
    pub surface: Surface,
    pub x: u16,
    pub y: u16,
    pub visible: bool,
}

impl CompositorLayer {
    /// A shown layer of `surface` at the frame's top left.
    pub fn new(surface: Surface) -> (l: CompositorLayer)
        ensures
            l.surface@ == surface@,
            l.x == 0,
            l.y == 0,
            l.visible,
    {
        CompositorLayer { surface, x: 0, y: 0, visible: true }
    }

    /// This layer `v` columns from the frame's left.
    pub fn x(self, v: u16) -> (l: CompositorLayer)
        ensures
            l.surface@ == self.surface@,
            l.x == v,
            l.y == self.y,
            l.visible == self.visible,
    {
        CompositorLayer { x: v, ..self }
    }

    /// This layer `v` rows from the frame's top.
    pub fn y(self, v: u16) -> (l: CompositorLayer)
        ensures
            l.surface@ == self.surface@,
            l.x == self.x,
            l.y == v,
            l.visible == self.visible,
    {
        CompositorLayer { y: v, ..self }
    }
}

/// Layers drawn back to front.
pub struct Compositor {
    pub layers: Vec<CompositorLayer>,
}

/// The visible layers among the first `n`, back to front, each with where
/// its surface is drawn in `area`.
pub open spec fn drawn_layers(layers: Seq<CompositorLayer>, area: Rect, n: int) -> Seq<(usize, u16, u16)>
    decreases n,
{
    if n <= 0 {
        seq![]
    } else {
        let rest = drawn_layers(layers, area, n - 1);
        let l = layers[n - 1];
        if l.visible {
            rest.push(((n - 1) as usize, (area.x + l.x) as u16, (area.y + l.y) as u16))
        } else {
            rest
        }
    }
}

impl Compositor {
    /// A compositor of `layers`.
    pub fn new(layers: Vec<CompositorLayer>) -> (c: Compositor)
        ensures
            c.layers@ == layers@,
    {
        Compositor { layers }
    }

    /// Adds a layer in front.
    pub fn push(&mut self, layer: CompositorLayer)
        ensures
            final(self).layers@ == old(self).layers@.push(layer),
    {
        self.layers.push(layer);
    }

    /// Which layers are drawn in `area`, back to front, and where (see
    /// [`drawn_layers`]).
    pub fn plan(&self, area: Rect) -> (out: Vec<(usize, u16, u16)>)
        requires
            forall|i: int|
                0 <= i < self.layers@.len() && (#[trigger] self.layers@[i]).visible ==> area.x + self.layers@[i].x
                    <= u16::MAX && area.y + self.layers@[i].y <= u16::MAX,
        ensures
            out@ == drawn_layers(self.layers@, area, self.layers@.len() as int),
    {
        let mut out: Vec<(usize, u16, u16)> = Vec::new();
        let mut i: usize = 0;
        while i < self.layers.len()
            invariant
                i <= self.layers@.len(),
                forall|k: int|
                    0 <= k < self.layers@.len() && (#[trigger] self.layers@[k]).visible ==> area.x + self.layers@[k].x
                        <= u16::MAX && area.y + self.layers@[k].y <= u16::MAX,
                out@ == drawn_layers(self.layers@, area, i as int),
            decreases self.layers@.len() - i,
        {
            let l = &self.layers[i];
            if l.visible {
                out.push((i, area.x + l.x, area.y + l.y));
            }
            i = i + 1;
        }
        out
    }
}

} // verus!
