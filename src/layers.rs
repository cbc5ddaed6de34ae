use vstd::prelude::*;
use crate::seq_facts::lemma_filter_step;

verus! {

/// The four strata of layer-shell surfaces, bottom to top.
#[derive(Debug, Clone, Copy, PartialEq, Eq, Structural)]
pub enum Layer {
    Background,
    Bottom,
    Top,
    Overlay,
}

/// The screen edge a layer surface reserves space on.
#[derive(Debug, Clone, Copy, PartialEq, Eq, Structural)]
pub enum Edge {
    Top,
    Bottom,
    Left,
    Right,
}

/// What stacking and layout read of a layer surface.
#[derive(Debug, Clone, Copy, PartialEq, Eq, Structural)]
pub struct LayerSurfaceInfo {
    pub surface: u64,
    pub layer: Layer,
    /// The edge the surface is anchored to, when it is anchored to exactly one.
    pub edge: Option<Edge>,
    /// Pixels reserved along `edge`; zero or less reserves nothing.
    pub exclusive_zone: i32,
}

pub open spec fn in_layer(l: Layer) -> spec_fn(LayerSurfaceInfo) -> bool {
    |s: LayerSurfaceInfo| s.layer == l
}

pub open spec fn surfaces_of(ls: Seq<LayerSurfaceInfo>) -> Seq<u64> {
    ls.map_values(|s: LayerSurfaceInfo| s.surface)
}

/// Drawing order, back to front: background and bottom layers, the window
/// stack, then top and overlay layers; within a layer, creation order.
pub open spec fn compose_order_spec(ls: Seq<LayerSurfaceInfo>, windows: Seq<u64>) -> Seq<u64> {
    surfaces_of(ls.filter(in_layer(Layer::Background))) + surfaces_of(ls.filter(in_layer(Layer::Bottom)))
        + windows + surfaces_of(ls.filter(in_layer(Layer::Top))) + surfaces_of(
        ls.filter(in_layer(Layer::Overlay)),
    )
}

fn layer_surfaces(ls: &Vec<LayerSurfaceInfo>, layer: Layer) -> (r: Vec<u64>)
    ensures
        r@ == surfaces_of(ls@.filter(in_layer(layer))),
{
    let ghost p = in_layer(layer);
    let mut r: Vec<u64> = Vec::new();
    let mut i: usize = 0;
    while i < ls.len()
        invariant
            i <= ls@.len(),
            p == in_layer(layer),
            r@ == surfaces_of(ls@.subrange(0, i as int).filter(p)),
        decreases ls@.len() - i,
    {
        proof {
            lemma_filter_step(ls@, p, i as int);
        }
        if ls[i].layer == layer {
            r.push(ls[i].surface);
            proof {
                assert(r@ =~= surfaces_of(ls@.subrange(0, i + 1).filter(p)));
            }
        } else {
            proof {
                assert(r@ =~= surfaces_of(ls@.subrange(0, i + 1).filter(p)));
            }
        }
        i = i + 1;
    }
    proof {
        assert(ls@.subrange(0, ls@.len() as int) =~= ls@);
    }
    r
}

fn append(r: &mut Vec<u64>, v: Vec<u64>)
    ensures
        final(r)@ == old(r)@ + v@,
{
    let mut i: usize = 0;
    let ghost start = r@;
    while i < v.len()
        invariant
            i <= v@.len(),
            r@ == start + v@.subrange(0, i as int),
            start == old(r)@,
        decreases v@.len() - i,
    {
        r.push(v[i]);
        i = i + 1;
        proof {
            assert(r@ =~= start + v@.subrange(0, i as int));
        }
    }
    proof {
        assert(v@.subrange(0, v@.len() as int) =~= v@);
    }
}

/// The surfaces of a frame in drawing order.
pub fn compose_order(layers: &Vec<LayerSurfaceInfo>, windows: &Vec<u64>) -> (r: Vec<u64>)
    ensures
        r@ == compose_order_spec(layers@, windows@),
{
    let mut r = layer_surfaces(layers, Layer::Background);
    append(&mut r, layer_surfaces(layers, Layer::Bottom));
    append(&mut r, crate::surface::copy_vec(windows));
    append(&mut r, layer_surfaces(layers, Layer::Top));
    append(&mut r, layer_surfaces(layers, Layer::Overlay));
    r
}

/// Pixels the surfaces of `ls` reserve on `edge`.
pub open spec fn reserved(ls: Seq<LayerSurfaceInfo>, edge: Edge) -> int
    decreases ls.len(),
{
    if ls.len() == 0 {
        0
    } else {
        let s = ls.last();
        reserved(ls.drop_last(), edge) + if s.edge == Some(edge) && s.exclusive_zone > 0 {
            s.exclusive_zone as int
        } else {
            0
        }
    }
}

/// An area of an output.
#[derive(Debug, Clone, Copy, PartialEq, Eq, Structural)]
pub struct Area {
    pub x: i64,
    pub y: i64,
    pub width: i64,
    pub height: i64,
}

pub open spec fn nonneg(v: int) -> int {
    if v < 0 {
        0
    } else {
        v
    }
}

proof fn lemma_reserved_bounds(ls: Seq<LayerSurfaceInfo>, edge: Edge)
    ensures
        0 <= reserved(ls, edge) <= ls.len() * 0x7fff_ffff,
    decreases ls.len(),
{
    if ls.len() > 0 {
        lemma_reserved_bounds(ls.drop_last(), edge);
    }
}

fn reserved_exec(ls: &Vec<LayerSurfaceInfo>, edge: Edge) -> (r: i64)
    requires
        ls@.len() <= u32::MAX,
    ensures
        r == reserved(ls@, edge),
{
    let mut total: i64 = 0;
    let mut i: usize = 0;
    while i < ls.len()
        invariant
            i <= ls@.len() <= u32::MAX,
            total == reserved(ls@.subrange(0, i as int), edge),
        decreases ls@.len() - i,
    {
        proof {
            assert(ls@.subrange(0, i + 1).drop_last() =~= ls@.subrange(0, i as int));
            lemma_reserved_bounds(ls@.subrange(0, i as int), edge);
            assert(i * 0x7fff_ffff <= 0xffff_ffff * 0x7fff_ffff) by (nonlinear_arith)
                requires i <= 0xffff_ffff;
        }
        let s = ls[i];
        if s.edge == Some(edge) && s.exclusive_zone > 0 {
            total = total + s.exclusive_zone as i64;
        }
        i = i + 1;
    }
    proof {
        assert(ls@.subrange(0, ls@.len() as int) =~= ls@);
    }
    total
}

/// The part of an output of the given size that windows may use: each
/// surface's positive exclusive zone is taken off the edge it is anchored to.
pub fn usable_area(width: u32, height: u32, layers: &Vec<LayerSurfaceInfo>) -> (a: Area)
    requires
        layers@.len() <= u32::MAX,
    ensures
        a.x == reserved(layers@, Edge::Left),
        a.y == reserved(layers@, Edge::Top),
        a.width == nonneg(width - reserved(layers@, Edge::Left) - reserved(layers@, Edge::Right)),
        a.height == nonneg(height - reserved(layers@, Edge::Top) - reserved(layers@, Edge::Bottom)),
{
    proof {
        lemma_reserved_bounds(layers@, Edge::Left);
        lemma_reserved_bounds(layers@, Edge::Right);
        lemma_reserved_bounds(layers@, Edge::Top);
        lemma_reserved_bounds(layers@, Edge::Bottom);
        assert(layers@.len() * 0x7fff_ffff <= 0xffff_ffff * 0x7fff_ffff) by (nonlinear_arith)
            requires layers@.len() <= 0xffff_ffff;
    }
    let left = reserved_exec(layers, Edge::Left);
    let right = reserved_exec(layers, Edge::Right);
    let top = reserved_exec(layers, Edge::Top);
    let bottom = reserved_exec(layers, Edge::Bottom);
    let w: i128 = width as i128 - left as i128 - right as i128;
    let h: i128 = height as i128 - top as i128 - bottom as i128;
    Area {
        x: left,
        y: top,
        width: if w < 0 {
            0
        } else {
            w as i64
        },
        height: if h < 0 {
            0
        } else {
            h as i64
        },
    }
}

} // verus!
