//! Transforms and their builder.

use vstd::prelude::*;

use crate::types::AffineTransformation;
use crate::types::Number;
use crate::variations::Variation;

verus! {

/// A variation with the weight of its output in a transform's sum.
#[derive(Clone, Copy, Debug, PartialEq, Eq, Structural)]
pub struct Weighted {
    pub variation: Variation,
    pub weight: Number,
}

/// A transform: weighted variations in order, a color, and the affine maps
/// that run before and after the variations. Once built it cannot change.
#[derive(Debug)]
pub struct Transform {
    variations: Vec<Weighted>,
    color: Number,
    pre: AffineTransformation,
    post: AffineTransformation,
}

impl Transform {
    /// The weighted variations, in the order in which they were added.
    pub closed spec fn spec_variations(&self) -> Seq<Weighted> {
        self.variations@
    }

    /// The transform's color.
    pub closed spec fn spec_color(&self) -> Number {
        self.color
    }

    /// The affine map that runs before the variations.
    pub closed spec fn spec_pre(&self) -> AffineTransformation {
        self.pre
    }

    /// The affine map that runs after the variations.
    pub closed spec fn spec_post(&self) -> AffineTransformation {
        self.post
    }

    /// The weighted variations, in the order in which they were added.
    pub fn variations(&self) -> (all: &Vec<Weighted>)
        ensures
            all@ == self.spec_variations(),
    {
        &self.variations
    }

    /// The transform's color.
    pub fn color(&self) -> (color: Number)
        ensures
            color == self.spec_color(),
    {
        self.color
    }

    /// The affine map that runs before the variations.
    pub fn pre(&self) -> (map: AffineTransformation)
        ensures
            map == self.spec_pre(),
    {
        self.pre
    }

    /// The affine map that runs after the variations.
    pub fn post(&self) -> (map: AffineTransformation)
        ensures
            map == self.spec_post(),
    {
        self.post
    }
}

/// Gathers the parts of a transform. A new builder holds no variation, the
/// color zero and identity maps.
#[derive(Debug)]
pub struct TransformBuilder {
    variations: Vec<Weighted>,
    color: Number,
    pre: AffineTransformation,
    post: AffineTransformation,
}

impl TransformBuilder {
    /// The weighted variations gathered so far, in the order of the calls.
    pub closed spec fn spec_variations(&self) -> Seq<Weighted> {
        self.variations@
    }

    /// The color gathered so far.
    pub closed spec fn spec_color(&self) -> Number {
        self.color
    }

    /// The affine map to run before the variations.
    pub closed spec fn spec_pre(&self) -> AffineTransformation {
        self.pre
    }

    /// The affine map to run after the variations.
    pub closed spec fn spec_post(&self) -> AffineTransformation {
        self.post
    }

    /// A builder with no variation, the color zero and identity maps.
    pub fn new() -> (builder: TransformBuilder)
        ensures
            builder.spec_variations() == Seq::<Weighted>::empty(),
            builder.spec_color() == Number::spec_zero(),
            builder.spec_pre() == AffineTransformation::spec_identity(),
            builder.spec_post() == AffineTransformation::spec_identity(),
    {
        TransformBuilder {
            variations: Vec::new(),
            color: Number::zero(),
            pre: AffineTransformation::identity(),
            post: AffineTransformation::identity(),
        }
    }

    /// Adds `variation` after those added before, with the weight one.
    pub fn add_variation(self, variation: Variation) -> (builder: TransformBuilder)
        ensures
            builder.spec_variations() == self.spec_variations().push(
                Weighted { variation, weight: Number::spec_one() },
            ),
            builder.spec_color() == self.spec_color(),
            builder.spec_pre() == self.spec_pre(),
            builder.spec_post() == self.spec_post(),
    {
        self.add_weighted_variation(variation, Number::one())
    }

    /// Adds `variation` after those added before, with the weight `weight`.
    pub fn add_weighted_variation(self, variation: Variation, weight: Number) -> (builder:
        TransformBuilder)
        ensures
            builder.spec_variations() == self.spec_variations().push(
                Weighted { variation, weight },
            ),
            builder.spec_color() == self.spec_color(),
            builder.spec_pre() == self.spec_pre(),
            builder.spec_post() == self.spec_post(),
    {
        let mut builder = self;
        builder.variations.push(Weighted { variation, weight });
        builder
    }

    /// Sets the color.
    pub fn color(self, color: Number) -> (builder: TransformBuilder)
        ensures
            builder.spec_variations() == self.spec_variations(),
            builder.spec_color() == color,
            builder.spec_pre() == self.spec_pre(),
            builder.spec_post() == self.spec_post(),
    {
        let mut builder = self;
        builder.color = color;
        builder
    }

    /// Sets the affine map that runs before the variations.
    pub fn pre(self, map: AffineTransformation) -> (builder: TransformBuilder)
        ensures
            builder.spec_variations() == self.spec_variations(),
            builder.spec_color() == self.spec_color(),
            builder.spec_pre() == map,
            builder.spec_post() == self.spec_post(),
    {
        let mut builder = self;
        builder.pre = map;
        builder
    }

    /// Sets the affine map that runs after the variations.
    pub fn post(self, map: AffineTransformation) -> (builder: TransformBuilder)
        ensures
            builder.spec_variations() == self.spec_variations(),
            builder.spec_color() == self.spec_color(),
            builder.spec_pre() == self.spec_pre(),
            builder.spec_post() == map,
    {
        let mut builder = self;
        builder.post = map;
        builder
    }

    /// The transform with the parts gathered so far.
    pub fn finalize(self) -> (transform: Transform)
        ensures
            transform.spec_variations() == self.spec_variations(),
            transform.spec_color() == self.spec_color(),
            transform.spec_pre() == self.spec_pre(),
            transform.spec_post() == self.spec_post(),
    {
        Transform {
            variations: self.variations,
            color: self.color,
            pre: self.pre,
            post: self.post,
        }
    }
}

} // verus!
