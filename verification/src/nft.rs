//! Attributes of a generated token.
//!
//! A minted token gets three colour attributes, drawn by the host from
//! its randomness source; the attribute values are plain colour keyword
//! texts. The metadata document and the image are rendered by the host;
//! the trait list the metadata carries is built here, in the key order
//! the rendered document uses.
use vstd::prelude::*;

verus! {

/// The colour attributes of one token.
#[derive(Debug, Clone)]
pub struct Attributes {
    pub bg_color: String,
    pub frame_color: String,
    pub circle_color: String,
}

/// One entry of a token's trait list.
#[derive(Debug, Clone)]
pub struct Trait {
    pub trait_type: String,
    pub value: String,
}

impl Attributes {
    /// The attributes as a trait list, one entry per attribute, in the
    /// alphabetical key order of the rendered metadata.
    pub fn to_trait_list(&self) -> (r: Vec<Trait>)
        ensures
            r@.len() == 3,
            r@[0].trait_type@ == "bg_color"@ && r@[0].value@ == self.bg_color@,
            r@[1].trait_type@ == "circle_color"@ && r@[1].value@ == self.circle_color@,
            r@[2].trait_type@ == "frame_color"@ && r@[2].value@ == self.frame_color@,
    {
        let mut out: Vec<Trait> = Vec::new();
        out.push(
            Trait { trait_type: String::from_str("bg_color"), value: self.bg_color.clone() },
        );
        out.push(
            Trait {
                trait_type: String::from_str("circle_color"),
                value: self.circle_color.clone(),
            },
        );
        out.push(
            Trait { trait_type: String::from_str("frame_color"), value: self.frame_color.clone() },
        );
        out
    }
}

} // verus!
