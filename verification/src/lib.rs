//! Conversion of dense per-frame animation stream recordings into sparse
//! keyframe-curve animations, plus extraction of a secondary "damage"
//! animation for one distinguished clump.
//!
//! The pipeline regroups per-frame samples by object index, converts each
//! object's sample sequence into a typed curve set, finalizes every curve
//! (terminator records, alignment padding, header sizing), sorts and packages
//! the entries into a primary animation, and finally splits the damage
//! clump's entries into a secondary animation.

pub mod types;
pub mod quant;
pub mod collect;
pub mod curves;
pub mod assemble;
pub mod split;
pub mod pipeline;
