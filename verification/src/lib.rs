//! Proof-system backend for arithmetic circuits: the Groth–Maller scheme over
//! pairing-friendly curves, and the checks made on the outcome of a
//! multi-party parameter ceremony.
//!
//! Curve points and field elements are kept as hexadecimal text. The modules
//! below convert them to and from the byte frames that the proving engine
//! reads and writes, and state in their contracts what each conversion
//! returns.

pub mod ark;
pub mod computation;
pub mod curve;
pub mod field;
pub mod gm17;
pub mod hexstr;
pub mod ir;
pub mod mpc;
pub mod points;
pub mod serialization;

use vstd::prelude::*;

verus! {

} // verus!
