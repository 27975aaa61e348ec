//! Logical key identifiers.
//!
//! A configuration names the buttons by numbers: those below one hundred
//! are the buttons of the plain layer, those from one hundred on are the
//! same buttons with the shift button held.  The two layers are bound
//! independently of each other; the layer only shows in how a logical key
//! is written out.

use vstd::prelude::*;
use vstd::string::*;
use crate::text::{decimal_text, push_decimal};

verus! {

/// The first logical key of the shifted layer.
pub const SHIFTED_LAYER: u32 = 100;

/// How a logical key is written out: the letter G and its number, or, for
/// a key of the shifted layer, a caret between the letter and the number
/// of the key in the plain layer.
pub open spec fn gkey_label(gkey: u32) -> Seq<char> {
    if gkey >= SHIFTED_LAYER {
        "G^"@ + decimal_text((gkey - SHIFTED_LAYER) as nat)
    } else {
        "G"@ + decimal_text(gkey as nat)
    }
}

/// Writes a logical key out.
pub fn format_gkey(gkey: u32) -> (label: String)
    ensures
        label@ == gkey_label(gkey),
{
    if gkey >= SHIFTED_LAYER {
        let mut label = String::from_str("G^");
        push_decimal(&mut label, gkey - SHIFTED_LAYER);
        label
    } else {
        let mut label = String::from_str("G");
        push_decimal(&mut label, gkey);
        label
    }
}

} // verus!
