//! Input sources as VCP code 0x60 values monitors agree on (MCCS 2.2), and their names.
//! A code outside the table is still usable: it reads as "Input 0x1E".

use vstd::prelude::*;
use crate::text::{append_str, hex_padded, push_hex_padded, string_of};

verus! {

/// The fixed table, in the order the step editor offers it.
pub open spec fn table_name(code: u32) -> Option<Seq<char>> {
    if code == 0x01 {
        Some("VGA"@)
    } else if code == 0x03 {
        Some("DVI 1"@)
    } else if code == 0x04 {
        Some("DVI 2"@)
    } else if code == 0x0F {
        Some("DisplayPort 1"@)
    } else if code == 0x10 {
        Some("DisplayPort 2"@)
    } else if code == 0x11 {
        Some("HDMI 1"@)
    } else if code == 0x12 {
        Some("HDMI 2"@)
    } else if code == 0x1B {
        Some("USB-C"@)
    } else {
        None
    }
}

/// "HDMI 1" for a known code, "Input 0x1E" (two capital hex digits at least) for any other.
pub open spec fn input_name(code: u32) -> Seq<char> {
    match table_name(code) {
        Some(n) => n,
        None => "Input 0x"@ + hex_padded(code as nat, 2),
    }
}

/// One entry of the fixed table, as the step editor lists it.
#[derive(Debug, Clone, PartialEq, Eq)]
pub struct InputSource {
    pub code: u32,
    pub name: String,
}

/// The codes of the fixed table, in the order the step editor offers them.
pub open spec fn table_codes() -> Seq<u32> {
    seq![0x01u32, 0x03, 0x04, 0x0F, 0x10, 0x11, 0x12, 0x1B]
}

/// The fixed table, in order.
pub fn input_sources() -> (r: Vec<InputSource>)
    ensures
        r.len() == table_codes().len(),
        forall|i: int|
            0 <= i < r.len() ==> r[i].code == table_codes()[i] && Some(r[i].name@) == table_name(
                #[trigger] r[i].code,
            ),
{
    let codes: [u32; 8] = [0x01, 0x03, 0x04, 0x0F, 0x10, 0x11, 0x12, 0x1B];
    let mut r: Vec<InputSource> = Vec::new();
    let mut i: usize = 0;
    while i < 8
        invariant
            i <= 8,
            codes@ == table_codes(),
            r.len() == i,
            forall|k: int|
                0 <= k < i ==> r[k].code == table_codes()[k] && Some(r[k].name@) == table_name(
                    #[trigger] r[k].code,
                ),
        decreases 8 - i,
    {
        let code = codes[i];
        r.push(InputSource { code, name: name(code) });
        i = i + 1;
    }
    r
}

/// "HDMI 1" for a known code, "Input 0x1E" for any other.
pub fn name(code: u32) -> (r: String)
    ensures
        r@ == input_name(code),
{
    let mut o: Vec<char> = Vec::new();
    if code == 0x01 {
        append_str(&mut o, "VGA");
    } else if code == 0x03 {
        append_str(&mut o, "DVI 1");
    } else if code == 0x04 {
        append_str(&mut o, "DVI 2");
    } else if code == 0x0F {
        append_str(&mut o, "DisplayPort 1");
    } else if code == 0x10 {
        append_str(&mut o, "DisplayPort 2");
    } else if code == 0x11 {
        append_str(&mut o, "HDMI 1");
    } else if code == 0x12 {
        append_str(&mut o, "HDMI 2");
    } else if code == 0x1B {
        append_str(&mut o, "USB-C");
    } else {
        append_str(&mut o, "Input 0x");
        push_hex_padded(&mut o, code as u64, 2);
    }
    string_of(&o)
}

} // verus!
