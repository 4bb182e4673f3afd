//! Software identification, as WELMEC 7.2 P2 asks for it.
//!
//! A version fixed at build time plus a checksum over the image, which together say exactly which
//! binary is running. The checksum itself is the device's CRC32 module run over program memory;
//! what is worked out here is the extent of what it covers — everything from the start of the
//! program region to the end of the `.data` initialisers, which is all the code and all the
//! constants — from the four addresses the linker places.

use vstd::prelude::*;

verus! {

/// Identification of this build. Must change whenever the legally relevant software changes —
/// which, since this instrument declares its whole software legally relevant, means any change.
pub const SOFTWARE_VERSION: &'static str = "1.0";

/// Where the checked image ends: the `.data` initialisers, the last thing in it, run from
/// `sidata` for as long as `.data` is (`edata - sdata`).
pub fn image_end(sidata: u16, sdata: u16, edata: u16) -> (r: u16)
    requires
        sdata <= edata,
        sidata + (edata - sdata) <= u16::MAX,
    ensures
        r == sidata + (edata - sdata),
{
    let data_len: u16 = edata - sdata;
    sidata + data_len
}

/// Size of the checked image, in bytes, from the start of the program region (`legal_start`) to
/// [`image_end`]. Reported alongside the checksum so that a truncated image cannot pass by
/// accident.
pub fn image_len(legal_start: u16, sidata: u16, sdata: u16, edata: u16) -> (r: u16)
    requires
        sdata <= edata,
        sidata + (edata - sdata) <= u16::MAX,
        legal_start <= sidata + (edata - sdata),
    ensures
        r == sidata + (edata - sdata) - legal_start,
{
    image_end(sidata, sdata, edata) - legal_start
}

} // verus!
