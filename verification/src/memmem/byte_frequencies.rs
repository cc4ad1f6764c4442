//! A fixed 256-entry table mapping each byte value to a heuristic
//! frequency rank. A lower rank means the byte is believed to occur less
//! frequently in typical haystacks. The needle analyzer uses the table to
//! pick needle bytes likely to be uncommon; a poor guess costs speed,
//! never correctness.
//!
//! The ranks favour ASCII text mixed with binary data: letters are ranked
//! by their frequency in English prose, whitespace and NUL are treated as
//! very common, control bytes and most high bytes as rare.

use vstd::prelude::*;

verus! {

/// The table as specifications see it: entry `b` is the rank of byte `b`.
/// Kept opaque so the 256 entries do not weigh on unrelated proofs; the
/// executable accessor below is proved to agree with it.
#[verifier::opaque]
pub open spec fn rank_table() -> Seq<u8> {
    seq![
        230u8, 29, 28, 27, 26, 25, 24, 23, // 0x00-0x07
        22, 190, 240, 21, 22, 210, 24, 25, // 0x08-0x0F
        10, 11, 12, 13, 14, 15, 16, 17, // 0x10-0x17
        18, 19, 20, 21, 22, 23, 24, 25, // 0x18-0x1F
        254, 90, 118, 78, 76, 74, 70, 140, // 0x20-0x27
        120, 116, 68, 66, 148, 146, 150, 112, // 0x28-0x2F
        182, 180, 178, 176, 174, 172, 170, 168, // 0x30-0x37
        166, 164, 94, 96, 98, 64, 92, 88, // 0x38-0x3F
        80, 172, 87, 127, 137, 182, 107, 102, // 0x40-0x47
        147, 162, 72, 77, 132, 117, 157, 167, // 0x48-0x4F
        92, 62, 142, 152, 177, 122, 82, 112, // 0x50-0x57
        67, 97, 57, 104, 110, 102, 72, 144, // 0x58-0x5F
        60, 242, 157, 197, 207, 252, 177, 172, // 0x60-0x67
        217, 232, 142, 147, 202, 187, 227, 237, // 0x68-0x6F
        162, 132, 212, 222, 247, 192, 152, 182, // 0x70-0x77
        137, 167, 127, 84, 86, 82, 62, 12, // 0x78-0x7F
        58, 57, 56, 55, 54, 53, 52, 51, // 0x80-0x87
        50, 49, 48, 47, 46, 45, 44, 43, // 0x88-0x8F
        42, 41, 40, 39, 38, 37, 36, 35, // 0x90-0x97
        34, 33, 32, 31, 30, 29, 28, 27, // 0x98-0x9F
        26, 25, 24, 23, 22, 21, 20, 19, // 0xA0-0xA7
        18, 17, 16, 15, 14, 13, 12, 11, // 0xA8-0xAF
        58, 57, 56, 55, 54, 53, 52, 51, // 0xB0-0xB7
        50, 49, 48, 47, 46, 45, 44, 43, // 0xB8-0xBF
        42, 41, 40, 39, 38, 37, 36, 35, // 0xC0-0xC7
        34, 33, 32, 31, 30, 29, 28, 27, // 0xC8-0xCF
        26, 25, 24, 23, 22, 21, 20, 19, // 0xD0-0xD7
        18, 17, 16, 15, 14, 13, 12, 11, // 0xD8-0xDF
        58, 57, 56, 55, 54, 53, 52, 51, // 0xE0-0xE7
        50, 49, 48, 47, 46, 45, 44, 43, // 0xE8-0xEF
        42, 41, 40, 39, 38, 37, 36, 35, // 0xF0-0xF7
        34, 33, 32, 31, 30, 29, 28, 115, // 0xF8-0xFF
    ]
}

/// The frequency rank of the byte value `b`, as the specification table
/// gives it.
pub open spec fn spec_rank(b: u8) -> int {
    rank_table()[b as int] as int
}

/// The frequency rank of the byte value `b`, with 0 the rarest possible
/// rank and 255 the most common.
pub fn frequency_rank(b: u8) -> (r: u8)
    ensures
        r as int == spec_rank(b),
{
    let table: [u8; 256] = [
        230, 29, 28, 27, 26, 25, 24, 23, // 0x00-0x07
        22, 190, 240, 21, 22, 210, 24, 25, // 0x08-0x0F
        10, 11, 12, 13, 14, 15, 16, 17, // 0x10-0x17
        18, 19, 20, 21, 22, 23, 24, 25, // 0x18-0x1F
        254, 90, 118, 78, 76, 74, 70, 140, // 0x20-0x27
        120, 116, 68, 66, 148, 146, 150, 112, // 0x28-0x2F
        182, 180, 178, 176, 174, 172, 170, 168, // 0x30-0x37
        166, 164, 94, 96, 98, 64, 92, 88, // 0x38-0x3F
        80, 172, 87, 127, 137, 182, 107, 102, // 0x40-0x47
        147, 162, 72, 77, 132, 117, 157, 167, // 0x48-0x4F
        92, 62, 142, 152, 177, 122, 82, 112, // 0x50-0x57
        67, 97, 57, 104, 110, 102, 72, 144, // 0x58-0x5F
        60, 242, 157, 197, 207, 252, 177, 172, // 0x60-0x67
        217, 232, 142, 147, 202, 187, 227, 237, // 0x68-0x6F
        162, 132, 212, 222, 247, 192, 152, 182, // 0x70-0x77
        137, 167, 127, 84, 86, 82, 62, 12, // 0x78-0x7F
        58, 57, 56, 55, 54, 53, 52, 51, // 0x80-0x87
        50, 49, 48, 47, 46, 45, 44, 43, // 0x88-0x8F
        42, 41, 40, 39, 38, 37, 36, 35, // 0x90-0x97
        34, 33, 32, 31, 30, 29, 28, 27, // 0x98-0x9F
        26, 25, 24, 23, 22, 21, 20, 19, // 0xA0-0xA7
        18, 17, 16, 15, 14, 13, 12, 11, // 0xA8-0xAF
        58, 57, 56, 55, 54, 53, 52, 51, // 0xB0-0xB7
        50, 49, 48, 47, 46, 45, 44, 43, // 0xB8-0xBF
        42, 41, 40, 39, 38, 37, 36, 35, // 0xC0-0xC7
        34, 33, 32, 31, 30, 29, 28, 27, // 0xC8-0xCF
        26, 25, 24, 23, 22, 21, 20, 19, // 0xD0-0xD7
        18, 17, 16, 15, 14, 13, 12, 11, // 0xD8-0xDF
        58, 57, 56, 55, 54, 53, 52, 51, // 0xE0-0xE7
        50, 49, 48, 47, 46, 45, 44, 43, // 0xE8-0xEF
        42, 41, 40, 39, 38, 37, 36, 35, // 0xF0-0xF7
        34, 33, 32, 31, 30, 29, 28, 115, // 0xF8-0xFF
    ];
    proof {
        reveal(rank_table);
        assert(table@ =~= rank_table());
    }
    table[b as usize]
}

} // verus!
