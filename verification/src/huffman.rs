//! DEFLATE's fixed Huffman literal/length table and the piecewise
//! length/distance coding tables (RFC 1951, sections 3.2.5 and 3.2.6).
use vstd::prelude::*;

verus! {

/// Code length, in bits, of a literal/length symbol under the fixed table.
pub open spec fn fixed_code_len(sym: int) -> int {
    if sym < 144 {
        8
    } else if sym < 256 {
        9
    } else if sym < 280 {
        7
    } else {
        8
    }
}

/// Code value of a literal/length symbol under the fixed table.
pub open spec fn fixed_code_val(sym: int) -> int {
    if sym < 144 {
        sym + 0x30
    } else if sym < 256 {
        sym + 0x100
    } else if sym < 280 {
        sym - 0x100
    } else {
        sym - 0x58
    }
}

/// Maps a literal/length symbol to its fixed-Huffman (code length, code value).
pub fn changer(num: usize) -> (r: (u8, u16))
    requires
        num <= 287,
    ensures
        r.0 as int == fixed_code_len(num as int),
        r.1 as int == fixed_code_val(num as int),
{
    if num <= 143 {
        (8, (num + 0x30) as u16)
    } else if num <= 255 {
        (9, (num + 0x100) as u16)
    } else if num <= 279 {
        (7, (num - 0x100) as u16)
    } else {
        (8, (num - 0x58) as u16)
    }
}

/// The length symbol (257..=285) whose bucket holds a raw match length.
pub open spec fn length_sym(l: int) -> int {
    if l <= 10 {
        l + 254
    } else if l <= 12 {
        265
    } else if l <= 14 {
        266
    } else if l <= 16 {
        267
    } else if l <= 18 {
        268
    } else if l <= 22 {
        269
    } else if l <= 26 {
        270
    } else if l <= 30 {
        271
    } else if l <= 34 {
        272
    } else if l <= 42 {
        273
    } else if l <= 50 {
        274
    } else if l <= 58 {
        275
    } else if l <= 66 {
        276
    } else if l <= 82 {
        277
    } else if l <= 98 {
        278
    } else if l <= 114 {
        279
    } else if l <= 130 {
        280
    } else if l <= 162 {
        281
    } else if l <= 194 {
        282
    } else if l <= 226 {
        283
    } else if l <= 257 {
        284
    } else {
        285
    }
}

/// Smallest raw length of a length symbol's bucket.
pub open spec fn length_sym_base(sym: int) -> int {
    if sym <= 264 {
        sym - 254
    } else if sym == 265 {
        11
    } else if sym == 266 {
        13
    } else if sym == 267 {
        15
    } else if sym == 268 {
        17
    } else if sym == 269 {
        19
    } else if sym == 270 {
        23
    } else if sym == 271 {
        27
    } else if sym == 272 {
        31
    } else if sym == 273 {
        35
    } else if sym == 274 {
        43
    } else if sym == 275 {
        51
    } else if sym == 276 {
        59
    } else if sym == 277 {
        67
    } else if sym == 278 {
        83
    } else if sym == 279 {
        99
    } else if sym == 280 {
        115
    } else if sym == 281 {
        131
    } else if sym == 282 {
        163
    } else if sym == 283 {
        195
    } else if sym == 284 {
        227
    } else {
        258
    }
}

/// Number of extra bits carried by a length symbol.
pub open spec fn length_sym_ebits(sym: int) -> int {
    if sym <= 264 {
        0
    } else if sym <= 268 {
        1
    } else if sym <= 272 {
        2
    } else if sym <= 276 {
        3
    } else if sym <= 280 {
        4
    } else if sym <= 284 {
        5
    } else {
        0
    }
}

/// Extra-bit value of a raw length within its bucket.
pub open spec fn length_extra_val(l: int) -> int {
    l - length_sym_base(length_sym(l))
}

/// Small powers of two, for bucket widths (extra-bit counts stay below 14).
pub open spec fn two_pow(e: int) -> int {
    if e <= 0 {
        1
    } else if e == 1 {
        2
    } else if e == 2 {
        4
    } else if e == 3 {
        8
    } else if e == 4 {
        16
    } else if e == 5 {
        32
    } else if e == 6 {
        64
    } else if e == 7 {
        128
    } else if e == 8 {
        256
    } else if e == 9 {
        512
    } else if e == 10 {
        1024
    } else if e == 11 {
        2048
    } else if e == 12 {
        4096
    } else {
        8192
    }
}

/// Every raw length 3..=258 sits in exactly the bucket its symbol declares:
/// the symbol is in range, and base plus extra bits reconstructs the length,
/// which is what a decoder computes.
pub proof fn lemma_length_code_inverts(l: int)
    requires
        3 <= l <= 258,
    ensures
        257 <= length_sym(l) <= 285,
        0 <= length_sym_ebits(length_sym(l)) <= 5,
        length_sym_base(length_sym(l)) + length_extra_val(l) == l,
        0 <= length_extra_val(l) < two_pow(length_sym_ebits(length_sym(l))),
{
}

/// Maps a raw match length to (length symbol, extra-bit count, extra-bit value).
pub fn length_extra(data: u16) -> (r: (u16, u8, u16))
    requires
        3 <= data <= 258,
    ensures
        r.0 as int == length_sym(data as int),
        r.1 as int == length_sym_ebits(length_sym(data as int)),
        r.2 as int == length_extra_val(data as int),
{
    if data <= 10 {
        (data + 254, 0, 0)
    } else if data <= 12 {
        (265, 1, data - 11)
    } else if data <= 14 {
        (266, 1, data - 13)
    } else if data <= 16 {
        (267, 1, data - 15)
    } else if data <= 18 {
        (268, 1, data - 17)
    } else if data <= 22 {
        (269, 2, data - 19)
    } else if data <= 26 {
        (270, 2, data - 23)
    } else if data <= 30 {
        (271, 2, data - 27)
    } else if data <= 34 {
        (272, 2, data - 31)
    } else if data <= 42 {
        (273, 3, data - 35)
    } else if data <= 50 {
        (274, 3, data - 43)
    } else if data <= 58 {
        (275, 3, data - 51)
    } else if data <= 66 {
        (276, 3, data - 59)
    } else if data <= 82 {
        (277, 4, data - 67)
    } else if data <= 98 {
        (278, 4, data - 83)
    } else if data <= 114 {
        (279, 4, data - 99)
    } else if data <= 130 {
        (280, 4, data - 115)
    } else if data <= 162 {
        (281, 5, data - 131)
    } else if data <= 194 {
        (282, 5, data - 163)
    } else if data <= 226 {
        (283, 5, data - 195)
    } else if data <= 257 {
        (284, 5, data - 227)
    } else {
        (285, 0, 0)
    }
}

/// The distance symbol (0..=29) whose bucket holds a raw match distance.
pub open spec fn dist_sym(d: int) -> int {
    if d <= 4 {
        d - 1
    } else if d <= 6 {
        4
    } else if d <= 8 {
        5
    } else if d <= 12 {
        6
    } else if d <= 16 {
        7
    } else if d <= 24 {
        8
    } else if d <= 32 {
        9
    } else if d <= 48 {
        10
    } else if d <= 64 {
        11
    } else if d <= 96 {
        12
    } else if d <= 128 {
        13
    } else if d <= 192 {
        14
    } else if d <= 256 {
        15
    } else if d <= 384 {
        16
    } else if d <= 512 {
        17
    } else if d <= 768 {
        18
    } else if d <= 1024 {
        19
    } else if d <= 1536 {
        20
    } else if d <= 2048 {
        21
    } else if d <= 3072 {
        22
    } else if d <= 4096 {
        23
    } else if d <= 6144 {
        24
    } else if d <= 8192 {
        25
    } else if d <= 12288 {
        26
    } else if d <= 16384 {
        27
    } else if d <= 24576 {
        28
    } else {
        29
    }
}

/// Smallest raw distance of a distance symbol's bucket.
pub open spec fn dist_sym_base(sym: int) -> int {
    if sym <= 3 {
        sym + 1
    } else if sym == 4 {
        5
    } else if sym == 5 {
        7
    } else if sym == 6 {
        9
    } else if sym == 7 {
        13
    } else if sym == 8 {
        17
    } else if sym == 9 {
        25
    } else if sym == 10 {
        33
    } else if sym == 11 {
        49
    } else if sym == 12 {
        65
    } else if sym == 13 {
        97
    } else if sym == 14 {
        129
    } else if sym == 15 {
        193
    } else if sym == 16 {
        257
    } else if sym == 17 {
        385
    } else if sym == 18 {
        513
    } else if sym == 19 {
        769
    } else if sym == 20 {
        1025
    } else if sym == 21 {
        1537
    } else if sym == 22 {
        2049
    } else if sym == 23 {
        3073
    } else if sym == 24 {
        4097
    } else if sym == 25 {
        6145
    } else if sym == 26 {
        8193
    } else if sym == 27 {
        12289
    } else if sym == 28 {
        16385
    } else {
        24577
    }
}

/// Number of extra bits carried by a distance symbol.
pub open spec fn dist_sym_ebits(sym: int) -> int {
    if sym <= 3 {
        0
    } else if sym <= 5 {
        1
    } else if sym <= 7 {
        2
    } else if sym <= 9 {
        3
    } else if sym <= 11 {
        4
    } else if sym <= 13 {
        5
    } else if sym <= 15 {
        6
    } else if sym <= 17 {
        7
    } else if sym <= 19 {
        8
    } else if sym <= 21 {
        9
    } else if sym <= 23 {
        10
    } else if sym <= 25 {
        11
    } else if sym <= 27 {
        12
    } else {
        13
    }
}

/// Extra-bit value of a raw distance within its bucket.
pub open spec fn dist_extra_val(d: int) -> int {
    d - dist_sym_base(dist_sym(d))
}

/// Every raw distance 1..=32768 sits in exactly the bucket its symbol
/// declares, so base plus extra bits reconstructs the distance.
pub proof fn lemma_dist_code_inverts(d: int)
    requires
        1 <= d <= 32768,
    ensures
        0 <= dist_sym(d) <= 29,
        0 <= dist_sym_ebits(dist_sym(d)) <= 13,
        dist_sym_base(dist_sym(d)) + dist_extra_val(d) == d,
        0 <= dist_extra_val(d) < two_pow(dist_sym_ebits(dist_sym(d))),
{
}

/// Maps a raw match distance to (distance symbol, extra-bit count, extra-bit value).
pub fn distance_extra(data: u32) -> (r: (u8, u8, u16))
    requires
        1 <= data <= 32768,
    ensures
        r.0 as int == dist_sym(data as int),
        r.1 as int == dist_sym_ebits(dist_sym(data as int)),
        r.2 as int == dist_extra_val(data as int),
{
    if data <= 4 {
        ((data - 1) as u8, 0, 0)
    } else if data <= 6 {
        (4, 1, (data - 5) as u16)
    } else if data <= 8 {
        (5, 1, (data - 7) as u16)
    } else if data <= 12 {
        (6, 2, (data - 9) as u16)
    } else if data <= 16 {
        (7, 2, (data - 13) as u16)
    } else if data <= 24 {
        (8, 3, (data - 17) as u16)
    } else if data <= 32 {
        (9, 3, (data - 25) as u16)
    } else if data <= 48 {
        (10, 4, (data - 33) as u16)
    } else if data <= 64 {
        (11, 4, (data - 49) as u16)
    } else if data <= 96 {
        (12, 5, (data - 65) as u16)
    } else if data <= 128 {
        (13, 5, (data - 97) as u16)
    } else if data <= 192 {
        (14, 6, (data - 129) as u16)
    } else if data <= 256 {
        (15, 6, (data - 193) as u16)
    } else if data <= 384 {
        (16, 7, (data - 257) as u16)
    } else if data <= 512 {
        (17, 7, (data - 385) as u16)
    } else if data <= 768 {
        (18, 8, (data - 513) as u16)
    } else if data <= 1024 {
        (19, 8, (data - 769) as u16)
    } else if data <= 1536 {
        (20, 9, (data - 1025) as u16)
    } else if data <= 2048 {
        (21, 9, (data - 1537) as u16)
    } else if data <= 3072 {
        (22, 10, (data - 2049) as u16)
    } else if data <= 4096 {
        (23, 10, (data - 3073) as u16)
    } else if data <= 6144 {
        (24, 11, (data - 4097) as u16)
    } else if data <= 8192 {
        (25, 11, (data - 6145) as u16)
    } else if data <= 12288 {
        (26, 12, (data - 8193) as u16)
    } else if data <= 16384 {
        (27, 12, (data - 12289) as u16)
    } else if data <= 24576 {
        (28, 13, (data - 16385) as u16)
    } else {
        (29, 13, (data - 24577) as u16)
    }
}

} // verus!
