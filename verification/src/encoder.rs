//! The end-to-end pipeline: checksum the input, tokenize it, code the
//! tokens into the fixed-Huffman bit stream, and frame the packed payload
//! with the three archive records.
//!
//! `encode`'s contract ties the whole output together: the result is
//! local header + payload + central header + end record, the CRC and size
//! fields hold the checksum and sizes of the real input and payload, and
//! the payload's bits are exactly the block header, the coded tokens of a
//! token sequence that decodes back to the input, the end-of-block symbol,
//! and zero padding.
use crate::bits::BitWriter;
use crate::bits::bytes_bits;
use crate::bits::lsb_bits;
use crate::bits::msb_bits;
use crate::bits::zero_bits;
use crate::crc::Crc32;
use crate::crc::crc32_spec;
use crate::header::Header;
use crate::header::central_header_bytes;
use crate::header::end_header_bytes;
use crate::header::local_header_bytes;
use crate::huffman::changer;
use crate::huffman::dist_extra_val;
use crate::huffman::dist_sym;
use crate::huffman::dist_sym_ebits;
use crate::huffman::distance_extra;
use crate::huffman::fixed_code_len;
use crate::huffman::fixed_code_val;
use crate::huffman::length_extra;
use crate::huffman::length_extra_val;
use crate::huffman::length_sym;
use crate::huffman::length_sym_ebits;
use crate::huffman::lemma_dist_code_inverts;
use crate::huffman::lemma_length_code_inverts;
use crate::lz::Token;
use crate::lz::lemma_copy_bytes_len;
use crate::lz::token_valid;
use crate::lz::tokenize;
use crate::lz::tokens_decode;
use vstd::prelude::*;

verus! {

/// The fixed-Huffman code of a literal/length symbol, most significant bit
/// first.
pub open spec fn sym_code_bits(sym: int) -> Seq<bool> {
    msb_bits(fixed_code_val(sym) as u16, fixed_code_len(sym) as nat)
}

/// The bits coding one raw match length: its symbol's code, then the extra
/// bits, least significant first.
pub open spec fn length_code_bits(l: int) -> Seq<bool> {
    sym_code_bits(length_sym(l)) + lsb_bits(
        length_extra_val(l) as u16,
        length_sym_ebits(length_sym(l)) as nat,
    )
}

/// The bits coding one raw match distance: the 5-bit symbol, most
/// significant first, then the extra bits, least significant first.
pub open spec fn distance_code_bits(d: int) -> Seq<bool> {
    msb_bits(dist_sym(d) as u16, 5) + lsb_bits(
        dist_extra_val(d) as u16,
        dist_sym_ebits(dist_sym(d)) as nat,
    )
}

/// The bits coding one token.
pub open spec fn token_bits(t: Token) -> Seq<bool> {
    match t {
        Token::Literal(b) => sym_code_bits(b as int),
        Token::Match { len, dist } => length_code_bits(len as int) + distance_code_bits(
            dist as int,
        ),
    }
}

/// The bits coding a whole token sequence, in order.
pub open spec fn tokens_bits(tokens: Seq<Token>) -> Seq<bool>
    decreases tokens.len(),
{
    if tokens.len() == 0 {
        Seq::empty()
    } else {
        tokens_bits(tokens.drop_last()) + token_bits(tokens.last())
    }
}

/// The complete block bit stream: final-block flag 1, block type 01
/// (fixed Huffman, least significant bit first), the coded tokens, and the
/// end-of-block symbol 256.
pub open spec fn deflate_bits(tokens: Seq<Token>) -> Seq<bool> {
    seq![true, true, false] + tokens_bits(tokens) + sym_code_bits(256)
}

/// The block bit stream zero-padded to a whole number of bytes.
pub open spec fn padded_deflate_bits(tokens: Seq<Token>) -> Seq<bool> {
    deflate_bits(tokens) + zero_bits(((8 - deflate_bits(tokens).len() % 8) % 8) as nat)
}

/// The whole archive: local header, payload, central header, and the end
/// record carrying the central header's size and starting offset.
pub open spec fn archive_bytes(
    crc: u32,
    before_size: u32,
    after_size: u32,
    name: Seq<u8>,
    hms: u16,
    ymd: u16,
    payload: Seq<u8>,
) -> Seq<u8> {
    local_header_bytes(crc, before_size, after_size, name, hms, ymd) + payload
        + central_header_bytes(crc, before_size, after_size, name, hms, ymd) + end_header_bytes(
        central_header_bytes(crc, before_size, after_size, name, hms, ymd).len() as u32,
        (local_header_bytes(crc, before_size, after_size, name, hms, ymd).len()
            + payload.len()) as u32,
    )
}

/// What `encode` promises of its output, given the token sequence it chose
/// and the payload it packed: the tokens are valid and decode to the input,
/// the payload transmits exactly the padded block bit stream, and the
/// output is the archive framing that payload with the input's checksum
/// and sizes.
pub open spec fn archive_ok(
    input: Seq<u8>,
    name: Seq<u8>,
    hms: u16,
    ymd: u16,
    tokens: Seq<Token>,
    payload: Seq<u8>,
    out: Seq<u8>,
) -> bool {
    &&& forall|k: int| 0 <= k < tokens.len() ==> #[trigger] token_valid(tokens[k])
    &&& tokens_decode(tokens) == input
    &&& bytes_bits(payload) == padded_deflate_bits(tokens)
    &&& out == archive_bytes(
        crc32_spec(input),
        input.len() as u32,
        payload.len() as u32,
        name,
        hms,
        ymd,
        payload,
    )
}

/// Codes one token into the bit stream.
fn emit_token(w: &mut BitWriter, t: Token)
    requires
        old(w).wf(),
        token_valid(t),
    ensures
        final(w).wf(),
        final(w).stream() == old(w).stream() + token_bits(t),
{
    match t {
        Token::Literal(b) => {
            let (bits_n, buf) = changer(b as usize);
            w.code_bits(buf, bits_n);
            proof {
                assert(buf == fixed_code_val(b as int) as u16);
                assert(bits_n as nat == fixed_code_len(b as int) as nat);
                assert(w.stream() =~= old(w).stream() + token_bits(t));
            }
        },
        Token::Match { len, dist } => {
            proof {
                lemma_length_code_inverts(len as int);
                lemma_dist_code_inverts(dist as int);
            }
            let (num, data, extra) = length_extra(len);
            let (bits_n, buf) = changer(num as usize);
            w.code_bits(buf, bits_n);
            w.extra_bits(extra, data);
            let (dnum, ddata, dextra) = distance_extra(dist as u32);
            w.code_bits(dnum as u16, 5);
            w.extra_bits(dextra, ddata);
            proof {
                assert(buf == fixed_code_val(length_sym(len as int)) as u16);
                assert(bits_n as nat == fixed_code_len(length_sym(len as int)) as nat);
                assert(extra == length_extra_val(len as int) as u16);
                assert(data as nat == length_sym_ebits(length_sym(len as int)) as nat);
                assert(dnum as u16 == dist_sym(dist as int) as u16);
                assert(dextra == dist_extra_val(dist as int) as u16);
                assert(ddata as nat == dist_sym_ebits(dist_sym(dist as int)) as nat);
                assert(w.stream() =~= old(w).stream() + token_bits(t));
            }
        },
    }
}

/// Valid tokens never cost more than eleven bits per decoded byte: a
/// literal codes one byte in at most nine bits, and a match codes at least
/// three bytes in at most thirty-one bits.
proof fn lemma_tokens_bits_len(tokens: Seq<Token>)
    requires
        forall|k: int| 0 <= k < tokens.len() ==> #[trigger] token_valid(tokens[k]),
    ensures
        tokens_bits(tokens).len() <= 11 * tokens_decode(tokens).len(),
    decreases tokens.len(),
{
    if tokens.len() > 0 {
        let prev = tokens.drop_last();
        assert(forall|k: int| 0 <= k < prev.len() ==> #[trigger] token_valid(prev[k])) by {
            assert(forall|k: int|
                0 <= k < prev.len() ==> prev[k] == #[trigger] tokens[k] && token_valid(tokens[k]));
        }
        lemma_tokens_bits_len(prev);
        let t = tokens.last();
        assert(token_valid(t));
        match t {
            Token::Literal(_) => {},
            Token::Match { len, dist } => {
                lemma_copy_bytes_len(tokens_decode(prev), len as nat, dist as nat);
            },
        }
    }
}

/// Compresses `input` and frames it as a single-entry archive whose entry
/// is named by `filename` and stamped with the given DOS time and date
/// fields. The input size bound keeps the 32-bit size fields exact.
pub fn encode(input: Vec<u8>, filename: Vec<u8>, hms: u16, ymd: u16) -> (r: Vec<u8>)
    requires
        input@.len() < 0x8000_0000,
        filename@.len() <= 0xFFFF,
    ensures
        exists|tokens: Seq<Token>, payload: Seq<u8>|
            archive_ok(input@, filename@, hms, ymd, tokens, payload, r@),
{
    let ghost gi = input@;
    let ghost gname = filename@;

    let mut crcs = Crc32::new();
    let n = input.len();
    let mut ci: usize = 0;
    proof {
        assert(gi.take(0) =~= Seq::<u8>::empty());
    }
    while ci < n
        invariant
            ci <= n,
            n == input@.len(),
            input@ == gi,
            crcs.wf(),
            crcs.bytes@ == gi.take(ci as int),
        decreases n - ci,
    {
        let b = input[ci];
        crcs.push_buf(b);
        proof {
            assert(gi.take(ci as int).push(gi[ci as int]) =~= gi.take(ci + 1));
        }
        ci = ci + 1;
    }
    proof {
        assert(gi.take(n as int) =~= gi);
    }
    let crc32_val = crcs.get_crc32();
    let before_size = n as u32;

    let tokens = tokenize(input);
    let ghost tks = tokens@;

    let mut writer = BitWriter::new();
    writer.extra_bits(0b1, 1);
    writer.extra_bits(0b01, 2);
    proof {
        assert((0b1u16 >> 0u16) & 1 == 1) by (bit_vector);
        assert((0b01u16 >> 0u16) & 1 == 1) by (bit_vector);
        assert((0b01u16 >> 1u16) & 1 == 0) by (bit_vector);
        assert(writer.stream() =~= seq![true, true, false]);
    }

    let mut ti: usize = 0;
    let tn = tokens.len();
    while ti < tn
        invariant
            ti <= tn,
            tn == tks.len(),
            tokens@ == tks,
            forall|k: int| 0 <= k < tks.len() ==> #[trigger] token_valid(tks[k]),
            writer.wf(),
            writer.stream() == seq![true, true, false] + tokens_bits(tks.take(ti as int)),
        decreases tn - ti,
    {
        let t = tokens[ti];
        emit_token(&mut writer, t);
        proof {
            assert(tks.take(ti + 1).drop_last() =~= tks.take(ti as int));
            assert(tks.take(ti + 1).last() == tks[ti as int]);
            assert(tokens_bits(tks.take(ti + 1)) == tokens_bits(tks.take(ti as int)) + token_bits(
                tks[ti as int],
            ));
            assert(writer.stream() =~= seq![true, true, false] + tokens_bits(tks.take(ti + 1)));
        }
        ti = ti + 1;
    }
    proof {
        assert(tks.take(tn as int) =~= tks);
    }

    writer.code_bits(0b0000000, 7);
    proof {
        assert(fixed_code_val(256) == 0 && fixed_code_len(256) == 7);
        assert(msb_bits(0b0000000u16, 7nat) == sym_code_bits(256));
        assert(writer.stream() =~= deflate_bits(tks));
    }

    let ghost unpadded = writer.stream();
    proof {
        crate::bits::lemma_bytes_bits_len(writer.output_vector@);
        assert(unpadded.len() == 8 * writer.output_vector@.len() + writer.bit_count as int);
        assert((8 * writer.output_vector@.len() + writer.bit_count as int) % 8
            == writer.bit_count as int) by (nonlinear_arith)
            requires
                0 <= writer.bit_count < 8,
                0 <= writer.output_vector@.len(),
        ;
    }
    writer.flush();
    proof {
        assert(writer.stream() =~= padded_deflate_bits(tks));
        lemma_tokens_bits_len(tks);
        assert(deflate_bits(tks).len() <= 10 + 11 * gi.len());
        crate::bits::lemma_bytes_bits_len(writer.output_vector@);
        assert(8 * writer.output_vector@.len() <= 17 + 11 * gi.len());
    }
    let payload_vec = writer.output_vector;
    let ghost payload = payload_vec@;
    let after_size_usize = payload_vec.len();
    let after_size = after_size_usize as u32;

    let header = Header::new(before_size, after_size, filename, crc32_val, hms, ymd);
    let local_part = header.clone().local_header();
    let central_part = header.clone().central_header();
    proof {
        assert(local_part@.len() == 30 + gname.len());
        assert(central_part@.len() == 46 + gname.len());
    }
    let end_part = header.clone().end_header(
        central_part.len() as u32,
        (local_part.len() + after_size_usize) as u32,
    );

    let mut out_v = local_part;
    let mut payload_m = payload_vec;
    let mut central_m = central_part;
    let mut end_m = end_part;
    out_v.append(&mut payload_m);
    out_v.append(&mut central_m);
    out_v.append(&mut end_m);
    proof {
        assert(out_v@ =~= archive_bytes(
            crc32_spec(gi),
            gi.len() as u32,
            payload.len() as u32,
            gname,
            hms,
            ymd,
            payload,
        ));
        assert(archive_ok(gi, gname, hms, ymd, tks, payload, out_v@));
    }
    out_v
}

} // verus!
