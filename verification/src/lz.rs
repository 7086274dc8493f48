//! Sliding-window longest-match search and the literal/match token stream.
//!
//! `tokenize` turns the input into a sequence of tokens — single literals or
//! (length, distance) back-references — by growing a candidate one byte at a
//! time while the window still holds a match. Its contract states the point
//! of the whole exercise: replaying the tokens with the standard copy-from-
//! `dist`-bytes-back rule reconstructs the input exactly, and every match
//! stays within the 1024-byte window cap.
use crate::reader::ByteReader;
use vstd::prelude::*;

verus! {

/// Longest match length a token may carry.
pub const MAX_MATCH_LEN: usize = 258;

/// Shorter runs are emitted as literals.
pub const MIN_MATCH_LEN: usize = 3;

/// The window never holds more than this many bytes.
pub const MAX_WINDOW_SIZE: usize = 1024;

/// `check` occurs in `window` starting at position `i`.
pub open spec fn occurs_at(window: Seq<u8>, check: Seq<u8>, i: int) -> bool {
    &&& 0 <= i
    &&& i + check.len() <= window.len()
    &&& forall|j: int| 0 <= j < check.len() ==> window[i + j] == #[trigger] check[j]
}

/// `check` occurs somewhere in `window`.
pub open spec fn has_occurrence(window: Seq<u8>, check: Seq<u8>) -> bool {
    exists|i: int| occurs_at(window, check, i)
}

/// The `len` bytes of `s` from `p` on repeat the bytes `dist` earlier.
pub open spec fn repeats_back(s: Seq<u8>, p: int, len: int, dist: int) -> bool {
    s.subrange(p - dist, p - dist + len) == s.subrange(p, p + len)
}

/// Whether `check` matches `window` at position `i`, element by element.
fn matches_at(window: &Vec<u8>, check: &Vec<u8>, i: usize) -> (r: bool)
    requires
        i + check@.len() <= window@.len(),
    ensures
        r <==> occurs_at(window@, check@, i as int),
{
    let m = check.len();
    let wl = window.len();
    let mut j: usize = 0;
    while j < m
        invariant
            j <= m,
            m == check@.len(),
            wl == window@.len(),
            i + m <= wl,
            forall|jj: int| 0 <= jj < j ==> window@[i + jj] == #[trigger] check@[jj],
        decreases m - j,
    {
        if window[i + j] != check[j] {
            proof {
                if occurs_at(window@, check@, i as int) {
                    assert(window@[i + j] == check@[j as int]);
                }
            }
            return false;
        }
        j = j + 1;
    }
    true
}

/// Scans `window` oldest to newest for `check` and returns the backward
/// distance of the first occurrence found (which is the occurrence with the
/// largest distance), or -1 if there is none.
pub fn match_check(window: &Vec<u8>, check: &Vec<u8>) -> (r: isize)
    requires
        window@.len() < 0x8000,
        check@.len() >= 1,
    ensures
        r == -1 ==> !has_occurrence(window@, check@),
        r != -1 ==> {
            &&& 1 <= r <= window@.len() - check@.len() + 1
            &&& occurs_at(window@, check@, window@.len() - check@.len() + 1 - r)
            &&& forall|i: int|
                0 <= i < window@.len() - check@.len() + 1 - r ==> !occurs_at(window@, check@, i)
        },
{
    let wl = window.len();
    let cl = check.len();
    if wl < cl {
        proof {
            assert forall|i: int| !occurs_at(window@, check@, i) by {}
        }
        return -1;
    }
    let bound = wl - cl + 1;
    let mut i: usize = 0;
    while i < bound
        invariant
            bound == wl - cl + 1,
            wl == window@.len(),
            cl == check@.len(),
            cl >= 1,
            cl <= wl,
            wl < 0x8000,
            i <= bound,
            forall|ii: int| 0 <= ii < i ==> !occurs_at(window@, check@, ii),
        decreases bound - i,
    {
        if matches_at(window, check, i) {
            return (wl - cl - i + 1) as isize;
        }
        i = i + 1;
    }
    proof {
        assert forall|ii: int| !occurs_at(window@, check@, ii) by {
            if 0 <= ii < bound {
                assert(!occurs_at(window@, check@, ii));
            }
        }
    }
    -1
}

/// One coded decision: a single literal byte, or a back-reference of `len`
/// bytes starting `dist` bytes back.
#[derive(Clone, Copy, Debug, PartialEq, Eq, Structural)]
pub enum Token {
    Literal(u8),
    Match { len: u16, dist: u16 },
}

/// Ranges the encoder is allowed to produce: match lengths 3..=258 and
/// distances capped by the window size.
pub open spec fn token_valid(t: Token) -> bool {
    match t {
        Token::Literal(_) => true,
        Token::Match { len, dist } => 3 <= len <= 258 && 1 <= dist <= 1024,
    }
}

/// What a decoder does with one back-reference: `len` times, append the
/// byte `dist` positions before the current end.
pub open spec fn copy_bytes(out: Seq<u8>, len: nat, dist: nat) -> Seq<u8>
    decreases len,
{
    if len == 0 {
        out
    } else {
        copy_bytes(out.push(out[out.len() - dist]), (len - 1) as nat, dist)
    }
}

/// What a decoder reconstructs from a whole token sequence.
pub open spec fn tokens_decode(tokens: Seq<Token>) -> Seq<u8>
    decreases tokens.len(),
{
    if tokens.len() == 0 {
        Seq::empty()
    } else {
        let prev = tokens_decode(tokens.drop_last());
        match tokens.last() {
            Token::Literal(b) => prev.push(b),
            Token::Match { len, dist } => copy_bytes(prev, len as nat, dist as nat),
        }
    }
}

/// A back-reference copy appends exactly `len` bytes.
pub proof fn lemma_copy_bytes_len(out: Seq<u8>, len: nat, dist: nat)
    ensures
        copy_bytes(out, len, dist).len() == out.len() + len,
    decreases len,
{
    if len > 0 {
        lemma_copy_bytes_len(out.push(out[out.len() - dist]), (len - 1) as nat, dist);
    }
}

/// Copying `len` bytes from `dist` back extends the decoded prefix of `s`
/// by exactly the bytes of `s` it stands for, provided each copied byte
/// repeats the byte `dist` earlier — the overlap case (`dist < len`)
/// included, since the copy proceeds one byte at a time.
proof fn lemma_copy_extend(s: Seq<u8>, p: int, len: int, dist: int)
    requires
        0 <= len,
        1 <= dist <= p,
        p + len <= s.len(),
        repeats_back(s, p, len, dist),
    ensures
        copy_bytes(s.take(p), len as nat, dist as nat) == s.take(p + len),
    decreases len,
{
    if len == 0 {
        assert(s.take(p) =~= s.take(p + len));
    } else {
        let out = s.take(p);
        assert(s.subrange(p - dist, p - dist + len)[0] == s.subrange(p, p + len)[0]);
        assert(out[p - dist] == s[p - dist]);
        assert(out.push(out[out.len() - dist]) =~= s.take(p + 1));
        assert(repeats_back(s, p + 1, len - 1, dist)) by {
            assert forall|j: int| 0 <= j < len - 1 implies #[trigger] (s.subrange(
                p + 1 - dist,
                p + 1 - dist + (len - 1),
            )[j]) == s.subrange(p + 1, p + 1 + (len - 1))[j] by {
                assert(s.subrange(p - dist, p - dist + len)[j + 1] == s.subrange(p, p + len)[j
                    + 1]);
            }
            assert(s.subrange(p + 1 - dist, p + 1 - dist + (len - 1)) =~= s.subrange(
                p + 1,
                p + 1 + (len - 1),
            ));
        }
        lemma_copy_extend(s, p + 1, len - 1, dist);
    }
}

/// Runs the greedy match-growth procedure over the whole input and returns
/// the token stream. Replaying the tokens reconstructs the input exactly,
/// every token is within the coding ranges, and no match reaches farther
/// back than the window cap.
pub fn tokenize(input: Vec<u8>) -> (r: Vec<Token>)
    ensures
        forall|k: int| 0 <= k < r@.len() ==> #[trigger] token_valid(r@[k]),
        tokens_decode(r@) == input@,
        r@.len() <= input@.len(),
        input@.len() > 0 ==> r@.len() >= 1 && r@[0] == Token::Literal(input@[0]),
{
    let ghost s = input@;
    let mut tokens: Vec<Token> = Vec::new();
    let mut window: Vec<u8> = Vec::new();
    let mut reader = ByteReader::new(input);
    if !reader.flag {
        proof {
            assert(s.len() == 0);
            assert(tokens_decode(tokens@) =~= s);
        }
        return tokens;
    }
    let first = reader.get_byte();
    tokens.push(Token::Literal(first));
    proof {
        reveal_with_fuel(tokens_decode, 2);
        assert(tokens@.drop_last() =~= Seq::<Token>::empty());
        assert(tokens_decode(tokens@) =~= s.take(1));
    }
    while reader.flag
        invariant
            reader.wf(),
            reader.input@ == s,
            1 <= reader.buf_count <= s.len(),
            window@ == s.subrange(reader.buf_count - window@.len(), reader.buf_count as int),
            window@.len() as int == if reader.buf_count - 1 < 1024 {
                reader.buf_count - 1
            } else {
                1024int
            },
            tokens_decode(tokens@) == s.take(reader.buf_count as int),
            forall|k: int| 0 <= k < tokens@.len() ==> #[trigger] token_valid(tokens@[k]),
            tokens@.len() <= reader.buf_count,
            tokens@.len() >= 1 && tokens@[0] == Token::Literal(s[0]),
        decreases s.len() - reader.buf_count,
    {
        let ghost p0 = reader.buf_count as int;
        let ghost w0 = window@.len() as int;
        let byte = reader.get_byte();
        let mut res: Vec<u8> = Vec::new();
        res.push(byte);
        let mut dist: usize = 0;
        window.push(byte);
        proof {
            assert(res@ =~= s.subrange(p0, p0 + 1));
            assert(window@ =~= s.subrange(p0 - w0, p0 + 1));
        }
        while res.len() < MAX_MATCH_LEN && reader.flag
            invariant
                reader.wf(),
                reader.input@ == s,
                1 <= res@.len() <= 258,
                reader.buf_count == p0 + res@.len(),
                p0 + res@.len() <= s.len(),
                res@ == s.subrange(p0, p0 + res@.len() as int),
                window@ == s.subrange(p0 - w0, p0 + res@.len() as int),
                w0 == if p0 - 1 < 1024 {
                    p0 - 1
                } else {
                    1024int
                },
                0 <= p0 - w0,
                1 <= p0,
                res@.len() == 1 ==> dist == 0,
                res@.len() >= 2 ==> 1 <= dist <= w0,
                res@.len() >= 2 ==> repeats_back(s, p0, res@.len() as int, dist as int),
            decreases 258 - res@.len(),
        {
            let ghost l_old = res@.len() as int;
            let v = reader.seek_byte();
            res.push(v);
            proof {
                assert(res@ =~= s.subrange(p0, p0 + l_old + 1));
            }
            let new_offset = match_check(&window, &res);
            if new_offset < 0 {
                let _ = res.pop();
                proof {
                    assert(res@ =~= s.subrange(p0, p0 + l_old));
                }
                break ;
            }
            proof {
                let d = new_offset as int;
                let wlen = window@.len() as int;
                let clen = res@.len() as int;
                let ii = wlen - clen + 1 - d;
                assert(occurs_at(window@, res@, ii));
                assert(ii == w0 - d);
                assert(1 <= d <= w0);
                assert forall|j: int| 0 <= j < clen implies #[trigger] (s.subrange(
                    p0 - d,
                    p0 - d + clen,
                )[j]) == s.subrange(p0, p0 + clen)[j] by {
                    assert(window@[ii + j] == res@[j]);
                }
                assert(s.subrange(p0 - d, p0 - d + clen) =~= s.subrange(p0, p0 + clen));
                assert(repeats_back(s, p0, clen, d));
            }
            dist = new_offset as usize;
            window.push(v);
            proof {
                assert(window@ =~= s.subrange(p0 - w0, p0 + l_old + 1));
            }
            reader.next_byte();
        }
        // `res` holds the consumed bytes of this iteration: one literal run
        // of length 1 or 2, or a match of length 3..=258 at `dist`.
        let ghost consumed = res@.len() as int;
        if res.len() < MIN_MATCH_LEN {
            let mut q: usize = 0;
            let rl = res.len();
            while q < rl
                invariant
                    q <= rl,
                    rl == res@.len(),
                    res@ == s.subrange(p0, p0 + res@.len() as int),
                    p0 + res@.len() <= s.len(),
                    0 <= p0,
                    tokens_decode(tokens@) == s.take(p0 + q),
                    forall|k: int| 0 <= k < tokens@.len() ==> #[trigger] token_valid(tokens@[k]),
                    tokens@.len() <= p0 + q,
                    tokens@.len() >= 1 && tokens@[0] == Token::Literal(s[0]),
                decreases rl - q,
            {
                let b = res[q];
                let ghost tks = tokens@;
                tokens.push(Token::Literal(b));
                proof {
                    assert(tokens@.drop_last() =~= tks);
                    assert(b == s[p0 + q]);
                    assert(s.take(p0 + q).push(s[p0 + q]) =~= s.take(p0 + q + 1));
                    assert(tokens_decode(tokens@) == s.take(p0 + q + 1));
                }
                q = q + 1;
            }
        } else {
            let match_len = res.len();
            let ghost tks = tokens@;
            tokens.push(Token::Match { len: match_len as u16, dist: dist as u16 });
            proof {
                lemma_copy_extend(s, p0, consumed, dist as int);
                assert(tokens@.drop_last() =~= tks);
                assert(tokens_decode(tokens@) == s.take(p0 + consumed));
            }
        }
        if window.len() > MAX_WINDOW_SIZE {
            let excess = window.len() - MAX_WINDOW_SIZE;
            let kept = window.split_off(excess);
            window = kept;
        }
        proof {
            let p1 = reader.buf_count as int;
            assert(p1 == p0 + consumed);
            assert(window@ =~= s.subrange(p1 - window@.len(), p1));
        }
    }
    proof {
        assert(s.take(s.len() as int) =~= s);
    }
    tokens
}

} // verus!
