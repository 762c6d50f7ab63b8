//! Stable digests of class grids: a 64-bit FNV-1a style hash of the grid
//! ids, started from this library's own offset value, shown as sixteen
//! lowercase hex digits.
use vstd::prelude::*;

verus! {

/// Starting value of the digest hash.
pub const DIGEST_OFFSET: u64 = 1469598103934665603;

/// The 64-bit FNV prime.
pub const FNV_PRIME: u64 = 1099511628211;

/// 64-bit FNV-1a style hash of a byte sequence, from `DIGEST_OFFSET`: each
/// byte is xored into the hash, which is then multiplied by the prime
/// modulo 2^64.
pub open spec fn fnv1a(bytes: Seq<u8>) -> u64
    decreases bytes.len(),
{
    if bytes.len() == 0 {
        DIGEST_OFFSET
    } else {
        let h = fnv1a(bytes.drop_last()) ^ (bytes.last() as u64);
        ((h as nat * FNV_PRIME as nat) % 0x1_0000_0000_0000_0000) as u64
    }
}

/// The lowercase hex digit of a value below 16.
pub open spec fn hex_digit(d: int) -> char {
    if d < 10 {
        ((48 + d) as u32) as char
    } else {
        ((87 + d) as u32) as char
    }
}

/// The last `n` hex digits of `v`, most significant first, zero-padded.
pub open spec fn hex_text(v: nat, n: nat) -> Seq<char>
    decreases n,
{
    if n == 0 {
        Seq::empty()
    } else {
        hex_text(v / 16, (n - 1) as nat).push(hex_digit((v % 16) as int))
    }
}

/// The digest of a grid's ids: its hash as sixteen hex digits.
pub open spec fn digest_text(ids: Seq<u8>) -> Seq<char> {
    hex_text(fnv1a(ids) as nat, 16)
}

/// The one-character text of a hex digit.
fn hex_digit_text(d: u64) -> (r: &'static str)
    requires
        d < 16,
    ensures
        r@ == seq![hex_digit(d as int)],
{
    match d {
        0 => {
            proof { reveal_strlit("0"); }
            "0"
        }
        1 => {
            proof { reveal_strlit("1"); }
            "1"
        }
        2 => {
            proof { reveal_strlit("2"); }
            "2"
        }
        3 => {
            proof { reveal_strlit("3"); }
            "3"
        }
        4 => {
            proof { reveal_strlit("4"); }
            "4"
        }
        5 => {
            proof { reveal_strlit("5"); }
            "5"
        }
        6 => {
            proof { reveal_strlit("6"); }
            "6"
        }
        7 => {
            proof { reveal_strlit("7"); }
            "7"
        }
        8 => {
            proof { reveal_strlit("8"); }
            "8"
        }
        9 => {
            proof { reveal_strlit("9"); }
            "9"
        }
        10 => {
            proof { reveal_strlit("a"); }
            "a"
        }
        11 => {
            proof { reveal_strlit("b"); }
            "b"
        }
        12 => {
            proof { reveal_strlit("c"); }
            "c"
        }
        13 => {
            proof { reveal_strlit("d"); }
            "d"
        }
        14 => {
            proof { reveal_strlit("e"); }
            "e"
        }
        _ => {
            proof { reveal_strlit("f"); }
            "f"
        }
    }
}

/// Hash of `ids`, as `fnv1a` states.
pub fn fnv1a_hash(ids: &[u8]) -> (r: u64)
    ensures
        r == fnv1a(ids@),
{
    let mut hash: u64 = DIGEST_OFFSET;
    let mut i: usize = 0;
    while i < ids.len()
        invariant
            i <= ids@.len(),
            hash == fnv1a(ids@.subrange(0, i as int)),
        decreases ids@.len() - i,
    {
        assert(ids@.subrange(0, i + 1).drop_last() =~= ids@.subrange(0, i as int));
        hash = hash ^ (ids[i] as u64);
        hash = hash.wrapping_mul(FNV_PRIME);
        i = i + 1;
    }
    assert(ids@.subrange(0, ids@.len() as int) =~= ids@);
    hash
}

/// Sixteen lowercase hex digits of `v`, zero-padded.
pub fn hex16(v: u64) -> (r: String)
    ensures
        r@ == hex_text(v as nat, 16),
{
    let mut digits: [u64; 16] = [0u64; 16];
    let mut rest: u64 = v;
    let mut k: usize = 0;
    let ghost mut tail: Seq<char> = Seq::empty();
    while k < 16
        invariant
            k <= 16,
            tail.len() == k,
            hex_text(v as nat, 16) == hex_text(rest as nat, (16 - k) as nat) + tail,
            forall|j: int| 16 - k <= j < 16 ==> #[trigger] digits[j] < 16 && tail[j - (16 - k)]
                == hex_digit(digits[j] as int),
        decreases 16 - k,
    {
        let d = rest % 16;
        proof {
            let n = (16 - k) as nat;
            assert(hex_text(rest as nat, n) == hex_text((rest / 16) as nat, (n - 1) as nat).push(
                hex_digit(d as int),
            ));
            assert(hex_text((rest / 16) as nat, (n - 1) as nat).push(hex_digit(d as int)) + tail
                =~= hex_text((rest / 16) as nat, (n - 1) as nat) + seq![hex_digit(d as int)].add(
                tail,
            ));
        }
        digits[15 - k] = d;
        proof {
            tail = seq![hex_digit(d as int)].add(tail);
        }
        rest = rest / 16;
        k = k + 1;
    }
    assert(hex_text(rest as nat, 0) =~= Seq::<char>::empty());
    assert(hex_text(v as nat, 16) =~= tail);
    let mut out = String::new();
    let mut i: usize = 0;
    while i < 16
        invariant
            i <= 16,
            tail.len() == 16,
            forall|j: int| 0 <= j < 16 ==> #[trigger] digits[j] < 16 && tail[j] == hex_digit(
                digits[j] as int,
            ),
            out@ =~= tail.subrange(0, i as int),
        decreases 16 - i,
    {
        let piece = hex_digit_text(digits[i]);
        out.append(piece);
        assert(tail.subrange(0, i + 1) =~= tail.subrange(0, i as int).push(tail[i as int]));
        i = i + 1;
    }
    out
}

/// Stable digest of a grid's ids: their hash as sixteen lowercase hex digits.
pub fn stable_grid_digest(ids: &[u8]) -> (r: String)
    ensures
        r@ == digest_text(ids@),
{
    hex16(fnv1a_hash(ids))
}

/// Every digest is sixteen characters long, each a lowercase hex digit.
pub proof fn law_digest_shape(ids: Seq<u8>)
    ensures
        digest_text(ids).len() == 16,
        forall|j: int| 0 <= j < 16 ==> {
            let c = #[trigger] digest_text(ids)[j];
            ('0' <= c <= '9') || ('a' <= c <= 'f')
        },
{
    lemma_hex_text_shape(fnv1a(ids) as nat, 16);
}

proof fn lemma_hex_text_shape(v: nat, n: nat)
    ensures
        hex_text(v, n).len() == n,
        forall|j: int| 0 <= j < n ==> {
            let c = #[trigger] hex_text(v, n)[j];
            ('0' <= c <= '9') || ('a' <= c <= 'f')
        },
    decreases n,
{
    if n > 0 {
        lemma_hex_text_shape(v / 16, (n - 1) as nat);
        let d = (v % 16) as int;
        assert(0 <= d < 16);
    }
}

} // verus!
