//! Lengths of texts in UTF-8 bytes, and cutting a text at a byte length.

use vstd::prelude::*;

verus! {

/// The number of bytes of the UTF-8 encoding of `c`.
pub open spec fn char_width(c: char) -> int {
    let u = c as u32;
    if u <= 0x7F {
        1
    } else if u <= 0x7FF {
        2
    } else if u <= 0xFFFF {
        3
    } else {
        4
    }
}

/// The number of bytes of the UTF-8 encoding of `s` (`str::len`).
pub open spec fn byte_len(s: Seq<char>) -> int
    decreases s.len(),
{
    if s.len() == 0 {
        0
    } else {
        char_width(s[0]) + byte_len(s.drop_first())
    }
}

/// The longest prefix of `s` whose encoding has exactly `n` bytes, if `n` falls
/// on a character boundary of `s`; slicing `&s[..n]` panics otherwise.
pub open spec fn cut_at_bytes(s: Seq<char>, n: int) -> Option<Seq<char>> {
    if exists|k: int| 0 <= k <= s.len() && byte_len(#[trigger] s.take(k)) == n {
        Some(s.take(choose|k: int| 0 <= k <= s.len() && byte_len(#[trigger] s.take(k)) == n))
    } else {
        None
    }
}

/// The width of a character is the length of its UTF-8 encoding.
pub proof fn lemma_char_width(c: char)
    ensures
        char_width(c) == vstd::utf8::encode_scalar(c as u32).len(),
        1 <= char_width(c) <= 4,
{
    vstd::utf8::char_is_scalar(c);
}

/// `byte_len` is the length of `encode_utf8`.
pub proof fn lemma_byte_len_encode(s: Seq<char>)
    ensures
        byte_len(s) == vstd::utf8::encode_utf8(s).len(),
    decreases s.len(),
{
    if s.len() > 0 {
        lemma_char_width(s[0]);
        lemma_byte_len_encode(s.drop_first());
    }
}

/// The byte length of a concatenation is the sum of the byte lengths.
pub proof fn lemma_byte_len_add(a: Seq<char>, b: Seq<char>)
    ensures
        byte_len(a + b) == byte_len(a) + byte_len(b),
    decreases a.len(),
{
    if a.len() > 0 {
        assert((a + b).drop_first() =~= a.drop_first() + b);
        lemma_byte_len_add(a.drop_first(), b);
    } else {
        assert(a + b =~= b);
    }
}

/// Adding one character to a prefix adds that character's width.
pub proof fn lemma_byte_len_take_step(s: Seq<char>, k: int)
    requires
        0 <= k < s.len(),
    ensures
        byte_len(s.take(k + 1)) == byte_len(s.take(k)) + char_width(s[k]),
{
    assert(s.take(k + 1) =~= s.take(k) + seq![s[k]]);
    lemma_byte_len_add(s.take(k), seq![s[k]]);
    assert(seq![s[k]].drop_first() =~= Seq::<char>::empty());
    assert(byte_len(Seq::<char>::empty()) == 0);
    assert(byte_len(seq![s[k]]) == char_width(s[k]) + byte_len(seq![s[k]].drop_first()));
}

/// Longer prefixes have more bytes.
pub proof fn lemma_byte_len_take_strict(s: Seq<char>, j: int, k: int)
    requires
        0 <= j < k <= s.len(),
    ensures
        byte_len(s.take(j)) < byte_len(s.take(k)),
    decreases k - j,
{
    lemma_byte_len_take_step(s, k - 1);
    lemma_char_width(s[k - 1]);
    if j < k - 1 {
        lemma_byte_len_take_strict(s, j, k - 1);
    }
}

/// The byte length of a whole text is that of its longest prefix.
pub proof fn lemma_byte_len_take_all(s: Seq<char>)
    ensures
        byte_len(s.take(s.len() as int)) == byte_len(s),
{
    assert(s.take(s.len() as int) =~= s);
}

/// The number of UTF-8 bytes of `s`.
pub fn byte_len_exec(s: &[char]) -> (n: u128)
    ensures
        n == byte_len(s@),
{
    let mut n: u128 = 0;
    let mut i: usize = 0;
    proof {
        assert(s@.take(0) =~= Seq::<char>::empty());
    }
    while i < s.len()
        invariant
            i <= s@.len(),
            n == byte_len(s@.take(i as int)),
            n <= 4 * i,
        decreases s@.len() - i,
    {
        proof {
            lemma_byte_len_take_step(s@, i as int);
            lemma_char_width(s@[i as int]);
        }
        n = n + char_width_exec(s[i]);
        i = i + 1;
    }
    proof {
        lemma_byte_len_take_all(s@);
    }
    n
}

/// The number of UTF-8 bytes of `c`.
pub fn char_width_exec(c: char) -> (w: u128)
    ensures
        w == char_width(c),
{
    let u = c as u32;
    if u <= 0x7F {
        1
    } else if u <= 0x7FF {
        2
    } else if u <= 0xFFFF {
        3
    } else {
        4
    }
}

/// The prefix of `s` with exactly `n` UTF-8 bytes, if `n` falls on a
/// character boundary; see [`cut_at_bytes`].
pub fn cut_at_bytes_exec(s: &[char], n: usize) -> (r: Option<Vec<char>>)
    ensures
        match (r, cut_at_bytes(s@, n as int)) {
            (Some(a), Some(b)) => a@ == b,
            (None, None) => true,
            _ => false,
        },
{
    let mut acc: u128 = 0;
    let mut i: usize = 0;
    let mut out: Vec<char> = Vec::new();
    proof {
        assert(s@.take(0) =~= Seq::<char>::empty());
    }
    while i < s.len() && acc < n as u128
        invariant
            i <= s@.len(),
            acc == byte_len(s@.take(i as int)),
            acc <= 4 * i,
            out@ == s@.take(i as int),
            forall|k: int| 0 <= k < i ==> byte_len(#[trigger] s@.take(k)) < n,
        decreases s@.len() - i,
    {
        proof {
            lemma_byte_len_take_step(s@, i as int);
            lemma_char_width(s@[i as int]);
        }
        acc = acc + char_width_exec(s[i]);
        out.push(s[i]);
        i = i + 1;
        assert(out@ =~= s@.take(i as int));
    }
    if acc == n as u128 {
        proof {
            let k = choose|k: int| 0 <= k <= s@.len() && byte_len(#[trigger] s@.take(k)) == n;
            if k < i {
                lemma_byte_len_take_strict(s@, k, i as int);
            } else if k > i {
                lemma_byte_len_take_strict(s@, i as int, k);
            }
        }
        Some(out)
    } else {
        proof {
            assert forall|k: int| 0 <= k <= s@.len() implies byte_len(#[trigger] s@.take(k)) != n by {
                if k < i {
                } else if k > i {
                    lemma_byte_len_take_strict(s@, i as int, k);
                    if i == s@.len() {
                    }
                }
            }
        }
        None
    }
}

/// `k` is the number of characters of the longest prefix of `s` whose
/// encoding has at most `n` bytes.
pub open spec fn is_floor_len(s: Seq<char>, n: int, k: int) -> bool {
    &&& 0 <= k <= s.len()
    &&& byte_len(s.take(k)) <= n
    &&& k < s.len() ==> byte_len(s.take(k + 1)) > n
}

/// The longest prefix of `s` whose encoding has at most `n` bytes: `s` cut
/// at the last character boundary at or below `n` bytes.
pub open spec fn floor_cut(s: Seq<char>, n: int) -> Seq<char> {
    s.take(choose|k: int| is_floor_len(s, n, k))
}

/// Prefixes that are no longer have no more bytes.
pub proof fn lemma_byte_len_take_mono(s: Seq<char>, j: int, k: int)
    requires
        0 <= j <= k <= s.len(),
    ensures
        byte_len(s.take(j)) <= byte_len(s.take(k)),
{
    if j < k {
        lemma_byte_len_take_strict(s, j, k);
    }
}

/// Only one length is that of the longest prefix within `n` bytes.
pub proof fn lemma_floor_len_unique(s: Seq<char>, n: int, k: int, m: int)
    requires
        is_floor_len(s, n, k),
        is_floor_len(s, n, m),
    ensures
        k == m,
{
    if k < m {
        lemma_byte_len_take_mono(s, k + 1, m);
    } else if m < k {
        lemma_byte_len_take_mono(s, m + 1, k);
    }
}

/// The cut text is a prefix of `s` with at most `n` bytes (for `n >= 0`),
/// and it is `s` itself when `s` has at most `n` bytes.
pub proof fn lemma_floor_cut(s: Seq<char>, n: int)
    requires
        n >= 0,
    ensures
        floor_cut(s, n) == s.take(floor_cut(s, n).len() as int),
        floor_cut(s, n).len() <= s.len(),
        byte_len(floor_cut(s, n)) <= n,
        byte_len(s) <= n ==> floor_cut(s, n) == s,
{
    let k = floor_len_witness(s, n);
    lemma_floor_len_unique(s, n, k, choose|m: int| is_floor_len(s, n, m));
    if byte_len(s) <= n {
        lemma_byte_len_take_all(s);
        assert(is_floor_len(s, n, s.len() as int));
        lemma_floor_len_unique(s, n, k, s.len() as int);
        assert(s.take(s.len() as int) =~= s);
    }
}

/// Some length is that of the longest prefix within `n` bytes.
proof fn floor_len_witness(s: Seq<char>, n: int) -> (k: int)
    requires
        n >= 0,
    ensures
        is_floor_len(s, n, k),
{
    assert(s.take(0) =~= Seq::<char>::empty());
    assert(byte_len(Seq::<char>::empty()) == 0);
    floor_len_from(s, n, 0)
}

/// Extends a prefix of at most `n` bytes one character at a time while it
/// stays within `n` bytes.
proof fn floor_len_from(s: Seq<char>, n: int, k: int) -> (m: int)
    requires
        0 <= k <= s.len(),
        byte_len(s.take(k)) <= n,
    ensures
        is_floor_len(s, n, m),
    decreases s.len() - k,
{
    if k < s.len() && byte_len(s.take(k + 1)) <= n {
        floor_len_from(s, n, k + 1)
    } else {
        k
    }
}

/// `s` cut at the last character boundary at or below `n` bytes; see [`floor_cut`].
pub fn floor_cut_exec(s: &[char], n: usize) -> (r: Vec<char>)
    ensures
        r@ == floor_cut(s@, n as int),
{
    let mut acc: u128 = 0;
    let mut i: usize = 0;
    let mut out: Vec<char> = Vec::new();
    proof {
        assert(s@.take(0) =~= Seq::<char>::empty());
        assert(byte_len(Seq::<char>::empty()) == 0);
    }
    while i < s.len() && acc + char_width_exec(s[i]) <= n as u128
        invariant
            i <= s@.len(),
            acc == byte_len(s@.take(i as int)),
            acc <= n,
            out@ == s@.take(i as int),
        decreases s@.len() - i,
    {
        proof {
            lemma_byte_len_take_step(s@, i as int);
        }
        acc = acc + char_width_exec(s[i]);
        out.push(s[i]);
        i = i + 1;
        assert(out@ =~= s@.take(i as int));
    }
    proof {
        if i < s@.len() {
            lemma_byte_len_take_step(s@, i as int);
        }
        assert(is_floor_len(s@, n as int, i as int));
        lemma_floor_len_unique(s@, n as int, i as int, choose|m: int| is_floor_len(s@, n as int, m));
    }
    out
}

} // verus!
